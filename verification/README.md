# press-party

Assign metadata and album art to music files, in batches, from the command
line (`art`, `set`, `dump`) or from a two-column terminal interface (`tui`)
with an inline image preview.

The library under `src/` is verified with Verus:

- `text`, `path`, `format`: string helpers, Unix path semantics (file name,
  extension, join, parent, the component order `PathBuf`s sort by) and the display
  formats of sizes and durations.
- `scan`: which files are audio or images, and the directory walk.
- `art`: MIME sniffing, cover pictures, and images taken from bytes.
- `meta`: the track snapshot, change sets, plans, their preview text, the tag
  writes that apply them, and where backups go.
- `cli`, `dump`: the decisions and reports of the command line.
- `tui`: the interface state, the key handling as a state machine that asks
  its caller for the work it cannot do itself, and the text it draws.

`app/` is the program around it: argument parsing, reading and writing tags,
walking the disk, and drawing the terminal.
