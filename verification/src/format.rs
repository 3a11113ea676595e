//! Small pure formatting helpers shared between the metadata dump, plan
//! rendering and the TUI row formatter.
use vstd::prelude::*;

use crate::text::{dec, dec2, digit, digit_char, push_char, push_dec, push_dec2, push_str};
use vstd::arithmetic::power2::{lemma2_to64, lemma_pow2_pos, lemma_pow2_strictly_increases, lemma_pow2_unfold, pow2};

verus! {

/// Placeholder for an absent text field.
pub const DASH: &'static str = "—";

/// Number of binary digits of `n` (0 for 0).
pub open spec fn bit_len(n: nat) -> nat
    decreases n,
{
    if n == 0 {
        0
    } else {
        1 + bit_len(n / 2)
    }
}

/// `num / den` rounded to the nearest integer, ties to the even neighbour.
pub open spec fn round_half_even(num: nat, den: nat) -> nat
    recommends
        den > 0,
{
    let q = num / den;
    let r = num % den;
    if 2 * r > den || (2 * r == den && q % 2 == 1) {
        q + 1
    } else {
        q
    }
}

/// The value of `n as f64`: `n` rounded to 53 significant bits, ties to even.
pub open spec fn as_f64(n: nat) -> nat {
    if bit_len(n) <= 53 {
        n
    } else {
        let s = (bit_len(n) - 53) as nat;
        round_half_even(n, pow2(s)) * pow2(s)
    }
}

pub open spec fn kib() -> nat {
    1024
}

pub open spec fn mib() -> nat {
    1048576
}

/// What `format_size` prints for a byte count: `N B` below one KiB, whole KiB
/// below one MiB, MiB with one decimal above; the float arithmetic of the
/// computation is exact here, so the rounding is that of `{:.0}` / `{:.1}` on
/// the exact quotient (ties to even).
pub open spec fn size_text(bytes: nat) -> Seq<char> {
    let f = as_f64(bytes);
    if f >= mib() {
        let t = round_half_even(f * 10, mib());
        dec(t / 10) + seq!['.', digit_char(t % 10)] + " MiB"@
    } else if f >= kib() {
        dec(round_half_even(f, kib())) + " KiB"@
    } else {
        dec(bytes) + " B"@
    }
}

/// What `format_duration` prints: minutes, a colon, two-digit seconds.
pub open spec fn duration_text(secs: nat) -> Seq<char> {
    dec(secs / 60) + seq![':'] + dec2(secs % 60)
}

/// The text of an optional field: the value if present and non-empty, else
/// the dash.
pub open spec fn opt_text(s: Option<Seq<char>>) -> Seq<char> {
    match s {
        Some(v) => if v.len() > 0 {
            v
        } else {
            DASH@
        },
        None => DASH@,
    }
}

/// The view of an optional string.
pub open spec fn opt_view(s: Option<String>) -> Option<Seq<char>> {
    match s {
        Some(v) => Some(v@),
        None => None,
    }
}

/// The value of an optional text field, or the dash when absent or empty.
pub fn opt_str(s: &Option<String>) -> (r: &str)
    ensures
        r@ == opt_text(opt_view(*s)),
{
    match s {
        Some(v) => {
            if v.as_str().is_empty() {
                DASH
            } else {
                v.as_str()
            }
        },
        None => DASH,
    }
}

/// `m:ss` for a duration in seconds.
pub fn format_duration(secs: u64) -> (r: String)
    ensures
        r@ == duration_text(secs as nat),
{
    let mut s = String::new();
    push_dec(&mut s, secs / 60);
    push_char(&mut s, ':');
    push_dec2(&mut s, secs % 60);
    s
}

/// The exact value of `n as f64`.
fn f64_value(n: u64) -> (r: u128)
    ensures
        r == as_f64(n as nat),
        r <= 0x2_0000_0000_0000_0000u128,
{
    proof {
        lemma2_to64();
    }
    let mut len: u64 = 0;
    let mut x: u64 = n;
    while x > 0
        invariant
            bit_len(n as nat) == len + bit_len(x as nat),
            len <= 64,
            x as nat * pow2(len as nat) <= n,
        decreases x,
    {
        proof {
            lemma_pow2_pos(len as nat);
            lemma_pow2_unfold((len + 1) as nat);
            assert(pow2((len + 1) as nat) == 2 * pow2(len as nat));
            assert((x / 2) as nat * pow2((len + 1) as nat) <= x as nat * pow2(len as nat))
                by (nonlinear_arith)
                requires
                    pow2((len + 1) as nat) == 2 * pow2(len as nat),
                    pow2(len as nat) >= 1,
            ;
            if len == 64 {
                lemma2_to64();
                assert(x as nat * pow2(len as nat) >= pow2(64)) by (nonlinear_arith)
                    requires
                        x >= 1,
                        len == 64,
                        pow2(len as nat) == pow2(64),
                ;
            }
        }
        x = x / 2;
        len = len + 1;
    }
    if len <= 53 {
        return n as u128;
    }
    let s = len - 53;
    let mut p: u128 = 1;
    let mut i: u64 = 0;
    while i < s
        invariant
            i <= s,
            s <= 11,
            p == pow2(i as nat),
            p <= 2048,
        decreases s - i,
    {
        proof {
            lemma_pow2_unfold((i + 1) as nat);
            assert(pow2((i + 1) as nat) == 2 * pow2(i as nat));
            lemma2_to64();
            if i + 1 < 11 {
                lemma_pow2_strictly_increases((i + 1) as nat, 11);
            }
        }
        p = p * 2;
        i = i + 1;
    }
    let q = (n as u128) / p;
    let r = (n as u128) % p;
    let rounded = if 2 * r > p || (2 * r == p && q % 2 == 1) {
        q + 1
    } else {
        q
    };
    proof {
        lemma_pow2_pos(s as nat);
        assert(rounded * p <= 0x2_0000_0000_0000_0000u128) by (nonlinear_arith)
            requires
                q == (n as u128) / p,
                p >= 1,
                p <= 2048,
                rounded <= q + 1,
                n < 0x1_0000_0000_0000_0000u128,
        ;
    }
    rounded * p
}

/// Human-readable byte count: `N B`, `N KiB` or `N.N MiB`.
pub fn format_size(bytes: u64) -> (r: String)
    ensures
        r@ == size_text(bytes as nat),
{
    let f = f64_value(bytes);
    let mut s = String::new();
    if f >= 1048576 {
        let num = f * 10;
        let q = num / 1048576;
        let rem = num % 1048576;
        let t = if 2 * rem > 1048576 || (2 * rem == 1048576 && q % 2 == 1) {
            q + 1
        } else {
            q
        };
        push_dec(&mut s, (t / 10) as u64);
        push_char(&mut s, '.');
        push_char(&mut s, digit((t % 10) as u64));
        push_str(&mut s, " MiB");
    } else if f >= 1024 {
        let q = f / 1024;
        let rem = f % 1024;
        let t = if 2 * rem > 1024 || (2 * rem == 1024 && q % 2 == 1) {
            q + 1
        } else {
            q
        };
        push_dec(&mut s, t as u64);
        push_str(&mut s, " KiB");
    } else {
        push_dec(&mut s, bytes);
        push_str(&mut s, " B");
    }
    s
}

} // verus!
