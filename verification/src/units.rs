//! Memory and file sizes as the engine prints them: gigabytes with one
//! decimal, or whole megabytes. The sizes go through `f64` (`n as f64`, then
//! divisions by powers of two) and `{:.1}` / `{:.0}` formatting; here that is
//! computed exactly on integers.

use vstd::prelude::*;

use crate::text::{decimal, digit, digit_char, push_decimal, string_of};

verus! {

/// The least integer of 54 bits: integers below it are exact in an `f64`.
pub const F64_EXACT_LIMIT: u64 = 0x20_0000_0000_0000;

pub open spec fn two_to(k: nat) -> nat
    decreases k,
{
    if k == 0 { 1 } else { 2 * two_to((k - 1) as nat) }
}

/// How many low bits of `n` an `f64` cannot hold.
pub open spec fn f64_shift(n: nat) -> nat
    decreases n,
{
    if n < F64_EXACT_LIMIT { 0 } else { 1 + f64_shift(n / 2) }
}

/// `t / d` rounded to the nearest integer, halves to the even neighbour.
pub open spec fn round_half_even(t: nat, d: nat) -> nat {
    let q = t / d;
    let r = t % d;
    if 2 * r > d || (2 * r == d && q % 2 == 1) { q + 1 } else { q }
}

/// `n as f64`, as an integer: `n` rounded to 53 significant bits, ties to even.
pub open spec fn nearest_f64(n: nat) -> nat {
    let d = two_to(f64_shift(n));
    round_half_even(n, d) * d
}

/// A number of tenths written with one decimal, as `{:.1}` writes it.
pub open spec fn tenths_text(q: nat) -> Seq<char> {
    decimal(q / 10) + seq!['.', digit_char(q % 10)]
}

/// `{:.1}GB` of `mb as f64 / 1024.0` for at least a gigabyte, else `{}MB`.
pub open spec fn mb_text(mb: u64) -> Seq<char> {
    if mb >= 1024 {
        tenths_text(round_half_even(nearest_f64(mb as nat) * 10, 1024)) + "GB"@
    } else {
        decimal(mb as nat) + "MB"@
    }
}

/// A size in bytes: `{:.1}GB` of the size in GiB when it is at least one,
/// else `{:.0}MB` of the size in MiB (through `f64`, as above).
pub open spec fn bytes_text(bytes: u64) -> Seq<char> {
    let x = nearest_f64(bytes as nat);
    if x >= 0x4000_0000 {
        tenths_text(round_half_even(x * 10, 0x4000_0000)) + "GB"@
    } else {
        decimal(round_half_even(x, 0x10_0000)) + "MB"@
    }
}

proof fn lemma_round_bounds(t: nat, d: nat)
    requires
        d > 0,
    ensures
        round_half_even(t, d) <= t / d + 1,
        round_half_even(t, d) * d <= t + d,
{
    let q = t / d;
    vstd::arithmetic::div_mod::lemma_fundamental_div_mod(t as int, d as int);
    assert((q + 1) * d == q * d + d) by (nonlinear_arith);
    assert(q * d <= t) by (nonlinear_arith)
        requires t == d * q + t % d, t % d >= 0;
}

fn round_half_even_exec(t: u128, d: u128) -> (r: u128)
    requires
        d > 0,
        t < u128::MAX,
    ensures
        r == round_half_even(t as nat, d as nat),
{
    let q = t / d;
    let r = t % d;
    if (r > d - r) || (r == d - r && q % 2 == 1) { q + 1 } else { q }
}

/// `n as f64`, exactly, as an integer.
fn nearest_f64_exec(n: u64) -> (r: u128)
    ensures
        r == nearest_f64(n as nat),
        r <= 2 * (n as nat) + 1,
{
    let mut m: u64 = n;
    let mut d: u128 = 1;
    let ghost mut k: nat = 0;
    while m >= F64_EXACT_LIMIT
        invariant
            d == two_to(k),
            m as nat == (n as nat) / (d as nat),
            f64_shift(n as nat) == k + f64_shift(m as nat),
            (m as nat) * (d as nat) <= n,
            d >= 1,
            d == 1 || m >= 1,
        decreases m,
    {
        proof {
            vstd::arithmetic::div_mod::lemma_div_denominator(n as int, d as int, 2);
            assert((m as nat) * (d as nat) >= d) by (nonlinear_arith)
                requires m >= 1, d >= 1;
            assert(((m / 2) as nat) * ((d * 2) as nat) <= (m as nat) * (d as nat)) by (nonlinear_arith)
                requires m >= 0, d >= 1;
        }
        m = m / 2;
        d = d * 2;
        proof {
            k = k + 1;
        }
    }
    assert(f64_shift(m as nat) == 0);
    proof {
        lemma_round_bounds(n as nat, d as nat);
    }
    let q = round_half_even_exec(n as u128, d);
    proof {
        assert(d <= (n as nat) + 1) by (nonlinear_arith)
            requires (m as nat) * (d as nat) <= n, d >= 1, m >= 1 || d == 1;
        assert(q * d <= (n as nat) + (d as nat));
    }
    q * d
}

/// Appends `q` tenths written with one decimal.
fn push_tenths(out: &mut Vec<char>, q: u64)
    ensures
        final(out)@ == old(out)@ + tenths_text(q as nat),
{
    push_decimal(out, q / 10);
    out.push('.');
    out.push(digit(q % 10));
    assert(final(out)@ =~= old(out)@ + tenths_text(q as nat));
}

fn append_str(out: &mut Vec<char>, s: &str)
    ensures
        final(out)@ == old(out)@ + s@,
{
    let cs = crate::text::chars_of(s);
    let mut i: usize = 0;
    let ghost start = out@;
    while i < cs.len()
        invariant
            i <= cs@.len(),
            cs@ == s@,
            out@ == start + cs@.take(i as int),
        decreases cs@.len() - i,
    {
        out.push(cs[i]);
        assert(cs@.take(i + 1) =~= cs@.take(i as int).push(cs@[i as int]));
        i = i + 1;
    }
    assert(cs@.take(cs@.len() as int) =~= cs@);
}

/// A memory amount in megabytes, as the status screens print it.
pub fn mb_display(mb: u64) -> (r: String)
    ensures
        r@ == mb_text(mb),
{
    let mut out: Vec<char> = Vec::new();
    if mb >= 1024 {
        let x = nearest_f64_exec(mb);
        let q = round_half_even_exec(x * 10, 1024);
        proof {
            lemma_round_bounds((x * 10) as nat, 1024);
            assert((x * 10) as nat / 1024 <= u64::MAX - 1);
        }
        push_tenths(&mut out, q as u64);
        append_str(&mut out, "GB");
    } else {
        push_decimal(&mut out, mb);
        append_str(&mut out, "MB");
    }
    string_of(out.as_slice())
}

/// A file size in bytes, as the model lists print it.
pub fn bytes_display(bytes: u64) -> (r: String)
    ensures
        r@ == bytes_text(bytes),
{
    let mut out: Vec<char> = Vec::new();
    let x = nearest_f64_exec(bytes);
    if x >= 0x4000_0000 {
        let q = round_half_even_exec(x * 10, 0x4000_0000);
        proof {
            lemma_round_bounds((x * 10) as nat, 0x4000_0000);
        }
        push_tenths(&mut out, q as u64);
        append_str(&mut out, "GB");
    } else {
        let q = round_half_even_exec(x, 0x10_0000);
        proof {
            lemma_round_bounds(x as nat, 0x10_0000);
        }
        push_decimal(&mut out, q as u64);
        append_str(&mut out, "MB");
    }
    string_of(out.as_slice())
}

} // verus!
