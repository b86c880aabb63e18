//! Exact model of how a byte count is shown with one decimal in a binary
//! unit: the count is converted to `f64` (nearest, ties to even), divided
//! by the unit (a power of two, so exactly), and printed with `{:.1}`,
//! which rounds the exact value to tenths, ties to even.
use vstd::prelude::*;
use vstd::arithmetic::power2::{pow2, lemma2_to64, lemma2_to64_rest, lemma_pow2_unfold, lemma_pow2_pos};
use crate::text::{decimal, push_decimal, string_of};

verus! {

pub const KIB: u64 = 1024;
pub const MIB: u64 = 1048576;
pub const GIB: u64 = 1073741824;

/// `n / d` rounded to the nearest integer, ties to the even neighbour.
pub open spec fn round_half_even_div(n: nat, d: nat) -> nat {
    let q = n / d;
    let r = n % d;
    if 2 * r > d || (2 * r == d && q % 2 == 1) {
        q + 1
    } else {
        q
    }
}

/// The number of low bits that an `f64` cannot hold for the integer `b`:
/// the least `k >= start` with `b / 2^k < 2^53`.
pub open spec fn f64_dropped_bits(b: nat, start: nat) -> nat
    decreases 64 - start,
{
    if start >= 64 || b / pow2(start) < pow2(53) {
        start
    } else {
        f64_dropped_bits(b, start + 1)
    }
}

/// The value of `b as f64` for `b < 2^64`: `b` rounded to 53 significant
/// bits, ties to even.
pub open spec fn f64_of(b: nat) -> nat {
    let u = pow2(f64_dropped_bits(b, 0));
    round_half_even_div(b, u) * u
}

/// Tenths of `b / unit` as `{:.1}` prints them for `(b as f64) / (unit as f64)`.
pub open spec fn tenths(b: nat, unit: nat) -> nat {
    round_half_even_div(10 * f64_of(b), unit)
}

/// `{:.1} <label>` for `(b as f64) / (unit as f64)`.
pub open spec fn one_decimal_text(b: nat, unit: nat, label: Seq<char>) -> Seq<char> {
    let t = tenths(b, unit);
    decimal(t / 10) + seq!['.'] + decimal(t % 10) + seq![' '] + label
}

proof fn lemma_unit_small(b: u64, u: nat)
    requires
        u > 0,
        b as nat / u >= pow2(53),
    ensures
        u * 2 <= b,
        u < pow2(11),
{
    lemma2_to64();
    lemma2_to64_rest();
    let q = b as nat / u;
    assert(u * q <= b) by (nonlinear_arith)
        requires q == b as nat / u, u > 0;
    assert(u * pow2(53) <= u * q) by (nonlinear_arith)
        requires q >= pow2(53), u > 0;
    assert(u * 2 <= u * pow2(53)) by (nonlinear_arith)
        requires u > 0, pow2(53) == 0x20000000000000nat;
    assert(u < pow2(11)) by (nonlinear_arith)
        requires u * pow2(53) <= b, b < 0x1_0000_0000_0000_0000nat, pow2(53) == 0x20000000000000nat, pow2(11) == 2048nat;
}

/// `b as f64`, as an exact integer.
pub fn f64_value(b: u64) -> (f: u128)
    ensures
        f == f64_of(b as nat),
        f <= 2 * (b as nat) + 1,
{
    proof {
        lemma2_to64();
        lemma2_to64_rest();
    }
    let mut k: u32 = 0;
    let mut u: u128 = 1;
    while (b as u128) / u >= 9007199254740992u128
        invariant
            u == pow2(k as nat),
            u > 0,
            k <= 11,
            f64_dropped_bits(b as nat, k as nat) == f64_dropped_bits(b as nat, 0),
            pow2(53) == 9007199254740992nat,
            pow2(11) == 2048nat,
        decreases 64 - k,
    {
        proof {
            lemma_pow2_pos(k as nat);
            lemma_unit_small(b, u as nat);
            lemma_pow2_unfold((k + 1) as nat);
            if k as nat > 11 {
                vstd::arithmetic::power2::lemma_pow2_strictly_increases(11, k as nat);
            }
        }
        u = u * 2;
        k = k + 1;
    }
    proof {
        lemma_pow2_pos(k as nat);
    }
    let q: u128 = (b as u128) / u;
    let r: u128 = (b as u128) % u;
    let up: bool = 2 * r > u || (2 * r == u && q % 2 == 1);
    let m: u128 = if up { q + 1 } else { q };
    proof {
        assert(q * u <= b) by (nonlinear_arith)
            requires q == b as nat / (u as nat), u > 0;
        assert(u <= b || k == 0) by {
            if k > 0 {
                lemma_pow2_unfold(k as nat);
            }
        };
        assert((q + 1) * u <= 2 * (b as nat) + 1) by (nonlinear_arith)
            requires q * u <= b, (u <= b || u == 1);
    }
    let f: u128 = m * u;
    f
}

/// Tenths of `(b as f64) / (unit as f64)` as `{:.1}` rounds them.
pub fn tenths_of(b: u64, unit: u64) -> (t: u128)
    requires
        unit > 0,
    ensures
        t == tenths(b as nat, unit as nat),
{
    let f = f64_value(b);
    let n: u128 = 10 * f;
    let d: u128 = unit as u128;
    let q: u128 = n / d;
    let r: u128 = n % d;
    if 2 * r > d || (2 * r == d && q % 2 == 1) {
        q + 1
    } else {
        q
    }
}

/// `format!("{:.1} <label>", (b as f64) / (unit as f64))`.
pub fn one_decimal(b: u64, unit: u64, label: &str) -> (s: String)
    requires
        unit > 0,
    ensures
        s@ == one_decimal_text(b as nat, unit as nat, label@),
{
    let t = tenths_of(b, unit);
    let mut out: Vec<char> = Vec::new();
    push_decimal(t / 10, &mut out);
    out.push('.');
    push_decimal(t % 10, &mut out);
    out.push(' ');
    let lab = crate::text::chars_of(label);
    let mut i: usize = 0;
    let ghost start = out@;
    while i < lab.len()
        invariant
            i <= lab.len(),
            out@ == start + lab@.take(i as int),
        decreases lab.len() - i,
    {
        out.push(lab[i]);
        i = i + 1;
        proof {
            assert(lab@.take(i as int) == lab@.take(i - 1).push(lab@[i - 1]));
        }
    }
    proof {
        assert(lab@.take(lab.len() as int) == lab@);
        assert(decimal((t % 10) as nat) == decimal((tenths(b as nat, unit as nat) % 10)));
    }
    string_of(&out)
}

} // verus!
