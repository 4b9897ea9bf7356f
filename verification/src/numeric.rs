//! Compact human sizes and durations ("1.2 KB", "350.0 ms", "1.40 s").
//!
//! The figures are the binary64 value of the quotient, rounded to the
//! shown number of decimals to the nearest, ties to even, computed here
//! exactly on integers: the nearest binary64 to a rational is found by
//! scaling it into the 53-bit significand range and rounding.

use vstd::prelude::*;
use vstd::arithmetic::power2::{pow2, lemma_pow2_pos};
use crate::text::{chars_of, decimal, digit_char, push_decimal, push_str, string_of};

verus! {

/// `a / b` rounded to the nearest integer, ties to even.
pub open spec fn rne(a: int, b: int) -> int {
    let q = a / b;
    let r = a % b;
    if 2 * r > b || (2 * r == b && q % 2 == 1) {
        q + 1
    } else {
        q
    }
}

/// The smallest `e` from `e0` on at which `p * 2^e` reaches `2^52 * q`:
/// the scale that brings `p / q` into the 53-bit significand range.
pub open spec fn scale_from(p: nat, q: nat, e: nat) -> nat
    decreases 200 - e,
{
    if e >= 200 || p * pow2(e) >= pow2(52) * q {
        e
    } else {
        scale_from(p, q, e + 1)
    }
}

/// The smallest `s` at which `n < 2^(53 + s)`: how many low bits of `n`
/// a 53-bit significand cannot hold.
pub open spec fn excess_bits(n: nat, s: nat) -> nat
    decreases 64 - s,
{
    if s >= 64 || n < pow2(53 + s) {
        s
    } else {
        excess_bits(n, s + 1)
    }
}

/// The binary64 value nearest to the integer `n` (ties to even), which
/// is `n` itself below `2^53`.
pub open spec fn f64_of_int(n: nat) -> nat {
    let s = excess_bits(n, 0);
    (rne(n as int, pow2(s) as int) * pow2(s)) as nat
}

/// `x` (given as `num / 2^e`) rounded to `places` decimals, ties to
/// even, as an integer count of `10^-places`.
pub open spec fn fixed(num: nat, e: nat, scale: nat) -> nat {
    rne((num * scale) as int, pow2(e) as int) as nat
}

/// A count of tenths (or hundredths), written with its decimals.
pub open spec fn fixed_text(t: nat, places: nat) -> Seq<char> {
    if places == 1 {
        decimal(t / 10) + seq!['.', digit_char(t % 10)]
    } else {
        decimal(t / 100) + seq!['.', digit_char((t / 10) % 10), digit_char(t % 10)]
    }
}

fn rne_exec(a: u128, b: u128) -> (r: u128)
    requires
        0 < b < 0x1_0000_0000_0000_0000_0000_0000_0000,
        a < 0x1_0000_0000_0000_0000_0000_0000_0000,
    ensures
        r == rne(a as int, b as int),
{
    let q = a / b;
    let r = a % b;
    assert(q <= a) by (nonlinear_arith)
        requires
            b > 0,
            q == a / b,
    ;
    if 2 * r > b || (2 * r == b && q % 2 == 1) {
        q + 1
    } else {
        q
    }
}

fn pow2_exec(e: u32) -> (r: u128)
    requires
        e < 127,
    ensures
        r == pow2(e as nat),
{
    let mut r: u128 = 1;
    let mut i: u32 = 0;
    proof {
        vstd::arithmetic::power2::lemma2_to64();
    }
    while i < e
        invariant
            i <= e,
            e < 127,
            r == pow2(i as nat),
        decreases e - i,
    {
        proof {
            vstd::arithmetic::power2::lemma_pow2_unfold((i + 1) as nat);
            vstd::arithmetic::power2::lemma_pow2_strictly_increases((i + 1) as nat, 127);
            assert(pow2(127) < 0x1_0000_0000_0000_0000_0000_0000_0000_0000) by {
                vstd::arithmetic::power2::lemma_pow2_unfold(128);
                lemma_pow2_128();
            }
        }
        r = r * 2;
        i = i + 1;
    }
    r
}

proof fn lemma_pow2_128()
    ensures
        pow2(128) == 0x1_0000_0000_0000_0000_0000_0000_0000_0000,
{
    vstd::arithmetic::power2::lemma2_to64();
    vstd::arithmetic::power2::lemma_pow2_adds(64, 64);
}

/// The nearest binary64 value to `n`, as an integer.
fn f64_of_int_exec(n: u64) -> (r: u128)
    ensures
        r == f64_of_int(n as nat),
        r <= 0x1_0000_0000_0000_0800,
{
    let mut s: u32 = 0;
    let mut p: u128 = pow2_exec(53);
    proof {
        vstd::arithmetic::power2::lemma2_to64();
        assert(excess_bits(n as nat, 0) == excess_bits(n as nat, s as nat));
    }
    while s < 64 && (n as u128) >= p
        invariant
            s <= 11,
            p == pow2((53 + s) as nat),
            n < pow2(64),
            excess_bits(n as nat, 0) == excess_bits(n as nat, s as nat),
        decreases 64 - s,
    {
        proof {
            vstd::arithmetic::power2::lemma_pow2_unfold((53 + s + 1) as nat);
            if s >= 11 {
                vstd::arithmetic::power2::lemma_pow2_strictly_increases(64, (53 + s) as nat);
            }
        }
        assert(s < 11);
        s = s + 1;
        p = p * 2;
    }
    proof {
        assert(excess_bits(n as nat, s as nat) == s);
        vstd::arithmetic::power2::lemma_pow2_strictly_increases(s as nat, 12);
    }
    let ps = pow2_exec(s);
    let m = rne_exec(n as u128, ps);
    proof {
        let q = (n as int) / (ps as int);
        assert(q * ps <= n) by (nonlinear_arith)
            requires
                q == (n as int) / (ps as int),
                ps > 0,
                n >= 0,
        ;
        assert(m <= q + 1);
        assert(m * ps <= q * ps + ps) by (nonlinear_arith)
            requires
                m <= q + 1,
                ps > 0,
        ;
    }
    m * ps
}

/// Append a count of tenths (`places == 1`) or hundredths (`places ==
/// 2`) written with its decimals.
fn push_fixed(v: &mut Vec<char>, t: u64, places: u64)
    requires
        places == 1 || places == 2,
    ensures
        final(v)@ == old(v)@ + fixed_text(t as nat, places as nat),
{
    if places == 1 {
        push_decimal(v, t / 10);
        v.push('.');
        v.push(crate::text::digit_exec(t % 10));
    } else {
        push_decimal(v, t / 100);
        v.push('.');
        v.push(crate::text::digit_exec((t / 10) % 10));
        v.push(crate::text::digit_exec(t % 10));
    }
    proof {
        assert(final(v)@ =~= old(v)@ + fixed_text(t as nat, places as nat));
    }
}

/// A byte count as text: bytes below 1 KB, then KB, MB or GB (powers
/// of 1024) with one decimal.
pub open spec fn spec_humanize_bytes(n: nat) -> Seq<char> {
    if n < 1024 {
        decimal(n) + " B"@
    } else if n < pow2(20) {
        fixed_text(fixed(n, 10, 10), 1) + " KB"@
    } else if n < pow2(30) {
        fixed_text(fixed(n, 20, 10), 1) + " MB"@
    } else {
        fixed_text(fixed(f64_of_int(n), 30, 10), 1) + " GB"@
    }
}

/// Compact byte sizing: "512 B", "1.2 KB", "3.4 MB".
pub fn humanize_bytes(n: u64) -> (r: String)
    ensures
        r@ == spec_humanize_bytes(n as nat),
{
    proof {
        vstd::arithmetic::power2::lemma2_to64();
    }
    let mut v: Vec<char> = Vec::new();
    if n < 1024 {
        push_decimal(&mut v, n);
        push_str(&mut v, " B");
        proof {
            assert(v@ =~= spec_humanize_bytes(n as nat));
        }
        return string_of(v.as_slice());
    }
    let (num, e, unit): (u128, u32, &str) = if n < 1048576 {
        (n as u128, 10, " KB")
    } else if n < 1073741824 {
        (n as u128, 20, " MB")
    } else {
        (f64_of_int_exec(n), 30, " GB")
    };
    let pe = pow2_exec(e);
    assert(num <= 0x1_0000_0000_0000_0800);
    let t = rne_exec(num * 10, pe);
    proof {
        assert(t <= num * 10 + 1) by (nonlinear_arith)
            requires
                t == rne((num * 10) as int, pe as int),
                pe >= 1,
        ;
    }
    assert(t < 0x1_0000_0000_0000_0000) by {
        assert(pe >= 1024) by {
            vstd::arithmetic::power2::lemma2_to64();
        }
        let a: int = num * 10;
        let b: int = pe as int;
        assert(t <= a / b + 1) by (nonlinear_arith)
            requires
                t == rne(a, b),
                b >= 1,
        ;
        assert(a / b <= a / 1024) by (nonlinear_arith)
            requires
                b >= 1024,
                a >= 0,
        ;
    }
    push_fixed(&mut v, t as u64, 1);
    push_str(&mut v, unit);
    proof {
        assert(v@ =~= spec_humanize_bytes(n as nat));
    }
    string_of(v.as_slice())
}

/// The binary64 value nearest to `p / q` (for `p >= q`), as a
/// significand `m` and a scale `e`: the value is `m / 2^e`.
pub open spec fn quotient_f64(p: nat, q: nat) -> (nat, nat) {
    let e = scale_from(p, q, 0);
    (rne((p * pow2(e)) as int, q as int) as nat, e)
}

proof fn lemma_rne_bound(a: int, b: int)
    requires
        a >= 0,
        b >= 1,
    ensures
        0 <= rne(a, b) <= a / b + 1,
        a / b * b <= a,
{
    assert(a / b >= 0 && a % b >= 0) by (nonlinear_arith)
        requires
            a >= 0,
            b >= 1,
    ;
    assert(a / b * b <= a) by (nonlinear_arith)
        requires
            a >= 0,
            b >= 1,
    ;
}

fn quotient_f64_exec(p: u128, q: u128) -> (r: (u128, u32))
    requires
        1 <= q <= 1_000_000,
        q <= p <= 0x1_0000_0000_0000_0800,
    ensures
        (r.0 as nat, r.1 as nat) == quotient_f64(p as nat, q as nat),
        r.1 <= 52,
        r.0 <= p * pow2(r.1 as nat) / (q as int) + 1,
        p * pow2(r.1 as nat) <= 0x1_0000_0000_0000_0000_0000_0000,
{
    proof {
        vstd::arithmetic::power2::lemma2_to64();
        vstd::arithmetic::power2::lemma2_to64_rest();
    }
    let target: u128 = pow2_exec(52) * q;
    let mut e: u32 = 0;
    let mut pe: u128 = p;
    proof {
        assert(p * pow2(0) == p);
        assert(pow2(52) * q <= pow2(52) * p) by (nonlinear_arith)
            requires
                q <= p,
        ;
    }
    while pe < target
        invariant
            e <= 52,
            pe == p * pow2(e as nat),
            target == pow2(52) * q,
            pow2(52) * q <= pow2(52) * p,
            pe <= 0x1_0000_0000_0000_0000_0000_0000,
            q <= p <= 0x1_0000_0000_0000_0800,
            1 <= q <= 1_000_000,
            scale_from(p as nat, q as nat, 0) == scale_from(p as nat, q as nat, e as nat),
        decreases 52 - e,
    {
        proof {
            vstd::arithmetic::power2::lemma2_to64();
            vstd::arithmetic::power2::lemma2_to64_rest();
            if e == 52 {
                assert(p * pow2(52) == pow2(52) * p) by (nonlinear_arith);
            }
            vstd::arithmetic::power2::lemma_pow2_unfold((e + 1) as nat);
            assert(p * pow2((e + 1) as nat) == (p * pow2(e as nat)) * 2) by (nonlinear_arith)
                requires
                    pow2((e + 1) as nat) == 2 * pow2(e as nat),
            ;
            assert(pe * 2 <= 0x1_0000_0000_0000_0000_0000_0000) by (nonlinear_arith)
                requires
                    pe < pow2(52) * q,
                    q <= 1_000_000,
                    pow2(52) == 0x10_0000_0000_0000,
            ;
        }
        e = e + 1;
        pe = pe * 2;
    }
    proof {
        assert(scale_from(p as nat, q as nat, e as nat) == e);
    }
    let m = rne_exec(pe, q);
    proof {
        lemma_rne_bound(pe as int, q as int);
    }
    (m, e)
}

/// `s` without its trailing zeros.
pub open spec fn trim_zeros(s: Seq<char>) -> Seq<char>
    decreases s.len(),
{
    if s.len() > 0 && s.last() == '0' {
        trim_zeros(s.drop_last())
    } else {
        s
    }
}

/// A decimal fraction written without trailing zeros, and without its
/// point when nothing is left after it: "350.0" is "350", "1.40" is "1.4".
pub open spec fn trim_fraction(s: Seq<char>) -> Seq<char> {
    let t = trim_zeros(s);
    if t.len() > 0 && t.last() == '.' {
        t.drop_last()
    } else {
        t
    }
}

/// A duration in microseconds as text: "0 µs", "1.2 ms", "350 ms",
/// "1.4 s" — milliseconds to one place and seconds to two, with the
/// trailing zeros of the fraction dropped.
pub open spec fn spec_humanize_us(us: nat) -> Seq<char> {
    if us < 1000 {
        decimal(us) + " µs"@
    } else if us < 1_000_000 {
        let (m, e) = quotient_f64(us, 1000);
        trim_fraction(fixed_text(fixed(m, e, 10), 1)) + " ms"@
    } else {
        let (m, e) = quotient_f64(f64_of_int(us), 1_000_000);
        trim_fraction(fixed_text(fixed(m, e, 100), 2)) + " s"@
    }
}

/// Drop the trailing zeros of a decimal fraction, and its point when
/// nothing is left after it.
fn trim_fraction_in_place(v: &mut Vec<char>)
    ensures
        final(v)@ == trim_fraction(old(v)@),
{
    while v.len() > 0 && v[v.len() - 1] == '0'
        invariant
            trim_zeros(v@) == trim_zeros(old(v)@),
        decreases v.len(),
    {
        let ghost before = v@;
        v.pop();
        proof {
            assert(v@ =~= before.drop_last());
        }
    }
    if v.len() > 0 && v[v.len() - 1] == '.' {
        let ghost before = v@;
        v.pop();
        proof {
            assert(v@ =~= before.drop_last());
        }
    }
}

/// Compact human duration: "0 µs" / "1.2 ms" / "350 ms" / "1.4 s".
pub fn humanize_us(us: u64) -> (r: String)
    ensures
        r@ == spec_humanize_us(us as nat),
{
    let mut v: Vec<char> = Vec::new();
    if us < 1000 {
        push_decimal(&mut v, us);
        push_str(&mut v, " µs");
        proof {
            assert(v@ =~= spec_humanize_us(us as nat));
        }
        return string_of(v.as_slice());
    }
    let (p, q, scale, places, unit): (u128, u128, u128, u64, &str) = if us < 1_000_000 {
        (us as u128, 1000, 10, 1, " ms")
    } else {
        (f64_of_int_exec(us), 1_000_000, 100, 2, " s")
    };
    proof {
        vstd::arithmetic::power2::lemma2_to64();
        if us >= 1_000_000 {
            assert(f64_of_int(us as nat) >= 1_000_000) by {
                lemma_f64_of_int_monotone_floor(us as nat);
            }
        }
    }
    let (m, e) = quotient_f64_exec(p, q);
    let pe = pow2_exec(e);
    proof {
        vstd::arithmetic::power2::lemma2_to64();
        vstd::arithmetic::power2::lemma2_to64_rest();
        vstd::arithmetic::power2::lemma_pow2_pos(e as nat);
        if e < 52 {
            vstd::arithmetic::power2::lemma_pow2_strictly_increases(e as nat, 52);
        }
        lemma_rne_bound((p * pe) as int, q as int);
        assert(m * scale <= 0x1_0000_0000_0000_0000_0000_0000_0000) by (nonlinear_arith)
            requires
                m <= p * pe / (q as int) + 1,
                p * pe <= 0x1_0000_0000_0000_0000_0000_0000,
                q >= 1,
                scale <= 100,
        ;
    }
    let t = rne_exec(m * scale, pe);
    proof {
        lemma_rne_bound((m * scale) as int, pe as int);
        assert(t < 0x1_0000_0000_0000_0000) by (nonlinear_arith)
            requires
                t <= m * scale / (pe as int) + 1,
                m <= p * pe / (q as int) + 1,
                pe >= 1,
                q >= 1000,
                scale <= 100,
                q == 1000 ==> scale == 10 && p < 1_000_000,
                q != 1000 ==> q == 1_000_000 && p <= 0x1_0000_0000_0000_0800,
        ;
    }
    push_fixed(&mut v, t as u64, places);
    let ghost num = v@;
    trim_fraction_in_place(&mut v);
    let ghost trimmed = v@;
    push_str(&mut v, unit);
    proof {
        assert(v@ =~= trimmed + unit@);
        assert(v@ =~= spec_humanize_us(us as nat));
    }
    string_of(v.as_slice())
}

proof fn lemma_excess_le(n: nat, s: nat)
    requires
        s <= 11,
        n < pow2(64),
    ensures
        excess_bits(n, s) <= 11,
    decreases 11 - s,
{
    if !(n < pow2(53 + s)) {
        if s == 11 {
            assert(false);
        } else {
            lemma_excess_le(n, s + 1);
        }
    }
}

/// Rounding an integer of at least a million to binary64 keeps it at
/// least a million.
proof fn lemma_f64_of_int_monotone_floor(n: nat)
    requires
        1_000_000 <= n < pow2(64),
    ensures
        f64_of_int(n) >= 1_000_000,
{
    vstd::arithmetic::power2::lemma2_to64();
    lemma_excess_le(n, 0);
    let s = excess_bits(n, 0);
    let b = pow2(s);
    vstd::arithmetic::power2::lemma_pow2_pos(s);
    if s < 11 {
        vstd::arithmetic::power2::lemma_pow2_strictly_increases(s, 11);
    }
    lemma_rne_bound(n as int, b as int);
    assert(rne(n as int, b as int) >= (n as int) / (b as int));
    assert((n as int) / (b as int) * (b as int) >= n - b) by (nonlinear_arith)
        requires
            b >= 1,
            n >= 0,
    ;
    assert(rne(n as int, b as int) * b >= (n as int) / (b as int) * (b as int)) by (nonlinear_arith)
        requires
            rne(n as int, b as int) >= (n as int) / (b as int),
            b >= 1,
    ;
    if s == 0 {
        assert(b == 1);
        assert((n as int) / 1 == n);
    } else {
        assert(!(n < pow2(53)));
        vstd::arithmetic::power2::lemma2_to64_rest();
    }
}

} // verus!
