//! Division of a 256-bit value by a 128-bit divisor, two ways: by shifting,
//! when the divisor is a power of two, and by binary long division.
//!
//! Both return the full 256-bit quotient together with the remainder, so
//! that rounding up and narrowing are left to the caller.

use vstd::arithmetic::div_mod::{lemma_basic_div, lemma_fundamental_div_mod_converse};
use vstd::arithmetic::power2::{
    lemma2_to64,
    lemma_pow2_adds,
    lemma_pow2_pos,
    lemma_pow2_strictly_increases,
    lemma_pow2_unfold,
    pow2,
};
use vstd::bits::{lemma_u64_low_bits_mask_is_mod, lemma_u64_shl_is_mul, lemma_u64_shr_is_div};
use vstd::prelude::*;

use crate::error::DivideByZero;
use crate::fixed_point::Q64;
use crate::limbs::{join_limbs, limb_base};
use crate::wide_int::{lemma_limbs_determined, WideInt256};

verus! {

/// Whether `d` is `2^k` for some `k`.
pub open spec fn is_power_of_two(d: nat) -> bool {
    exists|k: nat| d == pow2(k)
}

/// `2^128`, one more than the largest divisor.
proof fn lemma_pow2_128()
    ensures
        pow2(64) == 0x1_0000_0000_0000_0000,
        pow2(128) == 0x1_0000_0000_0000_0000_0000_0000_0000_0000,
{
    lemma2_to64();
    lemma_pow2_adds(64, 64);
}

/// `1 << k` is `2^k`.
proof fn lemma_shl_one_is_pow2(k: u32)
    requires
        k < 128,
    ensures
        (1u128 << k) == pow2(k as nat),
    decreases k,
{
    if k == 0 {
        assert(1u128 << 0u32 == 1) by (bit_vector);
        lemma2_to64();
    } else {
        let j: u32 = (k - 1) as u32;
        lemma_shl_one_is_pow2(j);
        assert((1u128 << k) == 2 * (1u128 << j)) by (bit_vector)
            requires
                0 < k < 128,
                j == k - 1,
        ;
        lemma_pow2_unfold(k as nat);
    }
}

/// A value that shares a bit with its predecessor is no power of two.
proof fn lemma_two_bits_is_no_power(d: u128)
    requires
        d != 0,
        d & ((d - 1) as u128) != 0,
    ensures
        !is_power_of_two(d as nat),
{
    assert forall|e: nat| d != pow2(e) by {
        if e < 128 {
            let k: u32 = e as u32;
            lemma_shl_one_is_pow2(k);
            let p: u128 = 1u128 << k;
            assert(p & ((p - 1) as u128) == 0) by (bit_vector)
                requires
                    k < 128,
                    p == 1u128 << k,
            ;
        } else {
            lemma_pow2_128();
            if e > 128 {
                lemma_pow2_strictly_increases(128, e);
            }
        }
    }
}

/// The exponent of a power of two: `Some(k)` exactly when `d == 2^k`.
pub fn power_of_two_exponent(d: u128) -> (r: Option<u32>)
    ensures
        match r {
            Some(k) => k < 128 && d == pow2(k as nat),
            None => !is_power_of_two(d as nat),
        },
{
    proof {
        lemma_pow2_128();
        lemma2_to64();
    }
    if d == Q64 {
        return Some(64);
    }
    if d == 0 {
        proof {
            assert forall|e: nat| d != pow2(e) by {
                lemma_pow2_pos(e);
            }
        }
        return None;
    }
    if d & (d - 1) != 0 {
        proof {
            lemma_two_bits_is_no_power(d);
        }
        return None;
    }
    let mut k: u32 = 0;
    let mut p: u128 = 1;
    loop
        invariant
            k < 128,
            p == pow2(k as nat),
            forall|e: nat| e < k ==> d != pow2(e),
        decreases 128 - k,
    {
        if p == d {
            return Some(k);
        }
        if p > d || k == 127 {
            proof {
                assert forall|e: nat| d != pow2(e) by {
                    if e > k {
                        lemma_pow2_strictly_increases(k as nat, e);
                        if k == 127 {
                            lemma_pow2_128();
                            if e > 128 {
                                lemma_pow2_strictly_increases(128, e);
                            }
                        }
                    }
                }
            }
            return None;
        }
        proof {
            lemma_pow2_unfold((k + 1) as nat);
            lemma_pow2_strictly_increases(k as nat, 127);
            lemma_pow2_unfold(128);
            lemma_pow2_128();
        }
        p = p + p;
        k = k + 1;
    }
}

/// Bit `j` of `x`, together with how it extends the bits above it.
fn bit_at(x: u64, j: u32) -> (b: u64)
    requires
        j < 64,
    ensures
        b <= 1,
        j < 63 ==> (x >> j) == 2 * (x >> ((j + 1) as u32)) + b,
        j == 63 ==> (x >> j) == b,
{
    assert(((x >> j) & 1) <= 1) by (bit_vector);
    if j < 63 {
        let j1: u32 = j + 1;
        assert((x >> j) == 2 * (x >> j1) + ((x >> j) & 1)) by (bit_vector)
            requires
                j < 63,
                j1 == j + 1,
        ;
    } else {
        assert((x >> j) == ((x >> j) & 1)) by (bit_vector)
            requires
                j == 63,
        ;
    }
    (x >> j) & 1
}

/// One limb of long division: divides `rem * 2^64 + limb` by `d`, one bit of
/// `limb` at a time from the top. The running remainder stays below `d`, so
/// it never needs more than 128 bits.
fn div_step(rem: u128, limb: u64, d: u128) -> (out: (u64, u128))
    requires
        rem < d,
    ensures
        rem * limb_base() + limb == out.0 * d + out.1,
        out.1 < d,
{
    let mut q: u64 = 0;
    let mut r: u128 = rem;
    let mut i: u32 = 64;
    let ghost mut p: nat = 1;
    let ghost mut top: nat = 0;
    proof {
        lemma2_to64();
        assert(0 * d == 0) by (nonlinear_arith);
        assert(rem * 1 == rem) by (nonlinear_arith);
    }
    while i > 0
        invariant
            i <= 64,
            rem < d,
            r < d,
            p == pow2((64 - i) as nat),
            q < p,
            top == (if i == 64 {
                0nat
            } else {
                (limb >> i) as nat
            }),
            rem * p + top == q * d + r,
        decreases i,
    {
        let j: u32 = i - 1;
        let bit = bit_at(limb, j);
        let gap: u128 = d - r;
        let ghost q0 = q;
        proof {
            lemma_pow2_unfold((64 - j) as nat);
            if j > 0 {
                lemma_pow2_strictly_increases((64 - j) as nat, 64);
            }
            lemma2_to64();
            assert(2 * p <= 0x1_0000_0000_0000_0000);
        }
        let q_bit: u64;
        if r >= gap {
            // 2r + bit >= d, and what is left after taking d away is below d
            r = r - gap + (bit as u128);
            q_bit = 1;
        } else if bit == 1 && r + 1 == gap {
            // 2r + 1 == d
            r = 0;
            q_bit = 1;
        } else {
            r = r + r + (bit as u128);
            q_bit = 0;
        }
        q = q * 2 + q_bit;
        proof {
            let top1: nat = (limb >> j) as nat;
            assert(top1 == 2 * top + bit);
            assert(rem * (2 * p) == 2 * (rem * p)) by (nonlinear_arith);
            assert((2 * q0 + q_bit) * d == 2 * (q0 * d) + q_bit * d) by (nonlinear_arith);
            assert(q_bit * d == if q_bit == 1 {
                d as int
            } else {
                0
            }) by (nonlinear_arith)
                requires
                    q_bit == 0 || q_bit == 1,
            ;
            p = 2 * p;
            top = top1;
        }
        i = j;
    }
    proof {
        lemma2_to64();
        assert(limb >> 0u32 == limb) by (bit_vector);
    }
    (q, r)
}

/// A value with its lowest limb split off, times `d`.
proof fn lemma_shifted_times(low: int, rest: int, d: int)
    ensures
        (low + rest * limb_base()) * d == low * d + (rest * d) * limb_base(),
{
    let b = limb_base() as int;
    assert((low + rest * b) * d == low * d + (rest * d) * b) by (nonlinear_arith);
}

/// Four division steps chained: the quotient limbs times `d`, plus the last
/// remainder, give back the dividend.
proof fn lemma_long_division_chain(
    n: WideInt256,
    d: int,
    q: WideInt256,
    r3: int,
    r2: int,
    r1: int,
    r0: int,
)
    requires
        n.0[3] == q.0[3] * d + r3,
        r3 * limb_base() + n.0[2] == q.0[2] * d + r2,
        r2 * limb_base() + n.0[1] == q.0[1] * d + r1,
        r1 * limb_base() + n.0[0] == q.0[0] * d + r0,
    ensures
        n@ == q@ * d + r0,
{
    let b = limb_base() as int;
    let top2 = q.0[2] + q.0[3] * b;
    let top3 = q.0[1] + top2 * b;
    let all = q.0[0] + top3 * b;
    lemma_shifted_times(q.0[2] as int, q.0[3] as int, d);
    lemma_shifted_times(q.0[1] as int, top2, d);
    lemma_shifted_times(q.0[0] as int, top3, d);
    assert(q@ == all);
}

/// Binary long division of `n` by any non-zero `denom`: the quotient and the
/// remainder.
pub fn div_rem_long(n: &WideInt256, denom: u128) -> (out: (WideInt256, u128))
    requires
        denom != 0,
    ensures
        out.0@ == n@ / (denom as nat),
        out.1 == n@ % (denom as nat),
{
    let (q3, r3) = div_step(0, n.0[3], denom);
    let (q2, r2) = div_step(r3, n.0[2], denom);
    let (q1, r1) = div_step(r2, n.0[1], denom);
    let (q0, r0) = div_step(r1, n.0[0], denom);
    let q = WideInt256([q0, q1, q2, q3]);
    proof {
        assert(0 * limb_base() == 0);
        lemma_long_division_chain(*n, denom as int, q, r3 as int, r2 as int, r1 as int, r0 as int);
        lemma_fundamental_div_mod_converse(n@ as int, denom as int, q@ as int, r0 as int);
    }
    (q, r0)
}

/// `2^s` as a limb.
fn limb_pow2(s: u64) -> (p: u64)
    requires
        s < 64,
    ensures
        p == pow2(s as nat),
        p > 0,
{
    proof {
        lemma_pow2_pos(s as nat);
        lemma_pow2_strictly_increases(s as nat, 64);
        lemma2_to64();
        assert(1 * pow2(s as nat) == pow2(s as nat)) by (nonlinear_arith);
        lemma_u64_shl_is_mul(1, s);
    }
    1u64 << s
}

/// `l * b <= p * b - b` for `l < p`: the room a shifted-in piece needs.
proof fn lemma_scaled_below(l: int, p: int, b: int)
    requires
        0 <= l < p,
        0 <= b,
    ensures
        0 <= l * b <= p * b - b,
{
    assert(0 <= l * b <= p * b - b) by (nonlinear_arith)
        requires
            0 <= l <= p - 1,
            0 <= b,
    ;
}

/// Splits `x` at bit `s`: the bits from `s` up, and the bits below `s`.
fn split_at_bit(x: u64, s: u64) -> (parts: (u64, u64))
    requires
        0 < s < 64,
    ensures
        x == parts.0 * pow2(s as nat) + parts.1,
        parts.1 < pow2(s as nat),
        parts.0 < pow2((64 - s) as nat),
{
    let p = limb_pow2(s);
    proof {
        lemma_u64_shr_is_div(x, s);
        lemma_u64_low_bits_mask_is_mod(x, s as nat);
        assert(x == (x / p) * p + x % p) by (nonlinear_arith)
            requires
                p > 0,
        ;
        lemma_pow2_adds(s as nat, (64 - s) as nat);
        lemma2_to64();
        let r = pow2((64 - s) as nat);
        assert(x / p < r) by (nonlinear_arith)
            requires
                p > 0,
                x < p * r,
        ;
    }
    (x >> s, x & (p - 1))
}

/// The limb made of the upper bits `high` of one limb and, above them, the
/// lower bits `low_next` of the limb after it.
fn splice(high: u64, low_next: u64, s: u64) -> (out: u64)
    requires
        0 < s < 64,
        high < pow2((64 - s) as nat),
        low_next < pow2(s as nat),
    ensures
        out == high + low_next * pow2((64 - s) as nat),
{
    let t: u64 = 64 - s;
    proof {
        lemma_pow2_adds(s as nat, t as nat);
        lemma2_to64();
        lemma_pow2_pos(t as nat);
        lemma_scaled_below(low_next as int, pow2(s as nat) as int, pow2(t as nat) as int);
        lemma_u64_shl_is_mul(low_next, t);
        lemma_u64_shr_is_div(high, t);
        lemma_basic_div(high as int, pow2(t as nat) as int);
        assert((high | (low_next << t)) == high + (low_next << t)) by (bit_vector)
            requires
                0 < t < 64,
                high >> t == 0,
        ;
    }
    high | (low_next << t)
}

/// A spliced limb times `2^s`: the piece shifted in from the next limb
/// becomes a whole multiple of the limb base.
proof fn lemma_splice_times(h: int, l: int, p: int, r: int)
    requires
        p * r == limb_base(),
    ensures
        (h + l * r) * p == h * p + l * limb_base(),
{
    assert((h + l * r) * p == h * p + l * (p * r)) by (nonlinear_arith);
}

/// Shifts a 256-bit value right by `s` bits, `s < 64`: the bits that stay,
/// and the `s` bits that fall off the low end.
fn shift_right_bits(m: &WideInt256, s: u64) -> (out: (WideInt256, u64))
    requires
        s < 64,
    ensures
        m@ == out.0@ * pow2(s as nat) + out.1,
        out.1 < pow2(s as nat),
{
    if s == 0 {
        proof {
            lemma2_to64();
        }
        return (*m, 0);
    }
    let (h0, l0) = split_at_bit(m.0[0], s);
    let (h1, l1) = split_at_bit(m.0[1], s);
    let (h2, l2) = split_at_bit(m.0[2], s);
    let (h3, l3) = split_at_bit(m.0[3], s);
    let o0 = splice(h0, l1, s);
    let o1 = splice(h1, l2, s);
    let o2 = splice(h2, l3, s);
    let q = WideInt256([o0, o1, o2, h3]);
    proof {
        let p = pow2(s as nat) as int;
        let r = pow2((64 - s) as nat) as int;
        let b = limb_base() as int;
        lemma_pow2_adds(s as nat, (64 - s) as nat);
        lemma2_to64();
        lemma_splice_times(h0 as int, l1 as int, p, r);
        lemma_splice_times(h1 as int, l2 as int, p, r);
        lemma_splice_times(h2 as int, l3 as int, p, r);
        let top2 = o2 + h3 * b;
        let top3 = o1 + top2 * b;
        let all = o0 + top3 * b;
        lemma_shifted_times(o2 as int, h3 as int, p);
        lemma_shifted_times(o1 as int, top2, p);
        lemma_shifted_times(o0 as int, top3, p);
        assert(q@ == all);
        assert(m@ == all * p + l0);
    }
    (q, l0)
}

/// Division by `2^exp` as a shift: whole limbs first, then the bits that are
/// left. Returns the quotient and the remainder.
pub fn div_rem_by_shift(n: &WideInt256, exp: u32) -> (out: (WideInt256, u128))
    requires
        exp < 128,
    ensures
        out.0@ == n@ / pow2(exp as nat),
        out.1 == n@ % pow2(exp as nat),
{
    if exp < 64 {
        let (q, low) = shift_right_bits(n, exp as u64);
        proof {
            lemma_pow2_pos(exp as nat);
            lemma_fundamental_div_mod_converse(
                n@ as int,
                pow2(exp as nat) as int,
                q@ as int,
                low as int,
            );
        }
        (q, low as u128)
    } else {
        let s: u64 = (exp - 64) as u64;
        let m = WideInt256([n.0[1], n.0[2], n.0[3], 0]);
        let (q, low) = shift_right_bits(&m, s);
        let rem = join_limbs(n.0[0], low);
        proof {
            let p = pow2(s as nat) as int;
            let b = limb_base() as int;
            lemma2_to64();
            lemma_pow2_adds(s as nat, 64);
            lemma_pow2_pos(exp as nat);
            assert(n@ == n.0[0] + m@ * b);
            assert((q@ * p + low) * b == q@ * (p * b) + low * b) by (nonlinear_arith);
            lemma_scaled_below(low as int, p, b);
            lemma_fundamental_div_mod_converse(
                n@ as int,
                pow2(exp as nat) as int,
                q@ as int,
                rem as int,
            );
        }
        (q, rem)
    }
}

/// The quotient rounded up: one more than the floor when something is left
/// over.
pub open spec fn ceil_quotient(n: nat, d: nat) -> nat {
    if n % d == 0 {
        n / d
    } else {
        n / d + 1
    }
}

/// Quotient and remainder of `n` by `denom`. A power-of-two divisor takes
/// the shift path, any other non-zero divisor long division; zero is refused.
pub fn div_rem(n: &WideInt256, denom: u128) -> (r: Result<(WideInt256, u128), DivideByZero>)
    ensures
        r is Err <==> denom == 0,
        r matches Ok(out) ==> out.0@ == n@ / (denom as nat) && out.1 == n@ % (denom as nat),
{
    if denom == 0 {
        return Err(DivideByZero);
    }
    match power_of_two_exponent(denom) {
        Some(exp) => Ok(div_rem_by_shift(n, exp)),
        None => Ok(div_rem_long(n, denom)),
    }
}

/// `n / denom`, rounded down, at full width.
pub fn div_floor(n: &WideInt256, denom: u128) -> (r: Result<WideInt256, DivideByZero>)
    ensures
        r is Err <==> denom == 0,
        r matches Ok(q) ==> q@ == n@ / (denom as nat),
{
    match div_rem(n, denom) {
        Ok((q, _)) => Ok(q),
        Err(e) => Err(e),
    }
}

/// `q + 1`, where that still fits in 256 bits.
fn increment(q: &WideInt256) -> (r: WideInt256)
    requires
        q@ + 1 < limb_base() * limb_base() * limb_base() * limb_base(),
    ensures
        r@ == q@ + 1,
{
    if q.0[0] < u64::MAX {
        WideInt256([q.0[0] + 1, q.0[1], q.0[2], q.0[3]])
    } else if q.0[1] < u64::MAX {
        WideInt256([0, q.0[1] + 1, q.0[2], q.0[3]])
    } else if q.0[2] < u64::MAX {
        WideInt256([0, 0, q.0[2] + 1, q.0[3]])
    } else {
        WideInt256([0, 0, 0, q.0[3] + 1])
    }
}

/// `n / denom`, rounded up, at full width: the floor, and one more when the
/// remainder is not zero.
pub fn div_ceil(n: &WideInt256, denom: u128) -> (r: Result<WideInt256, DivideByZero>)
    ensures
        r is Err <==> denom == 0,
        r matches Ok(q) ==> q@ == ceil_quotient(n@, denom as nat),
{
    match div_rem(n, denom) {
        Ok((q, rem)) => {
            if rem == 0 {
                Ok(q)
            } else {
                proof {
                    let d = denom as int;
                    assert(n@ == d * (n@ as int / d) + n@ as int % d) by (nonlinear_arith)
                        requires
                            d > 0,
                    ;
                    assert(q@ <= d * q@) by (nonlinear_arith)
                        requires
                            d >= 1,
                    ;
                }
                Ok(increment(&q))
            }
        },
        Err(e) => Err(e),
    }
}

/// On a power-of-two divisor the shift path and long division agree limb
/// for limb: whatever [`div_rem_by_shift`] returns for the exponent is what
/// [`div_rem_long`] returns for the divisor.
pub proof fn lemma_shift_agrees_with_long_division(
    n: WideInt256,
    denom: u128,
    exp: u32,
    by_shift: (WideInt256, u128),
    by_long: (WideInt256, u128),
)
    requires
        exp < 128,
        denom == pow2(exp as nat),
        by_shift.0@ == n@ / pow2(exp as nat),
        by_shift.1 == n@ % pow2(exp as nat),
        by_long.0@ == n@ / (denom as nat),
        by_long.1 == n@ % (denom as nat),
    ensures
        by_shift == by_long,
{
    lemma_limbs_determined(by_shift.0, by_long.0);
}

} // verus!
