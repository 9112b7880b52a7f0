//! Fixed-width unsigned integers held as little-endian 64-bit limbs.
//!
//! Two widths exist: 128 bits, the width of every stored quantity, and
//! 256 bits, the width of a product of two such quantities. Nothing here
//! computes; the module fixes the representation and what it stands for.

use std::cmp::Ordering;
use vstd::arithmetic::div_mod::lemma_fundamental_div_mod_converse;
use vstd::prelude::*;

use crate::limbs::{high_limb, join_limbs, limb_base, low_limb};

verus! {

/// A 128-bit unsigned integer as two limbs `[low, high]`.
#[derive(Debug, Clone, Copy, PartialEq, Eq)]
pub struct WideInt128(pub [u64; 2]);

/// A 256-bit unsigned integer as four limbs, least significant first.
#[derive(Debug, Clone, Copy, PartialEq, Eq)]
pub struct WideInt256(pub [u64; 4]);

impl View for WideInt128 {
    type V = nat;

    /// The number the limbs stand for: `low + high * 2^64`.
    open spec fn view(&self) -> nat {
        (self.0[0] as nat) + (self.0[1] as nat) * limb_base()
    }
}

impl View for WideInt256 {
    type V = nat;

    /// The number the limbs stand for: the sum of `limb[i] * 2^(64 i)`.
    open spec fn view(&self) -> nat {
        (self.0[0] as nat) + (self.0[1] as nat) * limb_base() + (self.0[2] as nat) * limb_base()
            * limb_base() + (self.0[3] as nat) * limb_base() * limb_base() * limb_base()
    }
}

/// The limbs of a native 128-bit value.
pub open spec fn wide_from_native(val: u128) -> WideInt128 {
    WideInt128([(val % 0x1_0000_0000_0000_0000) as u64, (val / 0x1_0000_0000_0000_0000) as u64])
}

/// Splits a native 128-bit value into its two limbs.
pub fn u128_to_u128_struct(val: u128) -> (r: WideInt128)
    ensures
        r == wide_from_native(val),
        r@ == val,
{
    let r = WideInt128([low_limb(val), high_limb(val)]);
    assert(r.0 =~= wide_from_native(val).0);
    r
}

/// Widens a 64-bit value: the high limb is zero.
pub fn u64_to_u128_struct(val: u64) -> (r: WideInt128)
    ensures
        r.0[0] == val,
        r.0[1] == 0,
        r@ == val,
{
    WideInt128([val, 0])
}

/// The native value of two limbs.
pub fn u128_struct_to_u128(val: &WideInt128) -> (r: u128)
    ensures
        r == val@,
{
    join_limbs(val.0[0], val.0[1])
}

/// Compares two 128-bit values by the numbers they stand for.
pub fn compare_u128_structs(a: &WideInt128, b: &WideInt128) -> (o: Ordering)
    ensures
        a@ < b@ <==> o == Ordering::Less,
        a@ == b@ <==> o == Ordering::Equal,
        a@ > b@ <==> o == Ordering::Greater,
{
    u128_struct_to_u128(a).cmp(&u128_struct_to_u128(b))
}

/// A value and its limbs determine each other: splitting a native value and
/// reading the limbs back gives the value, and splitting what two limbs
/// stand for gives those limbs.
pub proof fn lemma_wide_round_trip(val: u128, limbs: WideInt128)
    ensures
        wide_from_native(val)@ == val,
        limbs@ <= u128::MAX,
        wide_from_native(limbs@ as u128) == limbs,
{
    assert(wide_from_native(limbs@ as u128).0 =~= limbs.0);
}

/// Two 256-bit values that stand for the same number have the same limbs.
pub proof fn lemma_limbs_determined(a: WideInt256, b: WideInt256)
    requires
        a@ == b@,
    ensures
        a == b,
{
    let base = limb_base() as int;
    let rest_a = a.0[1] + a.0[2] * base + a.0[3] * base * base;
    let rest_b = b.0[1] + b.0[2] * base + b.0[3] * base * base;
    lemma_fundamental_div_mod_converse(a@ as int, base, rest_a, a.0[0] as int);
    lemma_fundamental_div_mod_converse(b@ as int, base, rest_b, b.0[0] as int);
    let top_a = a.0[2] + a.0[3] * base;
    let top_b = b.0[2] + b.0[3] * base;
    lemma_fundamental_div_mod_converse(rest_a, base, top_a, a.0[1] as int);
    lemma_fundamental_div_mod_converse(rest_b, base, top_b, b.0[1] as int);
    lemma_fundamental_div_mod_converse(top_a, base, a.0[3] as int, a.0[2] as int);
    lemma_fundamental_div_mod_converse(top_b, base, b.0[3] as int, b.0[2] as int);
    assert(a.0 =~= b.0);
}

} // verus!
