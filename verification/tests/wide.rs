use std::cmp::Ordering;

use clmm_fees::error::{CoreError, DivideByZero, Overflow};
use clmm_fees::narrowing::{narrow_checked_u128, narrow_checked_u64, to_underflow_u64_poc};
use clmm_fees::wide_int::{
    compare_u128_structs, u128_struct_to_u128, u128_to_u128_struct, u64_to_u128_struct,
    WideInt128, WideInt256,
};

const SAMPLES: [u128; 9] = [
    0,
    1,
    0xffff_ffff_ffff_ffff,
    0x1_0000_0000_0000_0000,
    0x1_0000_0000_0000_0001,
    0x0123_4567_89ab_cdef_fedc_ba98_7654_3210,
    0x8000_0000_0000_0000_0000_0000_0000_0000,
    0xffff_ffff_ffff_ffff_0000_0000_0000_0000,
    u128::MAX,
];

#[test]
fn splitting_puts_the_low_half_first() {
    assert_eq!(
        u128_to_u128_struct(0x0123_4567_89ab_cdef_fedc_ba98_7654_3210),
        WideInt128([0xfedc_ba98_7654_3210, 0x0123_4567_89ab_cdef])
    );
    assert_eq!(u128_to_u128_struct(0), WideInt128([0, 0]));
    assert_eq!(u128_to_u128_struct(u128::MAX), WideInt128([u64::MAX, u64::MAX]));
    assert_eq!(u128_to_u128_struct(1u128 << 64), WideInt128([0, 1]));
}

#[test]
fn native_to_wide_and_back_is_the_identity() {
    for v in SAMPLES {
        assert_eq!(u128_struct_to_u128(&u128_to_u128_struct(v)), v);
    }
}

#[test]
fn wide_to_native_and_back_is_the_identity() {
    let limbs: [[u64; 2]; 5] =
        [[0, 0], [u64::MAX, 0], [0, u64::MAX], [u64::MAX, u64::MAX], [7, 9]];
    for pair in limbs {
        let w = WideInt128(pair);
        assert_eq!(u128_to_u128_struct(u128_struct_to_u128(&w)), w);
    }
}

#[test]
fn joining_limbs_weighs_the_high_limb_by_two_to_the_64() {
    assert_eq!(u128_struct_to_u128(&WideInt128([5, 3])), 5 + 3 * (1u128 << 64));
    assert_eq!(u128_struct_to_u128(&WideInt128([0, 1])), 1u128 << 64);
}

#[test]
fn widening_a_u64_leaves_the_high_limb_zero() {
    assert_eq!(u64_to_u128_struct(0), WideInt128([0, 0]));
    assert_eq!(u64_to_u128_struct(42), WideInt128([42, 0]));
    assert_eq!(u64_to_u128_struct(u64::MAX), WideInt128([u64::MAX, 0]));
    assert_eq!(u128_struct_to_u128(&u64_to_u128_struct(u64::MAX)), u64::MAX as u128);
}

#[test]
fn comparison_follows_the_numbers() {
    for a in SAMPLES {
        for b in SAMPLES {
            let got: Ordering = compare_u128_structs(&u128_to_u128_struct(a), &u128_to_u128_struct(b));
            assert_eq!(got, a.cmp(&b));
        }
    }
}

#[test]
fn comparison_lets_the_high_limb_decide() {
    let small_high = WideInt128([u64::MAX, 1]);
    let large_high = WideInt128([0, 2]);
    assert_eq!(compare_u128_structs(&small_high, &large_high), Ordering::Less);
    assert_eq!(compare_u128_structs(&large_high, &small_high), Ordering::Greater);
    assert_eq!(compare_u128_structs(&large_high, &large_high), Ordering::Equal);
}

#[test]
fn narrowing_to_64_bits_has_its_boundary_at_two_to_the_64() {
    assert_eq!(narrow_checked_u64((1u128 << 64) - 1), Ok(u64::MAX));
    assert_eq!(narrow_checked_u64(1u128 << 64), Err(Overflow));
}

#[test]
fn narrowing_to_64_bits_keeps_what_fits() {
    assert_eq!(narrow_checked_u64(0), Ok(0));
    assert_eq!(narrow_checked_u64(1), Ok(1));
    assert_eq!(narrow_checked_u64(0x1234_5678_9abc_def0), Ok(0x1234_5678_9abc_def0));
}

#[test]
fn narrowing_to_64_bits_never_wraps() {
    // each of these has low 64 bits that would pass for a small value
    assert_eq!(narrow_checked_u64((1u128 << 64) + 5), Err(Overflow));
    assert_eq!(narrow_checked_u64(1u128 << 127), Err(Overflow));
    assert_eq!(narrow_checked_u64(u128::MAX), Err(Overflow));
}

#[test]
fn narrowing_to_128_bits_has_its_boundary_at_two_to_the_128() {
    assert_eq!(narrow_checked_u128(&WideInt256([u64::MAX, u64::MAX, 0, 0])), Ok(u128::MAX));
    assert_eq!(narrow_checked_u128(&WideInt256([0, 0, 1, 0])), Err(Overflow));
    assert_eq!(narrow_checked_u128(&WideInt256([0, 0, 0, 1])), Err(Overflow));
    assert_eq!(narrow_checked_u128(&WideInt256([3, 4, 0, 0])), Ok(3 + 4 * (1u128 << 64)));
    assert_eq!(narrow_checked_u128(&WideInt256([0, 0, 0, 0])), Ok(0));
}

#[test]
fn narrowing_limbs_keeps_what_fits() {
    assert_eq!(to_underflow_u64_poc(&WideInt128([0, 0])), Ok(0));
    assert_eq!(to_underflow_u64_poc(&WideInt128([17, 0])), Ok(17));
    assert_eq!(to_underflow_u64_poc(&WideInt128([u64::MAX - 1, 0])), Ok(u64::MAX - 1));
}

#[test]
fn narrowing_limbs_has_its_boundary_at_two_to_the_64() {
    assert_eq!(to_underflow_u64_poc(&WideInt128([u64::MAX, 0])), Ok(u64::MAX));
    assert_eq!(to_underflow_u64_poc(&WideInt128([0, 1])), Err(Overflow));
}

#[test]
fn narrowing_limbs_never_returns_the_low_limb_of_a_wider_value() {
    assert_eq!(to_underflow_u64_poc(&WideInt128([5, 1])), Err(Overflow));
    assert_eq!(to_underflow_u64_poc(&WideInt128([0, u64::MAX])), Err(Overflow));
    assert_eq!(to_underflow_u64_poc(&WideInt128([u64::MAX, u64::MAX])), Err(Overflow));
}

#[test]
fn a_narrowed_zero_stands_for_zero_alone() {
    for v in SAMPLES {
        if to_underflow_u64_poc(&u128_to_u128_struct(v)) == Ok(0) {
            assert_eq!(v, 0);
        }
    }
}

#[test]
fn widening_what_was_narrowed_gives_the_value_back() {
    for v in SAMPLES {
        let wide: WideInt128 = u128_to_u128_struct(v);
        match to_underflow_u64_poc(&wide) {
            Ok(x) => assert_eq!(u64_to_u128_struct(x), wide),
            Err(e) => {
                assert_eq!(e, Overflow);
                assert!(v > u64::MAX as u128);
            }
        }
    }
}

#[test]
fn narrowing_limbs_and_narrowing_the_native_value_agree() {
    for v in SAMPLES {
        assert_eq!(to_underflow_u64_poc(&u128_to_u128_struct(v)), narrow_checked_u64(v));
    }
}

#[test]
fn each_error_converts_to_its_variant() {
    assert_eq!(CoreError::from(DivideByZero), CoreError::DivideByZero);
    assert_eq!(CoreError::from(Overflow), CoreError::Overflow);
    assert_ne!(CoreError::DivideByZero, CoreError::Overflow);
}
