//! Exact-value checks of the unary bit counts and the comparisons.

use stackvm::ops::{eval_cmp32_exec, eval_cmp64_exec, eval_un32_exec, eval_un64_exec, IntCmpOp, IntUnOp};

#[test]
fn clz_ctz_of_zero_are_bit_width() {
    assert_eq!(eval_un32_exec(IntUnOp::Clz, 0), 32);
    assert_eq!(eval_un32_exec(IntUnOp::Ctz, 0), 32);
    assert_eq!(eval_un64_exec(IntUnOp::Clz, 0), 64);
    assert_eq!(eval_un64_exec(IntUnOp::Ctz, 0), 64);
}

#[test]
fn popcnt_of_extremes() {
    assert_eq!(eval_un32_exec(IntUnOp::Popcnt, 0), 0);
    assert_eq!(eval_un32_exec(IntUnOp::Popcnt, 0xFFFF_FFFF), 32);
    assert_eq!(eval_un64_exec(IntUnOp::Popcnt, 0), 0);
    assert_eq!(eval_un64_exec(IntUnOp::Popcnt, 0xFFFF_FFFF_FFFF_FFFF), 64);
}

#[test]
fn bit_counts_of_ordinary_values() {
    assert_eq!(eval_un32_exec(IntUnOp::Clz, 1), 31);
    assert_eq!(eval_un32_exec(IntUnOp::Clz, 0x8000_0000), 0);
    assert_eq!(eval_un32_exec(IntUnOp::Ctz, 0x10), 4);
    assert_eq!(eval_un32_exec(IntUnOp::Popcnt, 0xF0F0), 8);
    assert_eq!(eval_un64_exec(IntUnOp::Clz, 1), 63);
    assert_eq!(eval_un64_exec(IntUnOp::Ctz, 0x100), 8);
    assert_eq!(eval_un64_exec(IntUnOp::Popcnt, 0xFF00_0000_0000_00FF), 16);
}

#[test]
fn comparisons_yield_zero_or_one() {
    let ops = [
        IntCmpOp::Eq,
        IntCmpOp::Ne,
        IntCmpOp::LtS,
        IntCmpOp::LeS,
        IntCmpOp::LtU,
        IntCmpOp::LeU,
        IntCmpOp::GtS,
        IntCmpOp::GeS,
        IntCmpOp::GtU,
        IntCmpOp::GeU,
    ];
    let samples32 = [0u32, 1, 7, 0x8000_0000, 0xFFFF_FFFF];
    for op in ops {
        for a in samples32 {
            for b in samples32 {
                let r = eval_cmp32_exec(op, a, b);
                assert!(r == 0 || r == 1);
                let r64 = eval_cmp64_exec(op, a as u64, b as u64);
                assert!(r64 == 0 || r64 == 1);
            }
        }
    }
}

#[test]
fn signed_and_unsigned_comparisons_differ_on_sign_bit() {
    // 0xFFFF_FFFF is the largest unsigned value but -1 signed.
    assert_eq!(eval_cmp32_exec(IntCmpOp::LtU, 0xFFFF_FFFF, 1), 0);
    assert_eq!(eval_cmp32_exec(IntCmpOp::LtS, 0xFFFF_FFFF, 1), 1);
    assert_eq!(eval_cmp32_exec(IntCmpOp::GtU, 0x8000_0000, 0x7FFF_FFFF), 1);
    assert_eq!(eval_cmp32_exec(IntCmpOp::GtS, 0x8000_0000, 0x7FFF_FFFF), 0);
    assert_eq!(eval_cmp64_exec(IntCmpOp::LtU, u64::MAX, 1), 0);
    assert_eq!(eval_cmp64_exec(IntCmpOp::LtS, u64::MAX, 1), 1);
}

#[test]
fn equality_comparisons() {
    assert_eq!(eval_cmp32_exec(IntCmpOp::Eq, 5, 5), 1);
    assert_eq!(eval_cmp32_exec(IntCmpOp::Eq, 5, 6), 0);
    assert_eq!(eval_cmp32_exec(IntCmpOp::Ne, 5, 6), 1);
    assert_eq!(eval_cmp64_exec(IntCmpOp::Eq, u64::MAX, u64::MAX), 1);
}
