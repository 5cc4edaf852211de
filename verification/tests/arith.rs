//! Exact-value checks of the integer binary operations.

use stackvm::ops::{eval_bin32_exec, eval_bin64_exec, IntBinOp};

#[test]
fn add_wraps_on_overflow() {
    assert_eq!(eval_bin32_exec(IntBinOp::Add, 0xFFFF_FFFF, 1), Some(0));
    assert_eq!(eval_bin32_exec(IntBinOp::Add, 2, 3), Some(5));
    assert_eq!(
        eval_bin64_exec(IntBinOp::Add, 0xFFFF_FFFF_FFFF_FFFF, 2),
        Some(1)
    );
}

#[test]
fn sub_wraps_on_underflow() {
    assert_eq!(eval_bin32_exec(IntBinOp::Sub, 0, 1), Some(0xFFFF_FFFF));
    assert_eq!(eval_bin32_exec(IntBinOp::Sub, 10, 3), Some(7));
    assert_eq!(
        eval_bin64_exec(IntBinOp::Sub, 0, 1),
        Some(0xFFFF_FFFF_FFFF_FFFF)
    );
}

#[test]
fn mul_wraps_on_overflow() {
    assert_eq!(eval_bin32_exec(IntBinOp::Mul, 0x8000_0000, 2), Some(0));
    assert_eq!(eval_bin32_exec(IntBinOp::Mul, 0x1_0001, 0x1_0001), Some(0x2_0001));
    assert_eq!(eval_bin32_exec(IntBinOp::Mul, 6, 7), Some(42));
    assert_eq!(
        eval_bin64_exec(IntBinOp::Mul, 0x8000_0000_0000_0000, 2),
        Some(0)
    );
}

#[test]
fn div_u_truncates() {
    assert_eq!(eval_bin32_exec(IntBinOp::DivU, 7, 2), Some(3));
    assert_eq!(eval_bin32_exec(IntBinOp::DivU, 0xFFFF_FFFF, 2), Some(0x7FFF_FFFF));
    assert_eq!(eval_bin64_exec(IntBinOp::DivU, 7, 2), Some(3));
}

#[test]
fn div_s_truncates_toward_zero() {
    // -7 / 2 == -3 under truncating division.
    let minus7 = (-7i32) as u32;
    let minus3 = (-3i32) as u32;
    assert_eq!(eval_bin32_exec(IntBinOp::DivS, minus7, 2), Some(minus3));
    assert_eq!(eval_bin32_exec(IntBinOp::DivS, 7, (-2i32) as u32), Some(minus3));
    assert_eq!(eval_bin32_exec(IntBinOp::DivS, minus7, (-2i32) as u32), Some(3));
    assert_eq!(eval_bin32_exec(IntBinOp::DivS, 7, 2), Some(3));
    let minus7_64 = (-7i64) as u64;
    assert_eq!(
        eval_bin64_exec(IntBinOp::DivS, minus7_64, 2),
        Some((-3i64) as u64)
    );
}

#[test]
fn rem_takes_dividend_sign() {
    // -7 rem 2 == -1; 7 rem -2 == 1.
    assert_eq!(
        eval_bin32_exec(IntBinOp::RemS, (-7i32) as u32, 2),
        Some((-1i32) as u32)
    );
    assert_eq!(
        eval_bin32_exec(IntBinOp::RemS, 7, (-2i32) as u32),
        Some(1)
    );
    assert_eq!(eval_bin32_exec(IntBinOp::RemU, 7, 2), Some(1));
    assert_eq!(
        eval_bin64_exec(IntBinOp::RemS, (-7i64) as u64, 2),
        Some((-1i64) as u64)
    );
}

#[test]
fn reconstruction_of_dividend() {
    // a == b * (a divs b) + (a rems b), on a mixed-sign pair.
    let a: i32 = -12345;
    let b: i32 = 347;
    let q = eval_bin32_exec(IntBinOp::DivS, a as u32, b as u32).unwrap() as i32;
    let r = eval_bin32_exec(IntBinOp::RemS, a as u32, b as u32).unwrap() as i32;
    assert_eq!(a, b * q + r);
    assert!(r.abs() < b.abs());
}

#[test]
fn division_by_zero_traps() {
    for op in [IntBinOp::DivS, IntBinOp::DivU, IntBinOp::RemS, IntBinOp::RemU] {
        assert_eq!(eval_bin32_exec(op, 10, 0), None);
        assert_eq!(eval_bin32_exec(op, 0, 0), None);
        assert_eq!(eval_bin64_exec(op, 10, 0), None);
    }
}

#[test]
fn signed_min_by_minus_one_traps() {
    assert_eq!(
        eval_bin32_exec(IntBinOp::DivS, i32::MIN as u32, (-1i32) as u32),
        None
    );
    assert_eq!(
        eval_bin64_exec(IntBinOp::DivS, i64::MIN as u64, (-1i64) as u64),
        None
    );
    // The matching remainder is defined as 0, not a trap.
    assert_eq!(
        eval_bin32_exec(IntBinOp::RemS, i32::MIN as u32, (-1i32) as u32),
        Some(0)
    );
    assert_eq!(
        eval_bin64_exec(IntBinOp::RemS, i64::MIN as u64, (-1i64) as u64),
        Some(0)
    );
}

#[test]
fn bitwise_ops() {
    assert_eq!(eval_bin32_exec(IntBinOp::And, 0b1100, 0b1010), Some(0b1000));
    assert_eq!(eval_bin32_exec(IntBinOp::Or, 0b1100, 0b1010), Some(0b1110));
    assert_eq!(eval_bin32_exec(IntBinOp::Xor, 0b1100, 0b1010), Some(0b0110));
    assert_eq!(eval_bin64_exec(IntBinOp::Xor, u64::MAX, u64::MAX), Some(0));
}

#[test]
fn shifts_mod_bit_width() {
    assert_eq!(eval_bin32_exec(IntBinOp::Shl, 1, 4), Some(16));
    // A shift amount of 33 acts as 1 on the 32-bit type.
    assert_eq!(eval_bin32_exec(IntBinOp::Shl, 1, 33), Some(2));
    assert_eq!(eval_bin32_exec(IntBinOp::ShrU, 0x8000_0000, 31), Some(1));
    // Arithmetic shift keeps the sign bit.
    assert_eq!(
        eval_bin32_exec(IntBinOp::ShrS, 0x8000_0000, 31),
        Some(0xFFFF_FFFF)
    );
    assert_eq!(eval_bin64_exec(IntBinOp::Shl, 1, 65), Some(2));
    assert_eq!(
        eval_bin64_exec(IntBinOp::ShrS, 0x8000_0000_0000_0000, 63),
        Some(0xFFFF_FFFF_FFFF_FFFF)
    );
}

#[test]
fn rotations_are_circular() {
    assert_eq!(eval_bin32_exec(IntBinOp::Rotl, 0x8000_0001, 1), Some(3));
    assert_eq!(eval_bin32_exec(IntBinOp::Rotr, 3, 1), Some(0x8000_0001));
    assert_eq!(eval_bin32_exec(IntBinOp::Rotl, 0xDEAD_BEEF, 0), Some(0xDEAD_BEEF));
    assert_eq!(eval_bin32_exec(IntBinOp::Rotl, 0xDEAD_BEEF, 32), Some(0xDEAD_BEEF));
    assert_eq!(
        eval_bin64_exec(IntBinOp::Rotl, 0x8000_0000_0000_0001, 1),
        Some(3)
    );
    assert_eq!(
        eval_bin64_exec(IntBinOp::Rotr, 3, 1),
        Some(0x8000_0000_0000_0001)
    );
}
