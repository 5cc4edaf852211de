//! The instruction set and the semantics of each integer operation.
//!
//! Every operation is given a specification function over bit patterns; the
//! executable evaluators are verified to return exactly the specified
//! result.  A binary operation evaluates to `None` exactly when its defined
//! trap condition is met (division by zero, or the signed minimum divided
//! by minus one under signed division); every other operation is total.

use vstd::prelude::*;

use crate::types::{sgn32, sgn64, IntType};

verus! {

use vstd::arithmetic::div_mod::{
    lemma_div_basics, lemma_div_is_ordered, lemma_div_is_ordered_by_denominator,
    lemma_div_nonincreasing, lemma_fundamental_div_mod, lemma_div_pos_is_pos,
    lemma_mod_division_less_than_divisor, lemma_mod_multiples_vanish, lemma_small_mod,
};

/// A binary integer operation.  `Add`, `Sub` and `Mul` wrap on overflow;
/// the division and remainder operations trap on a zero divisor, and `DivS`
/// additionally traps when the signed minimum is divided by minus one.
/// Shift amounts are taken modulo the bit width; `Rotl` and `Rotr` are
/// circular bit rotations.
#[derive(Clone, Copy, Debug, PartialEq, Eq, Structural)]
pub enum IntBinOp {
    Add,
    Sub,
    Mul,
    DivS,
    DivU,
    RemS,
    RemU,
    And,
    Or,
    Xor,
    Shl,
    ShrU,
    ShrS,
    Rotl,
    Rotr,
}

/// A unary integer operation: count of leading zero bits, trailing zero
/// bits, or set bits.
#[derive(Clone, Copy, Debug, PartialEq, Eq, Structural)]
pub enum IntUnOp {
    Clz,
    Ctz,
    Popcnt,
}

/// An integer comparison.  The `S` and `U` suffixes select the signed or
/// unsigned reading of the operands; the result is always a 32-bit integer
/// that is 1 for true and 0 for false.
#[derive(Clone, Copy, Debug, PartialEq, Eq, Structural)]
pub enum IntCmpOp {
    Eq,
    Ne,
    LtS,
    LeS,
    LtU,
    LeU,
    GtS,
    GeS,
    GtU,
    GeU,
}

/// One instruction of a function body.
///
/// `Nop` stands both for the explicit no-op and for every instruction of
/// the broader format whose semantics this engine does not implement
/// (control flow, calls, memory access, floating-point arithmetic): such an
/// instruction consumes nothing and pushes nothing.
#[derive(Clone, Copy, Debug, PartialEq, Eq, Structural)]
pub enum NormalOp {
    /// No effect on the frame.
    Nop,
    /// Push the current value of the given local slot.
    GetLocal(usize),
    /// Pop one value and store it into the given local slot.
    SetLocal(usize),
    /// Pop one value, store it into the given local slot, and push the same
    /// value back: net stack effect of zero.
    TeeLocal(usize),
    /// Finish the invocation; with `has_arg`, pop one value as its result.
    Return { has_arg: bool },
    /// Pop two operands of the given width (right-hand operand on top),
    /// apply the operation, push one result of the same width.
    IntBin(IntType, IntBinOp),
    /// Pop one operand of the given width, push the bit count as a value of
    /// the same width.
    IntUn(IntType, IntUnOp),
    /// Pop two operands of the given width, push the 32-bit comparison
    /// result.
    IntCmp(IntType, IntCmpOp),
    /// Pop one operand of the given width, push 1 as a 32-bit integer if it
    /// is zero, else 0.
    IntEqz(IntType),
}

/// Left rotation of a 32-bit pattern by `b` mod 32 places.
pub open spec fn rotl32(a: u32, b: u32) -> u32 {
    let s = (b % 32) as u32;
    if s == 0 {
        a
    } else {
        (a << s) | (a >> ((32 - s) as u32))
    }
}

/// Right rotation of a 32-bit pattern by `b` mod 32 places.
pub open spec fn rotr32(a: u32, b: u32) -> u32 {
    let s = (b % 32) as u32;
    if s == 0 {
        a
    } else {
        (a >> s) | (a << ((32 - s) as u32))
    }
}

/// Left rotation of a 64-bit pattern by `b` mod 64 places.
pub open spec fn rotl64(a: u64, b: u64) -> u64 {
    let s = (b % 64) as u64;
    if s == 0 {
        a
    } else {
        (a << s) | (a >> ((64 - s) as u64))
    }
}

/// Right rotation of a 64-bit pattern by `b` mod 64 places.
pub open spec fn rotr64(a: u64, b: u64) -> u64 {
    let s = (b % 64) as u64;
    if s == 0 {
        a
    } else {
        (a >> s) | (a << ((64 - s) as u64))
    }
}

/// The number of set bits among the low `bits` binary digits of `n`.
pub open spec fn popcount(n: nat, bits: nat) -> nat
    decreases bits,
{
    if bits == 0 {
        0
    } else {
        popcount(n / 2, (bits - 1) as nat) + n % 2
    }
}

/// A bit count never exceeds the number of digits counted.
pub proof fn lemma_popcount_le(n: nat, bits: nat)
    ensures
        popcount(n, bits) <= bits,
    decreases bits,
{
    if bits > 0 {
        lemma_popcount_le(n / 2, (bits - 1) as nat);
    }
}

/// The result of a 32-bit binary operation: the value pushed, or `None`
/// when the operation's trap condition is met.
pub open spec fn eval_bin32(op: IntBinOp, a: u32, b: u32) -> Option<u32> {
    match op {
        IntBinOp::Add => Some(a.wrapping_add(b)),
        IntBinOp::Sub => Some(a.wrapping_sub(b)),
        IntBinOp::Mul => Some(a.wrapping_mul(b)),
        IntBinOp::DivS => match (a as i32).checked_div(b as i32) {
            Some(q) => Some(q as u32),
            None => None,
        },
        IntBinOp::DivU => a.checked_div(b),
        IntBinOp::RemS => if b as i32 == 0 {
            None
        } else {
            match (a as i32).checked_rem(b as i32) {
                Some(r) => Some(r as u32),
                None => Some(0),
            }
        },
        IntBinOp::RemU => a.checked_rem(b),
        IntBinOp::And => Some(a & b),
        IntBinOp::Or => Some(a | b),
        IntBinOp::Xor => Some(a ^ b),
        IntBinOp::Shl => Some(a.wrapping_shl(b)),
        IntBinOp::ShrU => Some(a.wrapping_shr(b)),
        IntBinOp::ShrS => Some((a as i32).wrapping_shr(b) as u32),
        IntBinOp::Rotl => Some(rotl32(a, b)),
        IntBinOp::Rotr => Some(rotr32(a, b)),
    }
}

/// The result of a 64-bit binary operation, as [`eval_bin32`].
pub open spec fn eval_bin64(op: IntBinOp, a: u64, b: u64) -> Option<u64> {
    match op {
        IntBinOp::Add => Some(a.wrapping_add(b)),
        IntBinOp::Sub => Some(a.wrapping_sub(b)),
        IntBinOp::Mul => Some(a.wrapping_mul(b)),
        IntBinOp::DivS => match (a as i64).checked_div(b as i64) {
            Some(q) => Some(q as u64),
            None => None,
        },
        IntBinOp::DivU => a.checked_div(b),
        IntBinOp::RemS => if b as i64 == 0 {
            None
        } else {
            match (a as i64).checked_rem(b as i64) {
                Some(r) => Some(r as u64),
                None => Some(0),
            }
        },
        IntBinOp::RemU => a.checked_rem(b),
        IntBinOp::And => Some(a & b),
        IntBinOp::Or => Some(a | b),
        IntBinOp::Xor => Some(a ^ b),
        IntBinOp::Shl => Some(a.wrapping_shl((b % 64) as u32)),
        IntBinOp::ShrU => Some(a.wrapping_shr((b % 64) as u32)),
        IntBinOp::ShrS => Some((a as i64).wrapping_shr((b % 64) as u32) as u64),
        IntBinOp::Rotl => Some(rotl64(a, b)),
        IntBinOp::Rotr => Some(rotr64(a, b)),
    }
}

/// The result of a 32-bit unary bit count.
pub open spec fn eval_un32(op: IntUnOp, a: u32) -> u32 {
    match op {
        IntUnOp::Clz => a.leading_zeros(),
        IntUnOp::Ctz => a.trailing_zeros(),
        IntUnOp::Popcnt => popcount(a as nat, 32) as u32,
    }
}

/// The result of a 64-bit unary bit count, as a 64-bit value.
pub open spec fn eval_un64(op: IntUnOp, a: u64) -> u64 {
    match op {
        IntUnOp::Clz => vstd::std_specs::bits::u64_leading_zeros(a) as u64,
        IntUnOp::Ctz => a.trailing_zeros() as u64,
        IntUnOp::Popcnt => popcount(a as nat, 64) as u64,
    }
}

/// Whether a 32-bit comparison holds of two operand bit patterns.
pub open spec fn cmp32_holds(op: IntCmpOp, a: u32, b: u32) -> bool {
    match op {
        IntCmpOp::Eq => a == b,
        IntCmpOp::Ne => a != b,
        IntCmpOp::LtS => sgn32(a) < sgn32(b),
        IntCmpOp::LeS => sgn32(a) <= sgn32(b),
        IntCmpOp::LtU => a < b,
        IntCmpOp::LeU => a <= b,
        IntCmpOp::GtS => sgn32(a) > sgn32(b),
        IntCmpOp::GeS => sgn32(a) >= sgn32(b),
        IntCmpOp::GtU => a > b,
        IntCmpOp::GeU => a >= b,
    }
}

/// Whether a 64-bit comparison holds of two operand bit patterns.
pub open spec fn cmp64_holds(op: IntCmpOp, a: u64, b: u64) -> bool {
    match op {
        IntCmpOp::Eq => a == b,
        IntCmpOp::Ne => a != b,
        IntCmpOp::LtS => sgn64(a) < sgn64(b),
        IntCmpOp::LeS => sgn64(a) <= sgn64(b),
        IntCmpOp::LtU => a < b,
        IntCmpOp::LeU => a <= b,
        IntCmpOp::GtS => sgn64(a) > sgn64(b),
        IntCmpOp::GeS => sgn64(a) >= sgn64(b),
        IntCmpOp::GtU => a > b,
        IntCmpOp::GeU => a >= b,
    }
}

/// The 32-bit integer result of a comparison: 1 for true, 0 for false.
pub open spec fn cmp_result(holds: bool) -> u32 {
    if holds {
        1
    } else {
        0
    }
}

/// Evaluates a 32-bit binary operation.
pub fn eval_bin32_exec(op: IntBinOp, a: u32, b: u32) -> (r: Option<u32>)
    ensures
        r == eval_bin32(op, a, b),
{
    match op {
        IntBinOp::Add => Some(a.wrapping_add(b)),
        IntBinOp::Sub => Some(a.wrapping_sub(b)),
        IntBinOp::Mul => Some(a.wrapping_mul(b)),
        IntBinOp::DivS => match (a as i32).checked_div(b as i32) {
            Some(q) => Some(q as u32),
            None => None,
        },
        IntBinOp::DivU => a.checked_div(b),
        IntBinOp::RemS => {
            if b as i32 == 0 {
                None
            } else {
                match (a as i32).checked_rem(b as i32) {
                    Some(r) => Some(r as u32),
                    None => Some(0),
                }
            }
        },
        IntBinOp::RemU => a.checked_rem(b),
        IntBinOp::And => Some(a & b),
        IntBinOp::Or => Some(a | b),
        IntBinOp::Xor => Some(a ^ b),
        IntBinOp::Shl => Some(a.wrapping_shl(b)),
        IntBinOp::ShrU => Some(a.wrapping_shr(b)),
        IntBinOp::ShrS => Some((a as i32).wrapping_shr(b) as u32),
        IntBinOp::Rotl => {
            let s: u32 = b % 32;
            if s == 0 {
                Some(a)
            } else {
                Some((a << s) | (a >> (32 - s)))
            }
        },
        IntBinOp::Rotr => {
            let s: u32 = b % 32;
            if s == 0 {
                Some(a)
            } else {
                Some((a >> s) | (a << (32 - s)))
            }
        },
    }
}

/// Evaluates a 64-bit binary operation.
pub fn eval_bin64_exec(op: IntBinOp, a: u64, b: u64) -> (r: Option<u64>)
    ensures
        r == eval_bin64(op, a, b),
{
    match op {
        IntBinOp::Add => Some(a.wrapping_add(b)),
        IntBinOp::Sub => Some(a.wrapping_sub(b)),
        IntBinOp::Mul => Some(a.wrapping_mul(b)),
        IntBinOp::DivS => match (a as i64).checked_div(b as i64) {
            Some(q) => Some(q as u64),
            None => None,
        },
        IntBinOp::DivU => a.checked_div(b),
        IntBinOp::RemS => {
            if b as i64 == 0 {
                None
            } else {
                match (a as i64).checked_rem(b as i64) {
                    Some(r) => Some(r as u64),
                    None => Some(0),
                }
            }
        },
        IntBinOp::RemU => a.checked_rem(b),
        IntBinOp::And => Some(a & b),
        IntBinOp::Or => Some(a | b),
        IntBinOp::Xor => Some(a ^ b),
        IntBinOp::Shl => Some(a.wrapping_shl((b % 64) as u32)),
        IntBinOp::ShrU => Some(a.wrapping_shr((b % 64) as u32)),
        IntBinOp::ShrS => Some((a as i64).wrapping_shr((b % 64) as u32) as u64),
        IntBinOp::Rotl => {
            let s: u64 = b % 64;
            if s == 0 {
                Some(a)
            } else {
                Some((a << s) | (a >> (64 - s)))
            }
        },
        IntBinOp::Rotr => {
            let s: u64 = b % 64;
            if s == 0 {
                Some(a)
            } else {
                Some((a >> s) | (a << (64 - s)))
            }
        },
    }
}

/// Counts the set bits of a 32-bit pattern.
pub fn popcnt32(a: u32) -> (r: u32)
    ensures
        r == popcount(a as nat, 32),
{
    let mut n: u32 = a;
    let mut count: u32 = 0;
    let mut i: u32 = 0;
    proof {
        lemma_popcount_le(a as nat, 32);
    }
    while i < 32
        invariant
            i <= 32,
            count <= i,
            count + popcount(n as nat, (32 - i) as nat) == popcount(a as nat, 32),
        decreases 32 - i,
    {
        proof {
            lemma_popcount_le(n as nat / 2, (31 - i) as nat);
        }
        count = count + n % 2;
        n = n / 2;
        i = i + 1;
    }
    count
}

/// Counts the set bits of a 64-bit pattern.
pub fn popcnt64(a: u64) -> (r: u64)
    ensures
        r == popcount(a as nat, 64),
{
    let mut n: u64 = a;
    let mut count: u64 = 0;
    let mut i: u64 = 0;
    proof {
        lemma_popcount_le(a as nat, 64);
    }
    while i < 64
        invariant
            i <= 64,
            count <= i,
            count + popcount(n as nat, (64 - i) as nat) == popcount(a as nat, 64),
        decreases 64 - i,
    {
        proof {
            lemma_popcount_le(n as nat / 2, (63 - i) as nat);
        }
        count = count + n % 2;
        n = n / 2;
        i = i + 1;
    }
    count
}

/// Evaluates a 32-bit unary bit count.
pub fn eval_un32_exec(op: IntUnOp, a: u32) -> (r: u32)
    ensures
        r == eval_un32(op, a),
{
    match op {
        IntUnOp::Clz => a.leading_zeros(),
        IntUnOp::Ctz => a.trailing_zeros(),
        IntUnOp::Popcnt => {
            proof {
                lemma_popcount_le(a as nat, 32);
            }
            popcnt32(a)
        },
    }
}

/// Evaluates a 64-bit unary bit count.
pub fn eval_un64_exec(op: IntUnOp, a: u64) -> (r: u64)
    ensures
        r == eval_un64(op, a),
{
    match op {
        IntUnOp::Clz => {
            proof {
                vstd::std_specs::bits::axiom_u64_leading_zeros(a);
            }
            a.leading_zeros() as u64
        },
        IntUnOp::Ctz => {
            proof {
                vstd::std_specs::bits::axiom_u64_trailing_zeros(a);
            }
            a.trailing_zeros() as u64
        },
        IntUnOp::Popcnt => {
            proof {
                lemma_popcount_le(a as nat, 64);
            }
            popcnt64(a)
        },
    }
}

/// Evaluates a 32-bit comparison to its 32-bit integer result.
pub fn eval_cmp32_exec(op: IntCmpOp, a: u32, b: u32) -> (r: u32)
    ensures
        r == cmp_result(cmp32_holds(op, a, b)),
{
    let holds: bool = match op {
        IntCmpOp::Eq => a == b,
        IntCmpOp::Ne => a != b,
        IntCmpOp::LtS => (a as i32) < (b as i32),
        IntCmpOp::LeS => (a as i32) <= (b as i32),
        IntCmpOp::LtU => a < b,
        IntCmpOp::LeU => a <= b,
        IntCmpOp::GtS => (a as i32) > (b as i32),
        IntCmpOp::GeS => (a as i32) >= (b as i32),
        IntCmpOp::GtU => a > b,
        IntCmpOp::GeU => a >= b,
    };
    if holds {
        1
    } else {
        0
    }
}

/// Evaluates a 64-bit comparison to its 32-bit integer result.
pub fn eval_cmp64_exec(op: IntCmpOp, a: u64, b: u64) -> (r: u32)
    ensures
        r == cmp_result(cmp64_holds(op, a, b)),
{
    let holds: bool = match op {
        IntCmpOp::Eq => a == b,
        IntCmpOp::Ne => a != b,
        IntCmpOp::LtS => (a as i64) < (b as i64),
        IntCmpOp::LeS => (a as i64) <= (b as i64),
        IntCmpOp::LtU => a < b,
        IntCmpOp::LeU => a <= b,
        IntCmpOp::GtS => (a as i64) > (b as i64),
        IntCmpOp::GeS => (a as i64) >= (b as i64),
        IntCmpOp::GtU => a > b,
        IntCmpOp::GeU => a >= b,
    };
    if holds {
        1
    } else {
        0
    }
}


/// Truncating (toward-zero) division of mathematical integers: the
/// quotient signed division computes.
pub open spec fn div_trunc(a: int, b: int) -> int
    recommends
        b != 0,
{
    if a >= 0 && b > 0 {
        a / b
    } else if a >= 0 {
        -(a / -b)
    } else if b > 0 {
        -(-a / b)
    } else {
        -a / -b
    }
}

/// The remainder left by truncating division: what signed remainder
/// computes.
pub open spec fn rem_trunc(a: int, b: int) -> int
    recommends
        b != 0,
{
    a - b * div_trunc(a, b)
}

/// Truncating division and remainder reconstruct the dividend, the
/// remainder is smaller in magnitude than the divisor and takes the
/// dividend's sign, and the quotient is no larger in magnitude than the
/// dividend.
pub proof fn lemma_trunc_div_mod(x: int, d: int)
    requires
        d != 0,
    ensures
        x == d * div_trunc(x, d) + rem_trunc(x, d),
        vstd::math::abs(rem_trunc(x, d)) < vstd::math::abs(d),
        x >= 0 ==> rem_trunc(x, d) >= 0,
        x <= 0 ==> rem_trunc(x, d) <= 0,
        vstd::math::abs(div_trunc(x, d)) <= vstd::math::abs(x),
        x >= 0 && d > 0 ==> div_trunc(x, d) >= 0,
{
    if x >= 0 && d > 0 {
        lemma_fundamental_div_mod(x, d);
        lemma_mod_division_less_than_divisor(x, d);
        lemma_div_pos_is_pos(x, d);
        lemma_div_nonincreasing(x, d);
    } else if x >= 0 {
        let e = -d;
        let q = x / e;
        lemma_fundamental_div_mod(x, e);
        lemma_mod_division_less_than_divisor(x, e);
        lemma_div_pos_is_pos(x, e);
        lemma_div_nonincreasing(x, e);
        assert(d * -q == e * q) by (nonlinear_arith)
            requires
                d == -e,
        ;
    } else if d > 0 {
        let q = -x / d;
        lemma_fundamental_div_mod(-x, d);
        lemma_mod_division_less_than_divisor(-x, d);
        lemma_div_pos_is_pos(-x, d);
        lemma_div_nonincreasing(-x, d);
        assert(d * -q == -(d * q)) by (nonlinear_arith);
    } else {
        let e = -d;
        let q = -x / e;
        lemma_fundamental_div_mod(-x, e);
        lemma_mod_division_less_than_divisor(-x, e);
        lemma_div_pos_is_pos(-x, e);
        lemma_div_nonincreasing(-x, e);
        assert(d * q == -(e * q)) by (nonlinear_arith)
            requires
                d == -e,
        ;
    }
}

/// Law: `Add`, `Sub` and `Mul` wrap silently on overflow and never trap.
/// The 32-bit result is the mathematical result reduced modulo 2^32.
pub proof fn lemma_wrapping_arith32(a: u32, b: u32)
    ensures
        eval_bin32(IntBinOp::Add, a, b) == Some((((a + b) % 0x1_0000_0000) as u32)),
        eval_bin32(IntBinOp::Sub, a, b) == Some((((a - b) % 0x1_0000_0000) as u32)),
        eval_bin32(IntBinOp::Mul, a, b) == Some((((a * b) % 0x1_0000_0000) as u32)),
{
    let m: int = 0x1_0000_0000;
    if a + b <= u32::MAX {
        lemma_small_mod((a + b) as nat, m as nat);
    } else {
        lemma_mod_multiples_vanish(1, a + b - m, m);
        lemma_small_mod((a + b - m) as nat, m as nat);
    }
    if a - b >= 0 {
        lemma_small_mod((a - b) as nat, m as nat);
    } else {
        lemma_mod_multiples_vanish(1, a - b, m);
        lemma_small_mod((a - b + m) as nat, m as nat);
    }
}

/// Law: the 64-bit `Add`, `Sub` and `Mul` wrap modulo 2^64 and never trap.
pub proof fn lemma_wrapping_arith64(a: u64, b: u64)
    ensures
        eval_bin64(IntBinOp::Add, a, b) == Some((((a + b) % 0x1_0000_0000_0000_0000) as u64)),
        eval_bin64(IntBinOp::Sub, a, b) == Some((((a - b) % 0x1_0000_0000_0000_0000) as u64)),
        eval_bin64(IntBinOp::Mul, a, b) == Some((((a * b) % 0x1_0000_0000_0000_0000) as u64)),
{
    let m: int = 0x1_0000_0000_0000_0000;
    if a + b <= u64::MAX {
        lemma_small_mod((a + b) as nat, m as nat);
    } else {
        lemma_mod_multiples_vanish(1, a + b - m, m);
        lemma_small_mod((a + b - m) as nat, m as nat);
    }
    if a - b >= 0 {
        lemma_small_mod((a - b) as nat, m as nat);
    } else {
        lemma_mod_multiples_vanish(1, a - b, m);
        lemma_small_mod((a - b + m) as nat, m as nat);
    }
}

/// Law: every division and remainder operation traps on a zero divisor,
/// whatever the dividend.
pub proof fn lemma_div_by_zero_traps32(a: u32)
    ensures
        eval_bin32(IntBinOp::DivS, a, 0) == None::<u32>,
        eval_bin32(IntBinOp::DivU, a, 0) == None::<u32>,
        eval_bin32(IntBinOp::RemS, a, 0) == None::<u32>,
        eval_bin32(IntBinOp::RemU, a, 0) == None::<u32>,
{
}

/// Law: the 64-bit division and remainder operations trap on a zero
/// divisor, whatever the dividend.
pub proof fn lemma_div_by_zero_traps64(a: u64)
    ensures
        eval_bin64(IntBinOp::DivS, a, 0) == None::<u64>,
        eval_bin64(IntBinOp::DivU, a, 0) == None::<u64>,
        eval_bin64(IntBinOp::RemS, a, 0) == None::<u64>,
        eval_bin64(IntBinOp::RemU, a, 0) == None::<u64>,
{
}

/// Law: signed division of the minimum value by minus one traps, at both
/// widths.
pub proof fn lemma_div_signed_min_traps()
    ensures
        eval_bin32(IntBinOp::DivS, 0x8000_0000u32, 0xFFFF_FFFFu32) == None::<u32>,
        eval_bin64(
            IntBinOp::DivS,
            0x8000_0000_0000_0000u64,
            0xFFFF_FFFF_FFFF_FFFFu64,
        ) == None::<u64>,
{
    assert(0x8000_0000u32 as i32 == i32::MIN) by (bit_vector);
    assert(0xFFFF_FFFFu32 as i32 == -1i32) by (bit_vector);
    assert(0x8000_0000_0000_0000u64 as i64 == i64::MIN) by (bit_vector);
    assert(0xFFFF_FFFF_FFFF_FFFFu64 as i64 == -1i64) by (bit_vector);
    lemma_div_basics(0x8000_0000int);
    lemma_div_basics(0x8000_0000_0000_0000int);
}

/// Law: for a nonzero divisor, unsigned division and remainder never trap
/// and reconstruct the dividend: `a == b * q + r` with `r < b`.
pub proof fn lemma_div_rem_unsigned_reconstruct32(a: u32, b: u32)
    requires
        b != 0,
    ensures
        eval_bin32(IntBinOp::DivU, a, b) == Some((((a as int) / (b as int)) as u32)),
        eval_bin32(IntBinOp::RemU, a, b) == Some((((a as int) % (b as int)) as u32)),
        a == b * ((a as int) / (b as int)) + ((a as int) % (b as int)),
        (a as int) % (b as int) < b,
{
    lemma_fundamental_div_mod(a as int, b as int);
    lemma_mod_division_less_than_divisor(a as int, b as int);
    lemma_div_pos_is_pos(a as int, b as int);
    lemma_div_nonincreasing(a as int, b as int);
}

/// Law: 64-bit unsigned division and remainder never trap on a nonzero
/// divisor and reconstruct the dividend.
pub proof fn lemma_div_rem_unsigned_reconstruct64(a: u64, b: u64)
    requires
        b != 0,
    ensures
        eval_bin64(IntBinOp::DivU, a, b) == Some((((a as int) / (b as int)) as u64)),
        eval_bin64(IntBinOp::RemU, a, b) == Some((((a as int) % (b as int)) as u64)),
        a == b * ((a as int) / (b as int)) + ((a as int) % (b as int)),
        (a as int) % (b as int) < b,
{
    lemma_fundamental_div_mod(a as int, b as int);
    lemma_mod_division_less_than_divisor(a as int, b as int);
    lemma_div_pos_is_pos(a as int, b as int);
    lemma_div_nonincreasing(a as int, b as int);
}

/// Law: for a nonzero divisor, outside the one overflowing pair (minimum
/// value, minus one), signed division and remainder never trap and follow
/// standard two's-complement truncating-division semantics: the quotient
/// truncates toward zero, and multiplying back reconstructs the dividend,
/// `a == b * q + r`, with `|r| < |b|` and `r` taking the dividend's sign.
pub proof fn lemma_div_rem_signed_reconstruct32(a: u32, b: u32)
    requires
        sgn32(b) != 0,
        !(sgn32(a) == i32::MIN && sgn32(b) == -1),
    ensures
        ({
            let q = div_trunc(sgn32(a), sgn32(b));
            let r = rem_trunc(sgn32(a), sgn32(b));
            &&& eval_bin32(IntBinOp::DivS, a, b) == Some(((q as i32) as u32))
            &&& eval_bin32(IntBinOp::RemS, a, b) == Some(((r as i32) as u32))
            &&& sgn32((q as i32) as u32) == q
            &&& sgn32((r as i32) as u32) == r
            &&& sgn32(a) == sgn32(b) * q + r
            &&& vstd::math::abs(r) < vstd::math::abs(sgn32(b))
            &&& (sgn32(a) >= 0 ==> r >= 0)
            &&& (sgn32(a) <= 0 ==> r <= 0)
        }),
{
    let x = sgn32(a);
    let d = sgn32(b);
    lemma_trunc_div_mod(x, d);
    let q = div_trunc(x, d);
    let r = rem_trunc(x, d);

    // The quotient and remainder formulas of checked signed division and
    // remainder equal div_trunc and rem_trunc.
    if x == 0 {
        lemma_div_basics(d);
        lemma_div_basics(-d);
    }
    let qout = if x == 0 {
        0int
    } else if x > 0 && d > 0 {
        x / d
    } else if x < 0 && d < 0 {
        (x * -1) / (d * -1)
    } else if x < 0 {
        ((x * -1) / d) * -1
    } else {
        (x / (d * -1)) * -1
    };
    assert(qout == q);
    let rout = if x == 0 {
        0int
    } else if x > 0 && d > 0 {
        x % d
    } else if x < 0 && d < 0 {
        ((x * -1) % (d * -1)) * -1
    } else if x < 0 {
        ((x * -1) % d) * -1
    } else {
        x % (d * -1)
    };
    assert(rout == r) by {
        if x != 0 {
            if x > 0 && d > 0 {
                lemma_fundamental_div_mod(x, d);
            } else if x < 0 && d < 0 {
                lemma_fundamental_div_mod(-x, -d);
                assert(d * ((-x) / (-d)) == -((-d) * ((-x) / (-d)))) by (nonlinear_arith);
            } else if x < 0 {
                lemma_fundamental_div_mod(-x, d);
                assert(d * (-((-x) / d)) == -(d * ((-x) / d))) by (nonlinear_arith);
            } else {
                lemma_fundamental_div_mod(x, -d);
                assert(d * (-(x / (-d))) == (-d) * (x / (-d))) by (nonlinear_arith);
            }
        }
    }

    // The quotient stays within the 32-bit signed range: its magnitude is
    // bounded by the dividend's, and the one pair that would reach 2^31 is
    // excluded.
    assert(-0x8000_0000 <= q <= 0x8000_0000);
    if q == 0x8000_0000 {
        // Only a negative dividend of full magnitude divided by -1 could
        // reach 2^31; that pair is excluded.
        assert(x == i32::MIN);
        assert(x < 0 && d < 0);
        if -d >= 2 {
            lemma_div_is_ordered_by_denominator(-x, 2, -d);
            lemma_div_is_ordered(-x, 0x8000_0000, 2);
            assert(-x / 2 <= 0x8000_0000int / 2);
            assert(false);
        } else {
            lemma_div_basics(-x);
            assert(false);
        }
    }

    // The remainder's magnitude is below |d| <= 2^31, so it is in range.
    assert(-0x8000_0000 < r < 0x8000_0000);

    crate::types::lemma_i32_roundtrip(q as i32);
    crate::types::lemma_i32_roundtrip(r as i32);
}

/// Law: the 64-bit counterpart of signed truncating-division
/// reconstruction.
pub proof fn lemma_div_rem_signed_reconstruct64(a: u64, b: u64)
    requires
        sgn64(b) != 0,
        !(sgn64(a) == i64::MIN && sgn64(b) == -1),
    ensures
        ({
            let q = div_trunc(sgn64(a), sgn64(b));
            let r = rem_trunc(sgn64(a), sgn64(b));
            &&& eval_bin64(IntBinOp::DivS, a, b) == Some(((q as i64) as u64))
            &&& eval_bin64(IntBinOp::RemS, a, b) == Some(((r as i64) as u64))
            &&& sgn64((q as i64) as u64) == q
            &&& sgn64((r as i64) as u64) == r
            &&& sgn64(a) == sgn64(b) * q + r
            &&& vstd::math::abs(r) < vstd::math::abs(sgn64(b))
            &&& (sgn64(a) >= 0 ==> r >= 0)
            &&& (sgn64(a) <= 0 ==> r <= 0)
        }),
{
    let x = sgn64(a);
    let d = sgn64(b);
    lemma_trunc_div_mod(x, d);
    let q = div_trunc(x, d);
    let r = rem_trunc(x, d);

    // The quotient and remainder formulas of checked signed division and
    // remainder equal div_trunc and rem_trunc.
    if x == 0 {
        lemma_div_basics(d);
        lemma_div_basics(-d);
    }
    let qout = if x == 0 {
        0int
    } else if x > 0 && d > 0 {
        x / d
    } else if x < 0 && d < 0 {
        (x * -1) / (d * -1)
    } else if x < 0 {
        ((x * -1) / d) * -1
    } else {
        (x / (d * -1)) * -1
    };
    assert(qout == q);
    let rout = if x == 0 {
        0int
    } else if x > 0 && d > 0 {
        x % d
    } else if x < 0 && d < 0 {
        ((x * -1) % (d * -1)) * -1
    } else if x < 0 {
        ((x * -1) % d) * -1
    } else {
        x % (d * -1)
    };
    assert(rout == r) by {
        if x != 0 {
            if x > 0 && d > 0 {
                lemma_fundamental_div_mod(x, d);
            } else if x < 0 && d < 0 {
                lemma_fundamental_div_mod(-x, -d);
                assert(d * ((-x) / (-d)) == -((-d) * ((-x) / (-d)))) by (nonlinear_arith);
            } else if x < 0 {
                lemma_fundamental_div_mod(-x, d);
                assert(d * (-((-x) / d)) == -(d * ((-x) / d))) by (nonlinear_arith);
            } else {
                lemma_fundamental_div_mod(x, -d);
                assert(d * (-(x / (-d))) == (-d) * (x / (-d))) by (nonlinear_arith);
            }
        }
    }

    assert(-0x8000_0000_0000_0000 <= q <= 0x8000_0000_0000_0000);
    if q == 0x8000_0000_0000_0000 {
        assert(x == i64::MIN);
        assert(x < 0 && d < 0);
        if -d >= 2 {
            lemma_div_is_ordered_by_denominator(-x, 2, -d);
            lemma_div_is_ordered(-x, 0x8000_0000_0000_0000, 2);
            assert(-x / 2 <= 0x8000_0000_0000_0000int / 2);
            assert(false);
        } else {
            lemma_div_basics(-x);
            assert(false);
        }
    }

    assert(-0x8000_0000_0000_0000 < r < 0x8000_0000_0000_0000);

    crate::types::lemma_i64_roundtrip(q as i64);
    crate::types::lemma_i64_roundtrip(r as i64);
}

/// Law: the leading- and trailing-zero counts of the zero value are the
/// full bit width; its set-bit count is 0; and the set-bit count of the
/// all-ones value is the full bit width.  At both widths.
pub proof fn lemma_bit_counts_of_extremes()
    ensures
        eval_un32(IntUnOp::Clz, 0) == 32,
        eval_un32(IntUnOp::Ctz, 0) == 32,
        eval_un32(IntUnOp::Popcnt, 0) == 0,
        eval_un32(IntUnOp::Popcnt, 0xFFFF_FFFFu32) == 32,
        eval_un64(IntUnOp::Clz, 0) == 64,
        eval_un64(IntUnOp::Ctz, 0) == 64,
        eval_un64(IntUnOp::Popcnt, 0) == 0,
        eval_un64(IntUnOp::Popcnt, 0xFFFF_FFFF_FFFF_FFFFu64) == 64,
{
    vstd::std_specs::bits::axiom_u32_leading_zeros(0);
    vstd::std_specs::bits::axiom_u32_trailing_zeros(0);
    vstd::std_specs::bits::axiom_u64_leading_zeros(0);
    vstd::std_specs::bits::axiom_u64_trailing_zeros(0);
    lemma_popcount_zero(32);
    lemma_popcount_zero(64);
    lemma_popcount_all_ones(32);
    lemma_popcount_all_ones(64);
    vstd::arithmetic::power2::lemma2_to64();
    assert(popcount(0xFFFF_FFFFnat, 32) == 32);
    vstd::arithmetic::power2::lemma2_to64_rest();
    assert(popcount(0xFFFF_FFFF_FFFF_FFFFnat, 64) == 64);
}

/// The bit count of the zero value is zero, over any number of digits.
pub proof fn lemma_popcount_zero(bits: nat)
    ensures
        popcount(0, bits) == 0,
    decreases bits,
{
    if bits > 0 {
        lemma_popcount_zero((bits - 1) as nat);
    }
}

/// The bit count of the all-ones value over `bits` digits is `bits`.
pub proof fn lemma_popcount_all_ones(bits: nat)
    ensures
        popcount((vstd::arithmetic::power2::pow2(bits) - 1) as nat, bits) == bits,
    decreases bits,
{
    vstd::arithmetic::power2::lemma_pow2_pos(bits);
    if bits > 0 {
        let m = vstd::arithmetic::power2::pow2((bits - 1) as nat);
        vstd::arithmetic::power2::lemma_pow2_unfold(bits);
        vstd::arithmetic::power2::lemma_pow2_pos((bits - 1) as nat);
        let n = (2 * m - 1) as nat;
        assert(n / 2 == m - 1 && n % 2 == 1) by (nonlinear_arith)
            requires
                n == 2 * m - 1,
                m >= 1,
        ;
        lemma_popcount_all_ones((bits - 1) as nat);
    }
}

} // verus!
