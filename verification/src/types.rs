//! Value types and runtime values.
//!
//! A [`Dynamic`] is one typed scalar: the unit of computation that
//! instructions pop from and push onto the operand stack.  Integer values
//! are stored as their unsigned bit pattern; signed and unsigned operations
//! of the same width share the representation and differ only in the
//! operation applied.  Floating-point values are carried as raw bit
//! patterns, since no instruction in the implemented subset computes with
//! them: they can only be moved between local slots and the stack.

use vstd::prelude::*;

verus! {

/// A value type: element of a function signature or declared type of a
/// local slot.
#[derive(Clone, Copy, Debug, PartialEq, Eq, Structural)]
pub enum Type {
    Int32,
    Int64,
    Float32,
    Float64,
}

/// The two integer value types, used to tag integer instructions with the
/// width they operate at.
#[derive(Clone, Copy, Debug, PartialEq, Eq, Structural)]
pub enum IntType {
    Int32,
    Int64,
}

impl IntType {
    /// The value type an integer instruction of this width consumes.
    pub open spec fn to_type(self) -> Type {
        match self {
            IntType::Int32 => Type::Int32,
            IntType::Int64 => Type::Int64,
        }
    }
}

/// One typed scalar value.  The 32-bit and 64-bit integer variants hold the
/// unsigned bit pattern; the float variants hold the raw bit pattern of a
/// value no implemented instruction computes with.
#[derive(Clone, Copy, Debug, PartialEq, Eq, Structural)]
pub enum Dynamic {
    Int32(u32),
    Int64(u64),
    Float32Bits(u32),
    Float64Bits(u64),
}

impl Dynamic {
    /// The type tag of this value.
    pub open spec fn ty(self) -> Type {
        match self {
            Dynamic::Int32(_) => Type::Int32,
            Dynamic::Int64(_) => Type::Int64,
            Dynamic::Float32Bits(_) => Type::Float32,
            Dynamic::Float64Bits(_) => Type::Float64,
        }
    }

    /// Returns the type tag of this value.
    pub fn get_type(&self) -> (t: Type)
        ensures
            t == self.ty(),
    {
        match self {
            Dynamic::Int32(_) => Type::Int32,
            Dynamic::Int64(_) => Type::Int64,
            Dynamic::Float32Bits(_) => Type::Float32,
            Dynamic::Float64Bits(_) => Type::Float64,
        }
    }

    /// The zero value of a type: what a declared local slot holds before
    /// anything is stored into it.
    pub open spec fn zero_of(t: Type) -> Dynamic {
        match t {
            Type::Int32 => Dynamic::Int32(0),
            Type::Int64 => Dynamic::Int64(0),
            Type::Float32 => Dynamic::Float32Bits(0),
            Type::Float64 => Dynamic::Float64Bits(0),
        }
    }

    /// Returns the zero value of the given type.
    pub fn default_for(t: Type) -> (v: Dynamic)
        ensures
            v == Self::zero_of(t),
    {
        match t {
            Type::Int32 => Dynamic::Int32(0),
            Type::Int64 => Dynamic::Int64(0),
            Type::Float32 => Dynamic::Float32Bits(0),
            Type::Float64 => Dynamic::Float64Bits(0),
        }
    }

    /// Builds a 32-bit integer value from a signed integer: the value holds
    /// its two's-complement bit pattern.
    pub fn from_i32(v: i32) -> (r: Dynamic)
        ensures
            r == Dynamic::Int32(v as u32),
    {
        Dynamic::Int32(v as u32)
    }

    /// Builds a 32-bit integer value from an unsigned integer.
    pub fn from_u32(v: u32) -> (r: Dynamic)
        ensures
            r == Dynamic::Int32(v),
    {
        Dynamic::Int32(v)
    }

    /// Builds a 64-bit integer value from a signed integer: the value holds
    /// its two's-complement bit pattern.
    pub fn from_i64(v: i64) -> (r: Dynamic)
        ensures
            r == Dynamic::Int64(v as u64),
    {
        Dynamic::Int64(v as u64)
    }

    /// Builds a 64-bit integer value from an unsigned integer.
    pub fn from_u64(v: u64) -> (r: Dynamic)
        ensures
            r == Dynamic::Int64(v),
    {
        Dynamic::Int64(v)
    }
}

/// The mathematical value of a 32-bit pattern read as a two's-complement
/// signed integer.
pub open spec fn sgn32(x: u32) -> int {
    (x as i32) as int
}

/// The mathematical value of a 64-bit pattern read as a two's-complement
/// signed integer.
pub open spec fn sgn64(x: u64) -> int {
    (x as i64) as int
}

/// Characterizes the signed reading of a 32-bit pattern: patterns below
/// the sign bit keep their unsigned value, the rest are shifted down by
/// one full range.
pub proof fn lemma_sgn32(x: u32)
    ensures
        x < 0x8000_0000 ==> sgn32(x) == x,
        x >= 0x8000_0000 ==> sgn32(x) == x - 0x1_0000_0000,
        (sgn32(x) as i32) as u32 == x,
{
    assert(x < 0x8000_0000 ==> (x as i32) == x) by (bit_vector);
    assert(x >= 0x8000_0000 ==> (x as i32) == x - 0x1_0000_0000) by (bit_vector);
    assert(((x as i32) as u32) == x) by (bit_vector);
}

/// Characterizes the signed reading of a 64-bit pattern.
pub proof fn lemma_sgn64(x: u64)
    ensures
        x < 0x8000_0000_0000_0000 ==> sgn64(x) == x,
        x >= 0x8000_0000_0000_0000 ==> sgn64(x) == x - 0x1_0000_0000_0000_0000,
        (sgn64(x) as i64) as u64 == x,
{
    assert(x < 0x8000_0000_0000_0000 ==> (x as i64) == x) by (bit_vector);
    assert(x >= 0x8000_0000_0000_0000 ==> (x as i64) == x - 0x1_0000_0000_0000_0000)
        by (bit_vector);
    assert(((x as i64) as u64) == x) by (bit_vector);
}

/// Round trip of a signed 32-bit value through its bit pattern.
pub proof fn lemma_i32_roundtrip(y: i32)
    ensures
        (y as u32) as i32 == y,
        sgn32(y as u32) == y,
{
    assert((y as u32) as i32 == y) by (bit_vector);
}

/// Round trip of a signed 64-bit value through its bit pattern.
pub proof fn lemma_i64_roundtrip(y: i64)
    ensures
        (y as u64) as i64 == y,
        sgn64(y as u64) == y,
{
    assert((y as u64) as i64 == y) by (bit_vector);
}

} // verus!
