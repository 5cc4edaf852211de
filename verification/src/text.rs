//! Verified helpers for a textual front end: reading value types and
//! integer literals out of byte strings.
//!
//! A literal is the decimal digits of an unsigned value, `0x` followed by
//! hexadecimal digits, or `-` followed by the decimal digits of a
//! magnitude; a negative value is stored as its two's-complement bit
//! pattern.  Malformed or out-of-range literals are rejected, never
//! wrapped.

use vstd::prelude::*;

use crate::types::{Dynamic, IntType, Type};

verus! {

/// The value of one digit character, or 16 for a byte that is no digit in
/// any supported base.
pub open spec fn digit_of(c: u8) -> int {
    if 0x30 <= c <= 0x39 {
        c - 0x30
    } else if 0x61 <= c <= 0x66 {
        c - 0x61 + 10
    } else if 0x41 <= c <= 0x46 {
        c - 0x41 + 10
    } else {
        16
    }
}

/// Whether a byte is a digit of the given base.
pub open spec fn is_digit(c: u8, radix: int) -> bool {
    digit_of(c) < radix
}

/// Whether every byte of the string is a digit of the given base.
pub open spec fn all_digits(s: Seq<u8>, radix: int) -> bool {
    forall|i: int| 0 <= i < s.len() ==> is_digit(#[trigger] s[i], radix)
}

/// The numeric value of a digit string in the given base, most significant
/// digit first.
pub open spec fn radix_val(s: Seq<u8>, radix: int) -> int
    decreases s.len(),
{
    if s.len() == 0 {
        0
    } else {
        radix_val(s.drop_last(), radix) * radix + digit_of(s.last())
    }
}

/// Digit-string values are never negative.
pub proof fn lemma_radix_val_nonneg(s: Seq<u8>, radix: int)
    requires
        radix >= 1,
    ensures
        radix_val(s, radix) >= 0,
    decreases s.len(),
{
    if s.len() > 0 {
        lemma_radix_val_nonneg(s.drop_last(), radix);
        assert(radix_val(s.drop_last(), radix) * radix >= 0) by (nonlinear_arith)
            requires
                radix_val(s.drop_last(), radix) >= 0,
                radix >= 1,
        ;
    }
}

/// A digit string is worth at least any of its prefixes: appending digits
/// never shrinks the value.
pub proof fn lemma_radix_val_prefix_le(s: Seq<u8>, radix: int, i: int)
    requires
        radix >= 1,
        0 <= i <= s.len(),
    ensures
        radix_val(s.subrange(0, i), radix) <= radix_val(s, radix),
    decreases s.len() - i,
{
    if i == s.len() {
        assert(s.subrange(0, i) =~= s);
    } else {
        let p = s.subrange(0, i);
        let p1 = s.subrange(0, i + 1);
        assert(p1.drop_last() =~= p);
        lemma_radix_val_nonneg(p, radix);
        assert(radix_val(p, radix) <= radix_val(p, radix) * radix) by (nonlinear_arith)
            requires
                radix_val(p, radix) >= 0,
                radix >= 1,
        ;
        lemma_radix_val_prefix_le(s, radix, i + 1);
    }
}

/// What parsing the digits of `s` from position `start` on yields: the
/// value, when the digits are nonempty, well formed for the base, and fit
/// the accumulator width.
pub open spec fn parse_radix_spec(s: Seq<u8>, start: int, radix: int) -> Option<u64> {
    let digits = s.subrange(start, s.len() as int);
    if digits.len() > 0 && all_digits(digits, radix) && radix_val(digits, radix) <= u64::MAX {
        Some(radix_val(digits, radix) as u64)
    } else {
        None
    }
}

/// Returns the digit value of a byte, or 16 where it is no digit.
fn digit_of_exec(c: u8) -> (d: u8)
    ensures
        d == digit_of(c),
{
    if 0x30 <= c && c <= 0x39 {
        c - 0x30
    } else if 0x61 <= c && c <= 0x66 {
        c - 0x61 + 10
    } else if 0x41 <= c && c <= 0x46 {
        c - 0x41 + 10
    } else {
        16
    }
}

/// Parses the bytes of `s` from position `start` on as digits of the given
/// base, rejecting an empty digit string, a non-digit, and a value that
/// overflows the accumulator.
fn parse_radix(s: &[u8], start: usize, radix: u64) -> (r: Option<u64>)
    requires
        radix == 10 || radix == 16,
        start <= s@.len(),
    ensures
        r == parse_radix_spec(s@, start as int, radix as int),
{
    let ghost digits = s@.subrange(start as int, s@.len() as int);
    if start == s.len() {
        return None;
    }
    let mut acc: u64 = 0;
    let mut i: usize = start;
    while i < s.len()
        invariant
            start <= i <= s@.len(),
            radix == 10 || radix == 16,
            digits == s@.subrange(start as int, s@.len() as int),
            all_digits(digits.subrange(0, i - start), radix as int),
            acc == radix_val(digits.subrange(0, i - start), radix as int),
        decreases s@.len() - i,
    {
        let d = digit_of_exec(s[i]);
        let ghost prefix = digits.subrange(0, i - start);
        let ghost prefix1 = digits.subrange(0, i + 1 - start);
        proof {
            assert(prefix1.drop_last() =~= prefix);
            assert(prefix1.last() == s@[i as int]);
        }
        if d as u64 >= radix {
            proof {
                assert(!is_digit(digits[i - start], radix as int));
            }
            return None;
        }
        let next = match acc.checked_mul(radix) {
            Some(t) => t.checked_add(d as u64),
            None => None,
        };
        match next {
            Some(v) => {
                acc = v;
            },
            None => {
                // The value of the digits seen so far already exceeds the
                // accumulator, and further digits only grow it.
                proof {
                    assert(radix_val(prefix1, radix as int) > u64::MAX);
                    lemma_radix_val_prefix_le(digits, radix as int, i + 1 - start);
                }
                return None;
            },
        }
        i = i + 1;
    }
    proof {
        assert(digits.subrange(0, s@.len() - start) =~= digits);
    }
    Some(acc)
}

/// What parsing an integer literal yields: `-` introduces a decimal
/// magnitude stored as its two's-complement pattern, `0x` introduces
/// hexadecimal digits, and anything else must be decimal digits; the value
/// must fit the width.
pub open spec fn parse_int_spec(s: Seq<u8>, ty: IntType) -> Option<Dynamic> {
    match ty {
        IntType::Int32 => if s.len() > 0 && s[0] == 0x2D {
            match parse_radix_spec(s, 1, 10) {
                Some(mag) => if mag <= 0x8000_0000 {
                    Some(
                        Dynamic::Int32(
                            if mag == 0 {
                                0u32
                            } else {
                                (0x1_0000_0000 - mag) as u32
                            },
                        ),
                    )
                } else {
                    None
                },
                None => None,
            }
        } else if s.len() >= 2 && s[0] == 0x30 && s[1] == 0x78 {
            match parse_radix_spec(s, 2, 16) {
                Some(v) => if v <= u32::MAX {
                    Some(Dynamic::Int32(v as u32))
                } else {
                    None
                },
                None => None,
            }
        } else {
            match parse_radix_spec(s, 0, 10) {
                Some(v) => if v <= u32::MAX {
                    Some(Dynamic::Int32(v as u32))
                } else {
                    None
                },
                None => None,
            }
        },
        IntType::Int64 => if s.len() > 0 && s[0] == 0x2D {
            match parse_radix_spec(s, 1, 10) {
                Some(mag) => if mag <= 0x8000_0000_0000_0000 {
                    Some(
                        Dynamic::Int64(
                            if mag == 0 {
                                0u64
                            } else {
                                (0x1_0000_0000_0000_0000 - mag) as u64
                            },
                        ),
                    )
                } else {
                    None
                },
                None => None,
            }
        } else if s.len() >= 2 && s[0] == 0x30 && s[1] == 0x78 {
            match parse_radix_spec(s, 2, 16) {
                Some(v) => Some(Dynamic::Int64(v)),
                None => None,
            }
        } else {
            match parse_radix_spec(s, 0, 10) {
                Some(v) => Some(Dynamic::Int64(v)),
                None => None,
            }
        },
    }
}

/// Parses an integer literal of the given width out of a byte string.
pub fn parse_int(text: &[u8], ty: IntType) -> (r: Option<Dynamic>)
    ensures
        r == parse_int_spec(text@, ty),
{
    match ty {
        IntType::Int32 => {
            if text.len() > 0 && text[0] == 0x2D {
                match parse_radix(text, 1, 10) {
                    Some(mag) => {
                        if mag <= 0x8000_0000 {
                            Some(
                                Dynamic::Int32(
                                    if mag == 0 {
                                        0u32
                                    } else {
                                        (0x1_0000_0000 - mag) as u32
                                    },
                                ),
                            )
                        } else {
                            None
                        }
                    },
                    None => None,
                }
            } else if text.len() >= 2 && text[0] == 0x30 && text[1] == 0x78 {
                match parse_radix(text, 2, 16) {
                    Some(v) => {
                        if v <= u32::MAX as u64 {
                            Some(Dynamic::Int32(v as u32))
                        } else {
                            None
                        }
                    },
                    None => None,
                }
            } else {
                match parse_radix(text, 0, 10) {
                    Some(v) => {
                        if v <= u32::MAX as u64 {
                            Some(Dynamic::Int32(v as u32))
                        } else {
                            None
                        }
                    },
                    None => None,
                }
            }
        },
        IntType::Int64 => {
            if text.len() > 0 && text[0] == 0x2D {
                match parse_radix(text, 1, 10) {
                    Some(mag) => {
                        if mag <= 0x8000_0000_0000_0000 {
                            Some(
                                Dynamic::Int64(
                                    if mag == 0 {
                                        0u64
                                    } else {
                                        u64::MAX - mag + 1
                                    },
                                ),
                            )
                        } else {
                            None
                        }
                    },
                    None => None,
                }
            } else if text.len() >= 2 && text[0] == 0x30 && text[1] == 0x78 {
                match parse_radix(text, 2, 16) {
                    Some(v) => Some(Dynamic::Int64(v)),
                    None => None,
                }
            } else {
                match parse_radix(text, 0, 10) {
                    Some(v) => Some(Dynamic::Int64(v)),
                    None => None,
                }
            }
        },
    }
}

/// What reading a value-type name yields.
pub open spec fn parse_type_spec(s: Seq<u8>) -> Option<Type> {
    if s == seq![0x69u8, 0x33u8, 0x32u8] {
        Some(Type::Int32)
    } else if s == seq![0x69u8, 0x36u8, 0x34u8] {
        Some(Type::Int64)
    } else if s == seq![0x66u8, 0x33u8, 0x32u8] {
        Some(Type::Float32)
    } else if s == seq![0x66u8, 0x36u8, 0x34u8] {
        Some(Type::Float64)
    } else {
        None
    }
}

/// Reads a value-type name (`i32`, `i64`, `f32`, `f64`) out of a byte
/// string.
pub fn parse_type(text: &[u8]) -> (r: Option<Type>)
    ensures
        r == parse_type_spec(text@),
{
    if text.len() != 3 {
        proof {
            assert(text@ != seq![0x69u8, 0x33u8, 0x32u8]);
            assert(text@ != seq![0x69u8, 0x36u8, 0x34u8]);
            assert(text@ != seq![0x66u8, 0x33u8, 0x32u8]);
            assert(text@ != seq![0x66u8, 0x36u8, 0x34u8]);
        }
        return None;
    }
    let c0 = text[0];
    let c1 = text[1];
    let c2 = text[2];
    let r = if c0 == 0x69 && c1 == 0x33 && c2 == 0x32 {
        Some(Type::Int32)
    } else if c0 == 0x69 && c1 == 0x36 && c2 == 0x34 {
        Some(Type::Int64)
    } else if c0 == 0x66 && c1 == 0x33 && c2 == 0x32 {
        Some(Type::Float32)
    } else if c0 == 0x66 && c1 == 0x36 && c2 == 0x34 {
        Some(Type::Float64)
    } else {
        None
    };
    proof {
        if c0 == 0x69 && c1 == 0x33 && c2 == 0x32 {
            assert(text@ =~= seq![0x69u8, 0x33u8, 0x32u8]);
        } else if c0 == 0x69 && c1 == 0x36 && c2 == 0x34 {
            assert(text@ =~= seq![0x69u8, 0x36u8, 0x34u8]);
        } else if c0 == 0x66 && c1 == 0x33 && c2 == 0x32 {
            assert(text@ =~= seq![0x66u8, 0x33u8, 0x32u8]);
        } else if c0 == 0x66 && c1 == 0x36 && c2 == 0x34 {
            assert(text@ =~= seq![0x66u8, 0x36u8, 0x34u8]);
        } else {
            assert(text@ != seq![0x69u8, 0x33u8, 0x32u8]);
            assert(text@ != seq![0x69u8, 0x36u8, 0x34u8]);
            assert(text@ != seq![0x66u8, 0x33u8, 0x32u8]);
            assert(text@ != seq![0x66u8, 0x36u8, 0x34u8]);
        }
    }
    r
}

} // verus!
