//! A minimal execution engine for a stack-based bytecode module format.
//!
//! A [`module::Module`] holds an ordered list of functions (each a type
//! signature, declared local slots, and a flat instruction sequence)
//! together with an export table mapping byte-string names to function
//! indices.  An [`interp::Instance`] binds a module and executes
//! invocations against it: each call runs the function body over a fresh
//! operand stack and locals array and yields a typed value, no value, or a
//! trap.
//!
//! The integer instruction subset (local access, return, wrapping
//! arithmetic, trapping division, shifts, rotations, bit counts,
//! comparisons) is implemented and verified against a functional
//! specification of the machine; the remaining instruction vocabulary is
//! accepted as explicit no-ops.  [`testcase`] holds invocation requests
//! and assertions a driver can run against a module, and [`text`] reads
//! value types and integer literals out of byte strings for such a driver.

pub mod interp;
pub mod module;
pub mod ops;
pub mod testcase;
pub mod text;
pub mod types;
