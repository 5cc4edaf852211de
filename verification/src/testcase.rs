//! Invocation requests and assertions against a module.
//!
//! A driver (for instance, a reader of a textual test script) builds a
//! [`TestCase`]: a module together with a list of expectations, each an
//! invocation whose result must equal a given value or must be a trap.
//! Running the case checks every expectation against the engine.

use vstd::prelude::*;

use crate::interp::{invoke_spec, Instance, InterpError, InterpResult};
use crate::module::{find_spec, Module};
use crate::types::Dynamic;

verus! {

/// A request to invoke an exported function with a list of arguments.
#[derive(Clone, Debug)]
pub struct Invoke {
    pub function_name: Vec<u8>,
    pub arguments: Vec<Dynamic>,
}

impl Invoke {
    /// The result this request yields against a module: the first export
    /// matching the name is resolved, and the invocation runs against it.
    pub open spec fn run_spec(self, m: Module) -> Result<InterpResult, InterpError> {
        match find_spec(m.exports@, self.function_name@) {
            Some(idx) => invoke_spec(m, idx, self.arguments@),
            None => Err(InterpError::UnknownExport),
        }
    }

    /// Resolves the export name and runs the invocation.
    pub fn run(&self, instance: &Instance) -> (r: Result<InterpResult, InterpError>)
        ensures
            r == self.run_spec(*instance.module),
    {
        match instance.module.find(self.function_name.as_slice()) {
            Some(idx) => instance.invoke(idx, self.arguments.as_slice()),
            None => Err(InterpError::UnknownExport),
        }
    }
}

/// One expectation: the invocation returns exactly the given value, or it
/// traps.
#[derive(Clone, Debug)]
pub enum Assert {
    Return(Invoke, Dynamic),
    Trap(Invoke),
}

impl Assert {
    /// Whether the expectation holds against a module.  A usage error
    /// (unknown export, bad signature, ill-formed body) satisfies neither
    /// kind of expectation.
    pub open spec fn passes(self, m: Module) -> bool {
        match self {
            Assert::Return(inv, expected) => inv.run_spec(m) == Ok::<InterpResult, InterpError>(
                InterpResult::Value(Some(expected)),
            ),
            Assert::Trap(inv) => inv.run_spec(m) == Ok::<InterpResult, InterpError>(
                InterpResult::Trap,
            ),
        }
    }

    /// Checks the expectation against an instance.
    pub fn run(&self, instance: &Instance) -> (r: bool)
        ensures
            r == self.passes(*instance.module),
    {
        match self {
            Assert::Return(inv, expected) => match inv.run(instance) {
                Ok(InterpResult::Value(Some(v))) => v == *expected,
                _ => false,
            },
            Assert::Trap(inv) => match inv.run(instance) {
                Ok(InterpResult::Trap) => true,
                _ => false,
            },
        }
    }
}

/// A module together with the expectations to check against it.
#[derive(Debug)]
pub struct TestCase {
    pub module: Module,
    pub asserts: Vec<Assert>,
}

impl TestCase {
    /// Whether every expectation of the case holds against its module.
    pub open spec fn all_pass(self) -> bool {
        forall|i: int| 0 <= i < self.asserts@.len() ==> (#[trigger] self.asserts@[i]).passes(
            self.module,
        )
    }

    /// Instantiates the module once and checks every expectation in order,
    /// reporting whether all of them hold.
    pub fn run_all(&self) -> (r: bool)
        ensures
            r == self.all_pass(),
    {
        let instance = Instance::new(&self.module);
        let mut i: usize = 0;
        while i < self.asserts.len()
            invariant
                i <= self.asserts@.len(),
                instance.module == &self.module,
                forall|j: int| 0 <= j < i ==> (#[trigger] self.asserts@[j]).passes(self.module),
            decreases self.asserts@.len() - i,
        {
            let a = &self.asserts[i];
            if !a.run(&instance) {
                return false;
            }
            i = i + 1;
        }
        true
    }
}

} // verus!
