//! The module data model: functions, exports, and export resolution.
//!
//! A [`Module`] is an ordered list of functions (the index is the
//! function's identity) plus an export table mapping byte-string names to
//! function indices.  It is built once, by pushing functions and exports,
//! and is read-only thereafter: an instance never mutates the module it
//! executes.

use vstd::prelude::*;

use crate::ops::NormalOp;
use crate::types::Type;

verus! {

/// The index of a function within its module.
#[derive(Clone, Copy, Debug, PartialEq, Eq, Structural)]
pub struct FunctionIndex(pub usize);

/// A function's type signature: ordered parameter types and an optional
/// return type.
#[derive(Clone, Debug)]
pub struct FuncType {
    pub param_types: Vec<Type>,
    pub return_type: Option<Type>,
}

impl FuncType {
    /// Builds an empty signature: no parameters, no return type.
    pub fn new() -> (r: FuncType)
        ensures
            r.param_types@ == Seq::<Type>::empty(),
            r.return_type is None,
    {
        FuncType { param_types: Vec::new(), return_type: None }
    }
}

/// A function: its signature, the types of its declared local slots (which
/// live in the slots numbered immediately after the last parameter), and
/// its instruction sequence.
#[derive(Clone, Debug)]
pub struct Function {
    pub ty: FuncType,
    pub local_types: Vec<Type>,
    pub ops: Vec<NormalOp>,
}

/// An incrementally filled [`Function`]: a builder appends parameter and
/// local types and instructions, then hands the finished function to a
/// module.
#[derive(Debug)]
pub struct FunctionBuilder {
    pub ty: FuncType,
    pub local_types: Vec<Type>,
    pub ops: Vec<NormalOp>,
}

impl FunctionBuilder {
    /// Starts a function with an empty signature, no locals and no body.
    pub fn new() -> (r: FunctionBuilder)
        ensures
            r.ty.param_types@ == Seq::<Type>::empty(),
            r.ty.return_type is None,
            r.local_types@ == Seq::<Type>::empty(),
            r.ops@ == Seq::<NormalOp>::empty(),
    {
        FunctionBuilder { ty: FuncType::new(), local_types: Vec::new(), ops: Vec::new() }
    }

    /// Finishes the function exactly as built.
    pub fn build(self) -> (r: Function)
        ensures
            r.ty.param_types@ == self.ty.param_types@,
            r.ty.return_type == self.ty.return_type,
            r.local_types@ == self.local_types@,
            r.ops@ == self.ops@,
    {
        Function { ty: self.ty, local_types: self.local_types, ops: self.ops }
    }
}

/// An export: an externally visible byte-string name mapped to a function
/// index.  Names need not be unique; resolution takes the first match in
/// declared order.
#[derive(Clone, Debug)]
pub struct Export {
    pub function_name: Vec<u8>,
    pub function_index: FunctionIndex,
}

/// A module: the unit of loading.  `functions` is the ordered function
/// list; `exports` maps names to indices into it.
#[derive(Debug)]
pub struct Module {
    pub functions: Vec<Function>,
    pub exports: Vec<Export>,
}

/// The index of the first export whose name is `name`, searching `exports`
/// from position `i` in declared order.
pub open spec fn find_from(exports: Seq<Export>, name: Seq<u8>, i: int) -> Option<FunctionIndex>
    decreases exports.len() - i,
{
    if i < 0 || i >= exports.len() {
        None
    } else if exports[i].function_name@ == name {
        Some(exports[i].function_index)
    } else {
        find_from(exports, name, i + 1)
    }
}

/// First-match export resolution over a whole export table.
pub open spec fn find_spec(exports: Seq<Export>, name: Seq<u8>) -> Option<FunctionIndex> {
    find_from(exports, name, 0)
}

/// Compares two byte strings.
fn bytes_eq(a: &[u8], b: &[u8]) -> (r: bool)
    ensures
        r == (a@ == b@),
{
    if a.len() != b.len() {
        proof {
            assert(a@.len() != b@.len());
        }
        return false;
    }
    let mut i: usize = 0;
    while i < a.len()
        invariant
            i <= a@.len(),
            a@.len() == b@.len(),
            forall|j: int| 0 <= j < i ==> a@[j] == b@[j],
        decreases a@.len() - i,
    {
        if a[i] != b[i] {
            return false;
        }
        i = i + 1;
    }
    proof {
        assert(a@ =~= b@);
    }
    true
}

impl Module {
    /// Starts an empty module: no functions, no exports.
    pub fn new() -> (r: Module)
        ensures
            r.functions@ == Seq::<Function>::empty(),
            r.exports@ == Seq::<Export>::empty(),
    {
        Module { functions: Vec::new(), exports: Vec::new() }
    }

    /// Every export refers to a function the module actually holds.
    pub open spec fn wf(self) -> bool {
        forall|i: int|
            0 <= i < self.exports@.len() ==> (#[trigger] self.exports@[i]).function_index.0
                < self.functions@.len()
    }

    /// Checks that every export's function index is within bounds of the
    /// function list.
    pub fn validate(&self) -> (r: bool)
        ensures
            r == self.wf(),
    {
        let mut i: usize = 0;
        while i < self.exports.len()
            invariant
                i <= self.exports@.len(),
                forall|j: int|
                    0 <= j < i ==> (#[trigger] self.exports@[j]).function_index.0
                        < self.functions@.len(),
            decreases self.exports@.len() - i,
        {
            if self.exports[i].function_index.0 >= self.functions.len() {
                return false;
            }
            i = i + 1;
        }
        true
    }

    /// Resolves an external name against the export table in declared
    /// order, returning the first match.
    pub fn find(&self, name: &[u8]) -> (r: Option<FunctionIndex>)
        ensures
            r == find_spec(self.exports@, name@),
    {
        let mut i: usize = 0;
        while i < self.exports.len()
            invariant
                i <= self.exports@.len(),
                find_spec(self.exports@, name@) == find_from(self.exports@, name@, i as int),
            decreases self.exports@.len() - i,
        {
            if bytes_eq(self.exports[i].function_name.as_slice(), name) {
                return Some(self.exports[i].function_index);
            }
            i = i + 1;
        }
        None
    }

    /// A resolved index is in bounds whenever the module is well formed.
    pub proof fn lemma_find_in_bounds(self, name: Seq<u8>)
        requires
            self.wf(),
            find_spec(self.exports@, name) is Some,
        ensures
            find_spec(self.exports@, name)->Some_0.0 < self.functions@.len(),
    {
        self.lemma_find_from_in_bounds(name, 0);
    }

    proof fn lemma_find_from_in_bounds(self, name: Seq<u8>, i: int)
        requires
            self.wf(),
            find_from(self.exports@, name, i) is Some,
        ensures
            find_from(self.exports@, name, i)->Some_0.0 < self.functions@.len(),
        decreases self.exports@.len() - i,
    {
        if 0 <= i < self.exports@.len() {
            if self.exports@[i].function_name@ == name {
            } else {
                self.lemma_find_from_in_bounds(name, i + 1);
            }
        }
    }
}

} // verus!
