//! The execution engine: a value-stack machine over a module's functions.
//!
//! The meaning of an invocation is pinned down by the specification
//! interpreter [`run_from`]: a total function from an instruction sequence
//! and a frame (program counter, operand stack, locals) to an [`Outcome`].
//! The executable engine is verified to return exactly what the
//! specification interpreter says, for every module and argument list.

use vstd::prelude::*;
use vstd::pervasive::VecAdditionalExecFns;

use crate::module::{FunctionIndex, Module};
use crate::ops::{
    cmp32_holds, cmp64_holds, cmp_result, eval_bin32, eval_bin32_exec, eval_bin64, eval_bin64_exec,
    eval_cmp32_exec, eval_cmp64_exec, eval_un32, eval_un32_exec, eval_un64, eval_un64_exec,
    IntBinOp, NormalOp,
};
use crate::types::{Dynamic, IntType, Type};

verus! {

/// The result of one invocation: a value of the function's return type,
/// the absence of a value, or a trap.
#[derive(Clone, Copy, Debug, PartialEq, Eq)]
pub enum InterpResult {
    /// Successful completion, with the returned value if there is one.
    Value(Option<Dynamic>),
    /// A defined runtime failure: division by zero, or signed-overflow
    /// division.
    Trap,
}

/// A usage or construction error: the invocation never ran, because the
/// request or the function body violates an invariant a collaborator was
/// to guarantee.  Distinct from [`InterpResult::Trap`], which is a defined
/// runtime outcome.
#[derive(Clone, Copy, Debug, PartialEq, Eq, Structural)]
pub enum InterpError {
    /// The requested function index is out of bounds of the module.
    BadFunctionIndex,
    /// The argument list does not match the function's parameter types.
    SignatureMismatch,
    /// The body pops an empty stack, addresses a missing local slot, or
    /// applies an integer operation to operands of the wrong type.
    IllFormedBody,
    /// An export name resolved to no export of the module.
    UnknownExport,
}

/// What executing a function body from some frame yields: completion with
/// an optional result value, a trap, or `Stuck` when the body is ill
/// formed (stack underflow, missing local slot, operand type mismatch).
#[derive(Clone, Copy, Debug)]
pub enum Outcome {
    Done(Option<Dynamic>),
    Trap,
    Stuck,
}

/// Whether two operands fit an integer instruction of width `ty`.
pub open spec fn bin_operands_ok(ty: IntType, lhs: Dynamic, rhs: Dynamic) -> bool {
    lhs.ty() == ty.to_type() && rhs.ty() == ty.to_type()
}

/// The value a binary integer instruction pushes, or `None` on its trap
/// condition.  Meaningful only for operands of the instruction's width.
pub open spec fn eval_bin_dyn(ty: IntType, op: IntBinOp, lhs: Dynamic, rhs: Dynamic) -> Option<
    Dynamic,
> {
    match (ty, lhs, rhs) {
        (IntType::Int32, Dynamic::Int32(a), Dynamic::Int32(b)) => match eval_bin32(op, a, b) {
            Some(v) => Some(Dynamic::Int32(v)),
            None => None,
        },
        (IntType::Int64, Dynamic::Int64(a), Dynamic::Int64(b)) => match eval_bin64(op, a, b) {
            Some(v) => Some(Dynamic::Int64(v)),
            None => None,
        },
        _ => None,
    }
}

/// The value a unary bit-count instruction pushes.  Meaningful only for an
/// operand of the instruction's width.
pub open spec fn eval_un_dyn(ty: IntType, op: crate::ops::IntUnOp, v: Dynamic) -> Dynamic {
    match (ty, v) {
        (IntType::Int32, Dynamic::Int32(a)) => Dynamic::Int32(eval_un32(op, a)),
        (IntType::Int64, Dynamic::Int64(a)) => Dynamic::Int64(eval_un64(op, a)),
        _ => v,
    }
}

/// The 32-bit value a comparison instruction pushes: 1 for true, 0 for
/// false.  Meaningful only for operands of the instruction's width.
pub open spec fn eval_cmp_dyn(ty: IntType, op: crate::ops::IntCmpOp, lhs: Dynamic, rhs: Dynamic) -> Dynamic {
    match (ty, lhs, rhs) {
        (IntType::Int32, Dynamic::Int32(a), Dynamic::Int32(b)) => Dynamic::Int32(
            cmp_result(cmp32_holds(op, a, b)),
        ),
        (IntType::Int64, Dynamic::Int64(a), Dynamic::Int64(b)) => Dynamic::Int32(
            cmp_result(cmp64_holds(op, a, b)),
        ),
        _ => lhs,
    }
}

/// The 32-bit value a zero test pushes: 1 when the operand is the zero
/// value of its type, else 0.
pub open spec fn eval_eqz_dyn(ty: IntType, v: Dynamic) -> Dynamic {
    match (ty, v) {
        (IntType::Int32, Dynamic::Int32(a)) => Dynamic::Int32(cmp_result(a == 0)),
        (IntType::Int64, Dynamic::Int64(a)) => Dynamic::Int32(cmp_result(a == 0)),
        _ => v,
    }
}

/// The specification interpreter: what executing `ops` from instruction
/// `pc` over the given operand stack and locals yields.  Execution is a
/// single pass: it halts at the first `Return`, or completes with no value
/// upon falling off the end of the sequence.
pub open spec fn run_from(
    ops: Seq<NormalOp>,
    pc: int,
    stack: Seq<Dynamic>,
    locals: Seq<Dynamic>,
) -> Outcome
    decreases ops.len() - pc,
{
    if pc < 0 || pc >= ops.len() {
        Outcome::Done(None)
    } else {
        match ops[pc] {
            NormalOp::Nop => run_from(ops, pc + 1, stack, locals),
            NormalOp::GetLocal(slot) => if slot < locals.len() {
                run_from(ops, pc + 1, stack.push(locals[slot as int]), locals)
            } else {
                Outcome::Stuck
            },
            NormalOp::SetLocal(slot) => if slot < locals.len() && stack.len() > 0 {
                run_from(
                    ops,
                    pc + 1,
                    stack.drop_last(),
                    locals.update(slot as int, stack.last()),
                )
            } else {
                Outcome::Stuck
            },
            NormalOp::TeeLocal(slot) => if slot < locals.len() && stack.len() > 0 {
                run_from(ops, pc + 1, stack, locals.update(slot as int, stack.last()))
            } else {
                Outcome::Stuck
            },
            NormalOp::Return { has_arg } => if has_arg {
                if stack.len() > 0 {
                    Outcome::Done(Some(stack.last()))
                } else {
                    Outcome::Stuck
                }
            } else {
                Outcome::Done(None)
            },
            NormalOp::IntBin(ty, op) => if stack.len() >= 2 && bin_operands_ok(
                ty,
                stack[stack.len() - 2],
                stack.last(),
            ) {
                match eval_bin_dyn(ty, op, stack[stack.len() - 2], stack.last()) {
                    Some(v) => run_from(
                        ops,
                        pc + 1,
                        stack.drop_last().drop_last().push(v),
                        locals,
                    ),
                    None => Outcome::Trap,
                }
            } else {
                Outcome::Stuck
            },
            NormalOp::IntUn(ty, op) => if stack.len() >= 1 && stack.last().ty() == ty.to_type() {
                run_from(
                    ops,
                    pc + 1,
                    stack.drop_last().push(eval_un_dyn(ty, op, stack.last())),
                    locals,
                )
            } else {
                Outcome::Stuck
            },
            NormalOp::IntCmp(ty, op) => if stack.len() >= 2 && bin_operands_ok(
                ty,
                stack[stack.len() - 2],
                stack.last(),
            ) {
                run_from(
                    ops,
                    pc + 1,
                    stack.drop_last().drop_last().push(
                        eval_cmp_dyn(ty, op, stack[stack.len() - 2], stack.last()),
                    ),
                    locals,
                )
            } else {
                Outcome::Stuck
            },
            NormalOp::IntEqz(ty) => if stack.len() >= 1 && stack.last().ty() == ty.to_type() {
                run_from(
                    ops,
                    pc + 1,
                    stack.drop_last().push(eval_eqz_dyn(ty, stack.last())),
                    locals,
                )
            } else {
                Outcome::Stuck
            },
        }
    }
}

/// Whether an argument list fits a parameter signature: same length, and
/// each argument's type matches the declared type at its position.
pub open spec fn args_match(args: Seq<Dynamic>, params: Seq<Type>) -> bool {
    &&& args.len() == params.len()
    &&& forall|i: int| 0 <= i < args.len() ==> (#[trigger] args[i]).ty() == params[i]
}

/// The locals array of a fresh frame: the arguments, copied in by
/// position, followed by the zero value of each declared local type.
pub open spec fn init_locals(args: Seq<Dynamic>, local_types: Seq<Type>) -> Seq<Dynamic> {
    args + local_types.map_values(|t: Type| Dynamic::zero_of(t))
}

/// What executing a whole function on an argument list yields: the body is
/// run over an empty operand stack and a fresh locals array.
pub open spec fn run_function(f: crate::module::Function, args: Seq<Dynamic>) -> Outcome {
    run_from(f.ops@, 0, Seq::empty(), init_locals(args, f.local_types@))
}

/// The complete meaning of an invocation against a module: which requests
/// are errors, and for the rest, the result the specification interpreter
/// assigns.
pub open spec fn invoke_spec(m: Module, func: FunctionIndex, args: Seq<Dynamic>) -> Result<
    InterpResult,
    InterpError,
> {
    if func.0 >= m.functions@.len() {
        Err(InterpError::BadFunctionIndex)
    } else if !args_match(args, m.functions@[func.0 as int].ty.param_types@) {
        Err(InterpError::SignatureMismatch)
    } else {
        match run_function(m.functions@[func.0 as int], args) {
            Outcome::Done(v) => Ok(InterpResult::Value(v)),
            Outcome::Trap => Ok(InterpResult::Trap),
            Outcome::Stuck => Err(InterpError::IllFormedBody),
        }
    }
}

/// An instance binds a module and executes invocations against it.  It
/// carries no state of its own between invocations: every call runs over a
/// fresh frame, and the module is never mutated.
pub struct Instance<'a> {
    pub module: &'a Module,
}

impl<'a> Instance<'a> {
    /// Binds an already-built module, ready to receive invocations.
    pub fn new(module: &'a Module) -> (r: Instance<'a>)
        ensures
            r.module == module,
    {
        Instance { module }
    }

    /// Runs one invocation: checks the request, allocates a fresh frame
    /// with the arguments copied into the first local slots and the
    /// declared locals zero-initialized, and executes the body.  Returns
    /// exactly what the specification interpreter assigns to this module,
    /// function and argument list.
    #[verifier::loop_isolation(false)]
    pub fn invoke(&self, func: FunctionIndex, args: &[Dynamic]) -> (r: Result<
        InterpResult,
        InterpError,
    >)
        ensures
            r == invoke_spec(*self.module, func, args@),
    {
        if func.0 >= self.module.functions.len() {
            return Err(InterpError::BadFunctionIndex);
        }
        let f = &self.module.functions[func.0];

        // Check the argument list against the declared parameter types.
        if args.len() != f.ty.param_types.len() {
            return Err(InterpError::SignatureMismatch);
        }
        let mut i: usize = 0;
        while i < args.len()
            invariant
                i <= args@.len(),
                forall|j: int| 0 <= j < i ==> (#[trigger] args@[j]).ty() == f.ty.param_types@[j],
            decreases args@.len() - i,
        {
            if args[i].get_type() != f.ty.param_types[i] {
                return Err(InterpError::SignatureMismatch);
            }
            i = i + 1;
        }
        assert(args_match(args@, f.ty.param_types@));

        // Build the fresh locals array: arguments, then zero-initialized
        // declared locals.
        let mut locals: Vec<Dynamic> = Vec::new();
        let mut i: usize = 0;
        while i < args.len()
            invariant
                i <= args@.len(),
                locals@ == args@.subrange(0, i as int),
            decreases args@.len() - i,
        {
            locals.push(args[i]);
            assert(locals@ =~= args@.subrange(0, i + 1 as int));
            i = i + 1;
        }
        assert(locals@ =~= args@);
        let mut i: usize = 0;
        while i < f.local_types.len()
            invariant
                i <= f.local_types@.len(),
                locals@ == args@ + f.local_types@.subrange(0, i as int).map_values(
                    |t: Type| Dynamic::zero_of(t),
                ),
            decreases f.local_types@.len() - i,
        {
            locals.push(Dynamic::default_for(f.local_types[i]));
            assert(locals@ =~= args@ + f.local_types@.subrange(0, i + 1 as int).map_values(
                |t: Type| Dynamic::zero_of(t),
            ));
            i = i + 1;
        }
        assert(f.local_types@.subrange(0, f.local_types@.len() as int) =~= f.local_types@);
        assert(locals@ == init_locals(args@, f.local_types@));

        // Execute the body, maintaining that the remaining run is the run
        // of the whole function.
        let ghost frame0 = init_locals(args@, f.local_types@);
        let mut stack: Vec<Dynamic> = Vec::new();
        let mut pc: usize = 0;
        while pc < f.ops.len()
            invariant
                pc <= f.ops@.len(),
                run_from(f.ops@, pc as int, stack@, locals@) == run_from(
                    f.ops@,
                    0,
                    Seq::empty(),
                    frame0,
                ),
            decreases f.ops@.len() - pc,
        {
            let ghost stack0 = stack@;
            match f.ops[pc] {
                NormalOp::Nop => {
                },
                NormalOp::GetLocal(slot) => {
                    if slot >= locals.len() {
                        return Err(InterpError::IllFormedBody);
                    }
                    stack.push(locals[slot]);
                },
                NormalOp::SetLocal(slot) => {
                    if slot >= locals.len() || stack.len() == 0 {
                        return Err(InterpError::IllFormedBody);
                    }
                    let v = stack.pop().unwrap();
                    locals.set(slot, v);
                    assert(stack@ =~= stack0.drop_last());
                },
                NormalOp::TeeLocal(slot) => {
                    if slot >= locals.len() || stack.len() == 0 {
                        return Err(InterpError::IllFormedBody);
                    }
                    let v = stack[stack.len() - 1];
                    locals.set(slot, v);
                },
                NormalOp::Return { has_arg } => {
                    if has_arg {
                        if stack.len() == 0 {
                            return Err(InterpError::IllFormedBody);
                        }
                        let v = stack[stack.len() - 1];
                        return Ok(InterpResult::Value(Some(v)));
                    } else {
                        return Ok(InterpResult::Value(None));
                    }
                },
                NormalOp::IntBin(ty, op) => {
                    if stack.len() < 2 {
                        return Err(InterpError::IllFormedBody);
                    }
                    let rhs = stack.pop().unwrap();
                    let lhs = stack.pop().unwrap();
                    assert(stack@ =~= stack0.drop_last().drop_last());
                    let pushed: Dynamic = match (ty, lhs, rhs) {
                        (IntType::Int32, Dynamic::Int32(a), Dynamic::Int32(b)) => {
                            match eval_bin32_exec(op, a, b) {
                                Some(v) => Dynamic::Int32(v),
                                None => {
                                    return Ok(InterpResult::Trap);
                                },
                            }
                        },
                        (IntType::Int64, Dynamic::Int64(a), Dynamic::Int64(b)) => {
                            match eval_bin64_exec(op, a, b) {
                                Some(v) => Dynamic::Int64(v),
                                None => {
                                    return Ok(InterpResult::Trap);
                                },
                            }
                        },
                        _ => {
                            return Err(InterpError::IllFormedBody);
                        },
                    };
                    stack.push(pushed);
                },
                NormalOp::IntUn(ty, op) => {
                    if stack.len() == 0 {
                        return Err(InterpError::IllFormedBody);
                    }
                    let v = stack.pop().unwrap();
                    assert(stack@ =~= stack0.drop_last());
                    let pushed: Dynamic = match (ty, v) {
                        (IntType::Int32, Dynamic::Int32(a)) => Dynamic::Int32(
                            eval_un32_exec(op, a),
                        ),
                        (IntType::Int64, Dynamic::Int64(a)) => Dynamic::Int64(
                            eval_un64_exec(op, a),
                        ),
                        _ => {
                            return Err(InterpError::IllFormedBody);
                        },
                    };
                    stack.push(pushed);
                },
                NormalOp::IntCmp(ty, op) => {
                    if stack.len() < 2 {
                        return Err(InterpError::IllFormedBody);
                    }
                    let rhs = stack.pop().unwrap();
                    let lhs = stack.pop().unwrap();
                    assert(stack@ =~= stack0.drop_last().drop_last());
                    let pushed: Dynamic = match (ty, lhs, rhs) {
                        (IntType::Int32, Dynamic::Int32(a), Dynamic::Int32(b)) => Dynamic::Int32(
                            eval_cmp32_exec(op, a, b),
                        ),
                        (IntType::Int64, Dynamic::Int64(a), Dynamic::Int64(b)) => Dynamic::Int32(
                            eval_cmp64_exec(op, a, b),
                        ),
                        _ => {
                            return Err(InterpError::IllFormedBody);
                        },
                    };
                    stack.push(pushed);
                },
                NormalOp::IntEqz(ty) => {
                    if stack.len() == 0 {
                        return Err(InterpError::IllFormedBody);
                    }
                    let v = stack.pop().unwrap();
                    assert(stack@ =~= stack0.drop_last());
                    let pushed: Dynamic = match (ty, v) {
                        (IntType::Int32, Dynamic::Int32(a)) => Dynamic::Int32(
                            if a == 0 {
                                1
                            } else {
                                0
                            },
                        ),
                        (IntType::Int64, Dynamic::Int64(a)) => Dynamic::Int32(
                            if a == 0 {
                                1
                            } else {
                                0
                            },
                        ),
                        _ => {
                            return Err(InterpError::IllFormedBody);
                        },
                    };
                    stack.push(pushed);
                },
            }
            pc = pc + 1;
        }
        // Fell off the end of the sequence: an implicit return with no
        // value.
        Ok(InterpResult::Value(None))
    }
}


/// Law: `TeeLocal` stores the stack top into its slot and leaves the
/// operand stack net-unchanged: execution continues with exactly the stack
/// it found.
pub proof fn lemma_tee_local_keeps_stack(
    ops: Seq<NormalOp>,
    pc: int,
    stack: Seq<Dynamic>,
    locals: Seq<Dynamic>,
    slot: usize,
)
    requires
        0 <= pc < ops.len(),
        ops[pc] == NormalOp::TeeLocal(slot),
        slot < locals.len(),
        stack.len() > 0,
    ensures
        run_from(ops, pc, stack, locals) == run_from(
            ops,
            pc + 1,
            stack,
            locals.update(slot as int, stack.last()),
        ),
{
}

/// Law: `SetLocal` stores the stack top into its slot and strictly removes
/// that one value: execution continues with the stack short by exactly its
/// top.
pub proof fn lemma_set_local_pops_one(
    ops: Seq<NormalOp>,
    pc: int,
    stack: Seq<Dynamic>,
    locals: Seq<Dynamic>,
    slot: usize,
)
    requires
        0 <= pc < ops.len(),
        ops[pc] == NormalOp::SetLocal(slot),
        slot < locals.len(),
        stack.len() > 0,
    ensures
        run_from(ops, pc, stack, locals) == run_from(
            ops,
            pc + 1,
            stack.drop_last(),
            locals.update(slot as int, stack.last()),
        ),
{
}

/// Law: a `GetLocal` immediately after a `SetLocal` of the same slot pushes
/// back exactly the value the store took from the stack: execution
/// continues past the pair with the old stack top restored.
pub proof fn lemma_get_after_set_returns_stored(
    ops: Seq<NormalOp>,
    pc: int,
    stack: Seq<Dynamic>,
    locals: Seq<Dynamic>,
    slot: usize,
)
    requires
        0 <= pc,
        pc + 1 < ops.len(),
        ops[pc] == NormalOp::SetLocal(slot),
        ops[pc + 1] == NormalOp::GetLocal(slot),
        slot < locals.len(),
        stack.len() > 0,
    ensures
        run_from(ops, pc, stack, locals) == run_from(
            ops,
            pc + 2,
            stack.drop_last().push(stack.last()),
            locals.update(slot as int, stack.last()),
        ),
{
    let locals1 = locals.update(slot as int, stack.last());
    assert(locals1[slot as int] == stack.last());
    assert(run_from(ops, pc, stack, locals) == run_from(
        ops,
        pc + 1,
        stack.drop_last(),
        locals1,
    ));
    assert(run_from(ops, pc + 1, stack.drop_last(), locals1) == run_from(
        ops,
        pc + 2,
        stack.drop_last().push(locals1[slot as int]),
        locals1,
    ));
}

/// Law: a fresh frame binds each argument to its parameter slot, so a
/// `GetLocal` of a parameter slot reads exactly the value that was passed;
/// the remaining slots hold the zero value of their declared type.
pub proof fn lemma_initial_locals_bind_parameters(args: Seq<Dynamic>, local_types: Seq<Type>)
    ensures
        init_locals(args, local_types).len() == args.len() + local_types.len(),
        forall|i: int|
            0 <= i < args.len() ==> init_locals(args, local_types)[i] == args[i],
        forall|j: int|
            0 <= j < local_types.len() ==> init_locals(args, local_types)[args.len() + j]
                == Dynamic::zero_of(local_types[j]),
{
}

/// Law: a comparison instruction always pushes a 32-bit integer that is
/// exactly 0 or 1, whatever the width and sign reading of its operands.
pub proof fn lemma_cmp_yields_bit(ty: IntType, op: crate::ops::IntCmpOp, lhs: Dynamic, rhs: Dynamic)
    requires
        bin_operands_ok(ty, lhs, rhs),
    ensures
        eval_cmp_dyn(ty, op, lhs, rhs) == Dynamic::Int32(0) || eval_cmp_dyn(ty, op, lhs, rhs)
            == Dynamic::Int32(1),
{
}

/// Law: a zero test always pushes a 32-bit integer that is exactly 0 or 1.
pub proof fn lemma_eqz_yields_bit(ty: IntType, v: Dynamic)
    requires
        v.ty() == ty.to_type(),
    ensures
        eval_eqz_dyn(ty, v) == Dynamic::Int32(0) || eval_eqz_dyn(ty, v) == Dynamic::Int32(1),
{
}

/// Law: a division or remainder instruction over a zero divisor makes the
/// whole run trap, whatever the dividend, at either width.
pub proof fn lemma_division_by_zero_run_traps(
    ops: Seq<NormalOp>,
    pc: int,
    stack: Seq<Dynamic>,
    locals: Seq<Dynamic>,
    ty: IntType,
    op: IntBinOp,
)
    requires
        0 <= pc < ops.len(),
        ops[pc] == NormalOp::IntBin(ty, op),
        op == IntBinOp::DivS || op == IntBinOp::DivU || op == IntBinOp::RemS || op
            == IntBinOp::RemU,
        stack.len() >= 2,
        stack[stack.len() - 2].ty() == ty.to_type(),
        stack.last() == Dynamic::zero_of(ty.to_type()),
    ensures
        run_from(ops, pc, stack, locals) == Outcome::Trap,
{
    match ty {
        IntType::Int32 => {
            let a = stack[stack.len() - 2]->Int32_0;
            crate::ops::lemma_div_by_zero_traps32(a);
        },
        IntType::Int64 => {
            let a = stack[stack.len() - 2]->Int64_0;
            crate::ops::lemma_div_by_zero_traps64(a);
        },
    }
}

/// Law: signed division of the minimum value of the type by minus one
/// makes the whole run trap, at either width.
pub proof fn lemma_signed_min_division_run_traps(
    ops: Seq<NormalOp>,
    pc: int,
    stack: Seq<Dynamic>,
    locals: Seq<Dynamic>,
    ty: IntType,
)
    requires
        0 <= pc < ops.len(),
        ops[pc] == NormalOp::IntBin(ty, IntBinOp::DivS),
        stack.len() >= 2,
        ty == IntType::Int32 ==> stack[stack.len() - 2] == Dynamic::Int32(0x8000_0000u32)
            && stack.last() == Dynamic::Int32(0xFFFF_FFFFu32),
        ty == IntType::Int64 ==> stack[stack.len() - 2] == Dynamic::Int64(
            0x8000_0000_0000_0000u64,
        ) && stack.last() == Dynamic::Int64(0xFFFF_FFFF_FFFF_FFFFu64),
    ensures
        run_from(ops, pc, stack, locals) == Outcome::Trap,
{
    crate::ops::lemma_div_signed_min_traps();
}

} // verus!
