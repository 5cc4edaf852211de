//! End-to-end checks of the execution engine: whole modules invoked
//! through the export table.

use stackvm::interp::{Instance, InterpError, InterpResult};
use stackvm::module::{Export, FunctionBuilder, FunctionIndex, Module};
use stackvm::ops::{IntBinOp, NormalOp};
use stackvm::types::IntType;
use stackvm::testcase::{Assert, Invoke, TestCase};
use stackvm::types::Dynamic;
use stackvm::types::Type;

/// A function `(param $a i32)(param $b i32)` whose body divides `$a` by
/// `$b` unsigned and returns the quotient.
fn div_u_module() -> Module {
    let mut f = FunctionBuilder::new();
    f.ty.param_types.push(Type::Int32);
    f.ty.param_types.push(Type::Int32);
    f.ty.return_type = Some(Type::Int32);
    f.ops.push(NormalOp::GetLocal(0));
    f.ops.push(NormalOp::GetLocal(1));
    f.ops.push(NormalOp::IntBin(IntType::Int32, IntBinOp::DivU));
    f.ops.push(NormalOp::Return { has_arg: true });
    let mut m = Module::new();
    m.functions.push(f.build());
    m.exports.push(Export {
        function_name: b"divide".to_vec(),
        function_index: FunctionIndex(0),
    });
    m
}

#[test]
fn unsigned_division_by_zero_traps_end_to_end() {
    let m = div_u_module();
    let instance = Instance::new(&m);
    let r = instance.invoke(
        FunctionIndex(0),
        &[Dynamic::from_u32(10), Dynamic::from_u32(0)],
    );
    assert_eq!(r, Ok(InterpResult::Trap));
}

#[test]
fn unsigned_division_truncates_end_to_end() {
    let m = div_u_module();
    let instance = Instance::new(&m);
    let r = instance.invoke(
        FunctionIndex(0),
        &[Dynamic::from_u32(7), Dynamic::from_u32(2)],
    );
    assert_eq!(r, Ok(InterpResult::Value(Some(Dynamic::Int32(3)))));
}

#[test]
fn constant_free_five_from_a_local() {
    // With no parameters, a zero-initialized local is turned into 5 by the
    // zero test (0 is zero, so 1) and wrapping additions, stored in the
    // local, read back, and returned.
    let mut f = FunctionBuilder::new();
    f.ty.return_type = Some(Type::Int32);
    f.local_types.push(Type::Int32);
    f.ops.push(NormalOp::GetLocal(0));
    f.ops.push(NormalOp::IntEqz(IntType::Int32));
    f.ops.push(NormalOp::SetLocal(0));
    for _ in 0..5 {
        f.ops.push(NormalOp::GetLocal(0));
    }
    for _ in 0..4 {
        f.ops.push(NormalOp::IntBin(IntType::Int32, IntBinOp::Add));
    }
    f.ops.push(NormalOp::SetLocal(0));
    f.ops.push(NormalOp::GetLocal(0));
    f.ops.push(NormalOp::Return { has_arg: true });
    let mut m = Module::new();
    m.functions.push(f.build());
    let instance = Instance::new(&m);
    let r = instance.invoke(FunctionIndex(0), &[]);
    assert_eq!(r, Ok(InterpResult::Value(Some(Dynamic::Int32(5)))));
}

#[test]
fn get_local_returns_most_recently_stored() {
    // (param $a i32): store a new value into $a with TeeLocal, read it
    // back with GetLocal, and return it.
    let mut f = FunctionBuilder::new();
    f.ty.param_types.push(Type::Int32);
    f.ty.return_type = Some(Type::Int32);
    f.ops.push(NormalOp::GetLocal(0));
    f.ops.push(NormalOp::GetLocal(0));
    f.ops.push(NormalOp::IntBin(IntType::Int32, IntBinOp::Add));
    f.ops.push(NormalOp::SetLocal(0));
    f.ops.push(NormalOp::GetLocal(0));
    f.ops.push(NormalOp::Return { has_arg: true });
    let mut m = Module::new();
    m.functions.push(f.build());
    let instance = Instance::new(&m);
    let r = instance.invoke(FunctionIndex(0), &[Dynamic::from_u32(21)]);
    assert_eq!(r, Ok(InterpResult::Value(Some(Dynamic::Int32(42)))));
}

#[test]
fn tee_local_keeps_stack_set_local_pops() {
    // TeeLocal leaves its operand on the stack, so the value is both
    // stored and returned; with SetLocal instead, the same body underflows
    // the stack at the Return.
    let mut f = FunctionBuilder::new();
    f.ty.param_types.push(Type::Int32);
    f.ty.return_type = Some(Type::Int32);
    f.ops.push(NormalOp::GetLocal(0));
    f.ops.push(NormalOp::TeeLocal(0));
    f.ops.push(NormalOp::Return { has_arg: true });
    let mut m = Module::new();
    m.functions.push(f.build());
    let instance = Instance::new(&m);
    let r = instance.invoke(FunctionIndex(0), &[Dynamic::from_u32(9)]);
    assert_eq!(r, Ok(InterpResult::Value(Some(Dynamic::Int32(9)))));

    let mut f2 = FunctionBuilder::new();
    f2.ty.param_types.push(Type::Int32);
    f2.ty.return_type = Some(Type::Int32);
    f2.ops.push(NormalOp::GetLocal(0));
    f2.ops.push(NormalOp::SetLocal(0));
    f2.ops.push(NormalOp::Return { has_arg: true });
    let mut m2 = Module::new();
    m2.functions.push(f2.build());
    let instance2 = Instance::new(&m2);
    let r2 = instance2.invoke(FunctionIndex(0), &[Dynamic::from_u32(9)]);
    assert_eq!(r2, Err(InterpError::IllFormedBody));
}

#[test]
fn parameters_bind_to_first_slots_and_locals_are_zero() {
    // (param $a i64) (local $b i64): returning $b yields the zero value.
    let mut f = FunctionBuilder::new();
    f.ty.param_types.push(Type::Int64);
    f.ty.return_type = Some(Type::Int64);
    f.local_types.push(Type::Int64);
    f.ops.push(NormalOp::GetLocal(1));
    f.ops.push(NormalOp::Return { has_arg: true });
    let mut m = Module::new();
    m.functions.push(f.build());
    let instance = Instance::new(&m);
    let r = instance.invoke(FunctionIndex(0), &[Dynamic::from_u64(77)]);
    assert_eq!(r, Ok(InterpResult::Value(Some(Dynamic::Int64(0)))));
}

#[test]
fn nop_consumes_and_pushes_nothing() {
    let mut f = FunctionBuilder::new();
    f.ty.param_types.push(Type::Int32);
    f.ty.return_type = Some(Type::Int32);
    f.ops.push(NormalOp::GetLocal(0));
    f.ops.push(NormalOp::Nop);
    f.ops.push(NormalOp::Return { has_arg: true });
    let mut m = Module::new();
    m.functions.push(f.build());
    let instance = Instance::new(&m);
    let r = instance.invoke(FunctionIndex(0), &[Dynamic::from_u32(4)]);
    assert_eq!(r, Ok(InterpResult::Value(Some(Dynamic::Int32(4)))));
}

#[test]
fn falling_off_the_end_returns_no_value() {
    let f = FunctionBuilder::new();
    let mut m = Module::new();
    m.functions.push(f.build());
    let instance = Instance::new(&m);
    let r = instance.invoke(FunctionIndex(0), &[]);
    assert_eq!(r, Ok(InterpResult::Value(None)));
}

#[test]
fn return_without_argument_yields_no_value() {
    let mut f = FunctionBuilder::new();
    f.ops.push(NormalOp::Return { has_arg: false });
    let mut m = Module::new();
    m.functions.push(f.build());
    let instance = Instance::new(&m);
    assert_eq!(
        instance.invoke(FunctionIndex(0), &[]),
        Ok(InterpResult::Value(None))
    );
}

#[test]
fn bad_function_index_is_an_error() {
    let m = Module::new();
    let instance = Instance::new(&m);
    assert_eq!(
        instance.invoke(FunctionIndex(0), &[]),
        Err(InterpError::BadFunctionIndex)
    );
}

#[test]
fn signature_mismatch_is_an_error() {
    let m = div_u_module();
    let instance = Instance::new(&m);
    // Too few arguments.
    assert_eq!(
        instance.invoke(FunctionIndex(0), &[Dynamic::from_u32(1)]),
        Err(InterpError::SignatureMismatch)
    );
    // Right count, wrong type.
    assert_eq!(
        instance.invoke(
            FunctionIndex(0),
            &[Dynamic::from_u32(1), Dynamic::from_u64(2)]
        ),
        Err(InterpError::SignatureMismatch)
    );
}

#[test]
fn export_lookup_takes_first_match() {
    let mut m = div_u_module();
    // A second export under the same name points at a missing function;
    // lookup must resolve to the first entry in declared order.
    m.exports.push(Export {
        function_name: b"divide".to_vec(),
        function_index: FunctionIndex(9),
    });
    assert_eq!(m.find(b"divide"), Some(FunctionIndex(0)));
    assert_eq!(m.find(b"missing"), None);
}

#[test]
fn validate_checks_export_bounds() {
    let mut m = div_u_module();
    assert!(m.validate());
    m.exports.push(Export {
        function_name: b"broken".to_vec(),
        function_index: FunctionIndex(1),
    });
    assert!(!m.validate());
}

#[test]
fn test_case_runs_all_assertions() {
    let m = div_u_module();
    let case = TestCase {
        module: m,
        asserts: vec![
            Assert::Return(
                Invoke {
                    function_name: b"divide".to_vec(),
                    arguments: vec![Dynamic::from_u32(7), Dynamic::from_u32(2)],
                },
                Dynamic::Int32(3),
            ),
            Assert::Trap(Invoke {
                function_name: b"divide".to_vec(),
                arguments: vec![Dynamic::from_u32(10), Dynamic::from_u32(0)],
            }),
        ],
    };
    assert!(case.run_all());
}

#[test]
fn test_case_reports_a_failed_assertion() {
    let m = div_u_module();
    let case = TestCase {
        module: m,
        asserts: vec![Assert::Return(
            Invoke {
                function_name: b"divide".to_vec(),
                arguments: vec![Dynamic::from_u32(7), Dynamic::from_u32(2)],
            },
            Dynamic::Int32(4),
        )],
    };
    assert!(!case.run_all());
}

#[test]
fn unknown_export_fails_an_assertion() {
    let m = div_u_module();
    let case = TestCase {
        module: m,
        asserts: vec![Assert::Trap(Invoke {
            function_name: b"absent".to_vec(),
            arguments: vec![],
        })],
    };
    assert!(!case.run_all());
}

#[test]
fn unknown_export_is_an_error_from_invoke_run() {
    let m = div_u_module();
    let instance = Instance::new(&m);
    let inv = Invoke {
        function_name: b"absent".to_vec(),
        arguments: vec![],
    };
    assert_eq!(inv.run(&instance), Err(InterpError::UnknownExport));
}

#[test]
fn missing_local_slot_is_an_error() {
    let mut f = FunctionBuilder::new();
    f.ops.push(NormalOp::GetLocal(3));
    let mut m = Module::new();
    m.functions.push(f.build());
    let instance = Instance::new(&m);
    assert_eq!(
        instance.invoke(FunctionIndex(0), &[]),
        Err(InterpError::IllFormedBody)
    );
}

#[test]
fn operand_type_mismatch_is_an_error() {
    // A 64-bit addition over 32-bit operands is refused, not reinterpreted.
    let mut f = FunctionBuilder::new();
    f.ty.param_types.push(Type::Int32);
    f.ty.param_types.push(Type::Int32);
    f.ty.return_type = Some(Type::Int64);
    f.ops.push(NormalOp::GetLocal(0));
    f.ops.push(NormalOp::GetLocal(1));
    f.ops.push(NormalOp::IntBin(IntType::Int64, IntBinOp::Add));
    f.ops.push(NormalOp::Return { has_arg: true });
    let mut m = Module::new();
    m.functions.push(f.build());
    let instance = Instance::new(&m);
    assert_eq!(
        instance.invoke(
            FunctionIndex(0),
            &[Dynamic::from_u32(1), Dynamic::from_u32(2)]
        ),
        Err(InterpError::IllFormedBody)
    );
}

#[test]
fn eqz_pushes_one_for_zero_and_zero_otherwise() {
    let mut f = FunctionBuilder::new();
    f.ty.param_types.push(Type::Int64);
    f.ty.return_type = Some(Type::Int32);
    f.ops.push(NormalOp::GetLocal(0));
    f.ops.push(NormalOp::IntEqz(IntType::Int64));
    f.ops.push(NormalOp::Return { has_arg: true });
    let mut m = Module::new();
    m.functions.push(f.build());
    let instance = Instance::new(&m);
    assert_eq!(
        instance.invoke(FunctionIndex(0), &[Dynamic::from_u64(0)]),
        Ok(InterpResult::Value(Some(Dynamic::Int32(1))))
    );
    assert_eq!(
        instance.invoke(FunctionIndex(0), &[Dynamic::from_u64(42)]),
        Ok(InterpResult::Value(Some(Dynamic::Int32(0))))
    );
}
