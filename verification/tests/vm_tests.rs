use dne::eval::data::{Closure, Coroutine, Frame, Heap, Op, Proc, RuntimeData};
use dne::eval::error::VmError;
use dne::eval::model::FloatOp;
use dne::eval::vm::{FloatRequest, Step, Vm};

fn proc(name: &str, stack_size: usize, instrs: Vec<Op>) -> Proc {
    Proc { name: name.to_string(), instrs, stack_size }
}

fn run(stack_size: usize, instrs: Vec<Op>) -> Result<Option<RuntimeData>, VmError> {
    Vm::new(vec![proc("main", stack_size, instrs)]).run(0)
}

fn trace(entries: &[(&str, usize)]) -> Vec<(String, usize)> {
    entries.iter().map(|(name, at)| (name.to_string(), *at)).collect()
}

fn symbol(name: &str) -> RuntimeData {
    RuntimeData::Symbol(name.to_string())
}

#[test]
fn should_refuse_an_entry_that_does_not_exist() {
    let mut vm = Vm::new(vec![proc("main", 0, vec![])]);
    assert_eq!(vm.run(1), Err(VmError::ProcDoesNotExist(1, trace(&[("main", 0)]))));
    let mut empty = Vm::new(vec![]);
    assert_eq!(empty.run(0), Err(VmError::ProcDoesNotExist(0, trace(&[("", 0)]))));
}

#[test]
fn should_fail_when_the_code_runs_out() {
    assert_eq!(
        run(1, vec![Op::Nop, Op::Nop]),
        Err(VmError::InstrPointerOutOfRange(2, trace(&[("main", 2)])))
    );
    assert_eq!(
        run(1, vec![Op::Jump(7)]),
        Err(VmError::InstrPointerOutOfRange(7, trace(&[("main", 7)])))
    );
}

#[test]
fn should_fail_on_a_call_of_a_missing_procedure() {
    assert_eq!(
        run(1, vec![Op::Call(5, vec![])]),
        Err(VmError::ProcDoesNotExist(5, trace(&[("main", 0)])))
    );
}

#[test]
fn should_fail_on_a_missing_local() {
    assert_eq!(
        run(1, vec![Op::ReturnLocal(1)]),
        Err(VmError::AccessMissingLocal(1, trace(&[("main", 0)])))
    );
    assert_eq!(
        run(2, vec![Op::Call(0, vec![0, 1, 2])]),
        Err(VmError::AccessMissingLocal(2, trace(&[("main", 0)])))
    );
    assert_eq!(
        run(2, vec![Op::Add(0, 9)]),
        Err(VmError::AccessMissingLocal(9, trace(&[("main", 0)])))
    );
}

#[test]
fn should_fail_on_a_missing_return() {
    assert_eq!(
        run(1, vec![Op::SetLocalReturn(0)]),
        Err(VmError::AccessMissingReturn(trace(&[("main", 0)])))
    );
}

#[test]
fn should_fail_on_branch_of_a_value_that_is_no_bool() {
    let code = vec![Op::SetLocalData(0, RuntimeData::Int(1)), Op::BranchTrue { label: 0, local: 0 }];
    assert_eq!(
        run(1, code),
        Err(VmError::LocalUnexpectedType {
            local: 0,
            stack_trace: trace(&[("main", 1)]),
            expected: "bool",
            found: "int",
        })
    );
}

#[test]
fn should_branch_on_true_and_fall_through_on_false() {
    let code = |test: bool| {
        vec![
            Op::SetLocalData(0, RuntimeData::Bool(test)),
            Op::SetLocalData(1, RuntimeData::Int(1)),
            Op::BranchTrue { label: 4, local: 0 },
            Op::SetLocalData(1, RuntimeData::Int(2)),
            Op::Nop,
            Op::ReturnLocal(1),
        ]
    };
    assert_eq!(run(2, code(true)), Ok(Some(RuntimeData::Int(1))));
    assert_eq!(run(2, code(false)), Ok(Some(RuntimeData::Int(2))));
}

#[test]
fn should_fail_on_resume_of_a_value_that_is_no_coroutine() {
    let code = vec![Op::SetLocalData(0, RuntimeData::Int(1)), Op::Resume(0)];
    assert_eq!(
        run(1, code),
        Err(VmError::LocalUnexpectedType {
            local: 0,
            stack_trace: trace(&[("main", 1)]),
            expected: "coroutine",
            found: "int",
        })
    );
    assert!(matches!(
        run(1, vec![Op::Resume(0)]),
        Err(VmError::LocalUnexpectedType { local: 0, expected: "coroutine", found: "nil", .. })
    ));
}

#[test]
fn should_fail_on_yield_and_break_at_the_root() {
    let code = vec![Op::SetLocalData(0, RuntimeData::Int(1)), Op::Yield(0)];
    assert_eq!(run(1, code), Err(VmError::TopLevelYield(1, trace(&[("main", 1)]))));
    assert_eq!(run(1, vec![Op::Break]), Err(VmError::TopLevelYield(0, trace(&[("main", 0)]))));
}

#[test]
fn should_fail_on_yield_in_a_procedure_that_was_called() {
    let procs = vec![
        proc("main", 1, vec![Op::Call(1, vec![]), Op::SetLocalReturn(0), Op::ReturnLocal(0)]),
        proc("callee", 1, vec![Op::SetLocalData(0, RuntimeData::Int(1)), Op::Yield(0)]),
    ];
    assert_eq!(
        Vm::new(procs).run(0),
        Err(VmError::TopLevelYield(1, trace(&[("main", 0), ("callee", 1)])))
    );
}

fn cell_then(op: Op) -> Vec<Op> {
    vec![
        Op::SetLocalData(0, symbol("pair")),
        Op::SetLocalData(1, RuntimeData::Int(7)),
        Op::Cons { sym_var: 0, params: vec![1, 1] },
        Op::SetLocalReturn(2),
        op,
        Op::SetLocalReturn(3),
        Op::ReturnLocal(3),
    ]
}

#[test]
fn should_fail_on_every_access_after_delete() {
    let after_delete = |op: Op| {
        let mut code = cell_then(Op::Delete(2));
        code[5] = op;
        run(4, code)
    };
    let nil = Err(VmError::AccessNilHeap(0, trace(&[("main", 5)])));
    assert_eq!(after_delete(Op::GetSlot { local: 2, index: 0 }), nil);
    assert_eq!(after_delete(Op::GetLength(2)), nil);
    assert_eq!(after_delete(Op::GetType(2)), nil);
    assert_eq!(after_delete(Op::Delete(2)), nil);
    assert_eq!(after_delete(Op::InsertSlot { dest: 2, src: 1, index: 0 }), nil);
    assert_eq!(after_delete(Op::RemoveSlot { local: 2, index: 0 }), nil);
}

#[test]
fn should_fail_on_an_address_beyond_the_heap() {
    let code = vec![Op::SetLocalData(0, RuntimeData::Ref(3)), Op::GetLength(0)];
    assert_eq!(run(1, code), Err(VmError::AccessNilHeap(3, trace(&[("main", 1)]))));
}

#[test]
fn should_fail_on_a_slot_index_beyond_the_cell() {
    let missing = |index: usize| Err(VmError::AccessMissingSlotIndex(index, trace(&[("main", 4)])));
    assert_eq!(run(4, cell_then(Op::GetSlot { local: 2, index: 2 })), missing(2));
    assert_eq!(run(4, cell_then(Op::RemoveSlot { local: 2, index: 2 })), missing(2));
    assert_eq!(run(4, cell_then(Op::InsertSlot { dest: 2, src: 1, index: 3 })), missing(3));
    assert_eq!(run(4, cell_then(Op::GetSlot { local: 2, index: 1 })), Ok(Some(RuntimeData::Int(7))));
}

#[test]
fn should_insert_at_the_end_and_remove_the_last() {
    let mut code = cell_then(Op::InsertSlot { dest: 2, src: 0, index: 2 });
    code.insert(5, Op::GetSlot { local: 2, index: 2 });
    assert_eq!(run(4, code), Ok(Some(symbol("pair"))));
    let mut code = cell_then(Op::RemoveSlot { local: 2, index: 1 });
    code.insert(5, Op::GetLength(2));
    assert_eq!(run(4, code), Ok(Some(RuntimeData::Int(1))));
}

#[test]
fn should_fail_on_heap_access_through_a_value_that_is_no_ref() {
    assert!(matches!(
        run(4, cell_then(Op::GetLength(1))),
        Err(VmError::LocalUnexpectedType { local: 1, expected: "ref", found: "int", .. })
    ));
    assert!(matches!(
        run(4, vec![Op::SetLocalData(0, RuntimeData::Int(1)), Op::Cons { sym_var: 0, params: vec![] }]),
        Err(VmError::LocalUnexpectedType { local: 0, expected: "symbol", found: "int", .. })
    ));
}

#[test]
fn should_reuse_the_address_that_was_freed() {
    let code = vec![
        Op::SetLocalData(0, symbol("a")),
        Op::Cons { sym_var: 0, params: vec![] },
        Op::SetLocalReturn(1),
        Op::Cons { sym_var: 0, params: vec![] },
        Op::SetLocalReturn(2),
        Op::Cons { sym_var: 0, params: vec![] },
        Op::SetLocalReturn(3),
        Op::Delete(2),
        Op::SetLocalData(0, symbol("b")),
        Op::Cons { sym_var: 0, params: vec![] },
        Op::SetLocalReturn(4),
        Op::ReturnLocal(4),
    ];
    let mut vm = Vm::new(vec![proc("main", 5, code)]);
    assert_eq!(vm.run(0), Ok(Some(RuntimeData::Ref(1))));
    assert_eq!(vm.cell(1), Some(&Heap::Cons { name: "b".to_string(), params: vec![] }));
    assert_eq!(vm.cell(2), Some(&Heap::Cons { name: "a".to_string(), params: vec![] }));
    assert_eq!(vm.cell(3), None);
}

#[test]
fn should_give_out_the_lowest_free_address() {
    let code = vec![
        Op::SetLocalData(0, symbol("a")),
        Op::Cons { sym_var: 0, params: vec![] },
        Op::SetLocalReturn(1),
        Op::Cons { sym_var: 0, params: vec![] },
        Op::SetLocalReturn(2),
        Op::Delete(1),
        Op::Delete(2),
        Op::Cons { sym_var: 0, params: vec![] },
        Op::SetLocalReturn(3),
        Op::ReturnLocal(3),
    ];
    let mut vm = Vm::new(vec![proc("main", 4, code)]);
    assert_eq!(vm.run(0), Ok(Some(RuntimeData::Ref(0))));
    assert_eq!(vm.cell(1), Some(&Heap::Nil));
}

#[test]
fn should_fill_the_frame_of_a_callee_with_nil() {
    let procs = vec![
        proc(
            "main",
            2,
            vec![
                Op::SetLocalData(0, RuntimeData::Int(4)),
                Op::Call(1, vec![0]),
                Op::SetLocalReturn(1),
                Op::ReturnLocal(1),
            ],
        ),
        proc("callee", 3, vec![Op::IsNil(2), Op::SetLocalReturn(1), Op::ReturnLocal(1)]),
    ];
    assert_eq!(Vm::new(procs).run(0), Ok(Some(RuntimeData::Bool(true))));
}

#[test]
fn should_put_the_captured_values_before_the_arguments() {
    let procs = vec![
        proc(
            "main",
            4,
            vec![
                Op::SetLocalData(0, RuntimeData::Int(10)),
                Op::SetLocalData(1, RuntimeData::Int(3)),
                Op::Closure { proc_id: 1, env: vec![0] },
                Op::SetLocalReturn(2),
                Op::DynCall(2, vec![1]),
                Op::SetLocalReturn(3),
                Op::ReturnLocal(3),
            ],
        ),
        proc("minus", 3, vec![Op::Sub(0, 1), Op::SetLocalReturn(2), Op::ReturnLocal(2)]),
    ];
    let mut vm = Vm::new(procs);
    assert_eq!(vm.run(0), Ok(Some(RuntimeData::Int(7))));
    assert_eq!(vm.closure(0), Some(&Closure { proc_id: 1, env: vec![RuntimeData::Int(10)] }));
    assert_eq!(vm.closure(1), None);
}

#[test]
fn should_fail_on_dyn_call_of_a_value_that_is_no_closure() {
    let code = vec![Op::SetLocalData(0, RuntimeData::Int(1)), Op::DynCall(0, vec![])];
    assert!(matches!(
        run(1, code),
        Err(VmError::LocalUnexpectedType { local: 0, expected: "closure", found: "int", .. })
    ));
    let code = vec![Op::SetLocalData(0, RuntimeData::Int(1)), Op::DynCoroutine { local: 0, params: vec![] }];
    assert!(matches!(
        run(1, code),
        Err(VmError::LocalUnexpectedType { local: 0, expected: "closure", found: "int", .. })
    ));
}

#[test]
fn should_keep_a_suspended_coroutine_with_its_frame() {
    let procs = vec![
        proc(
            "main",
            2,
            vec![
                Op::Coroutine { proc_id: 1, params: vec![] },
                Op::SetLocalReturn(0),
                Op::Resume(0),
                Op::SetLocalReturn(1),
                Op::ReturnLocal(0),
            ],
        ),
        proc(
            "co",
            1,
            vec![Op::SetLocalData(0, RuntimeData::Int(5)), Op::Yield(0), Op::Break],
        ),
    ];
    let mut vm = Vm::new(procs);
    assert_eq!(vm.run(0), Ok(Some(RuntimeData::Coroutine(0))));
    let suspended = Coroutine::Active(Frame { proc_id: 1, ip: 2, locals: vec![RuntimeData::Int(5)] });
    assert_eq!(vm.coroutine(0), Some(&suspended));
    assert!(vm.coroutine(0).unwrap().is_alive());
}

#[test]
fn should_trace_the_saved_frames_oldest_first() {
    let procs = vec![
        proc("main", 1, vec![Op::Nop, Op::Call(1, vec![]), Op::ReturnLocal(0)]),
        proc("middle", 1, vec![Op::Call(2, vec![]), Op::ReturnLocal(0)]),
        proc("inner", 1, vec![Op::Nop, Op::Nop, Op::SetLocalReturn(0)]),
    ];
    let error = Vm::new(procs).run(0).unwrap_err();
    assert_eq!(
        error,
        VmError::AccessMissingReturn(trace(&[("main", 1), ("middle", 0), ("inner", 2)]))
    );
    assert_eq!(
        error.describe(),
        "Attempting to access missing return: \n    main at index 1\n    middle at index 0\n    inner at index 2\n"
    );
}

#[test]
fn should_describe_each_error() {
    let t = trace(&[("main", 3)]);
    let lines = "    main at index 3\n";
    assert_eq!(
        VmError::ProcDoesNotExist(12, t.clone()).describe(),
        format!("Proc Index 12 does not exist: \n{}", lines)
    );
    assert_eq!(
        VmError::InstrPointerOutOfRange(40, t.clone()).describe(),
        format!("Instr Index 40 does not exist: \n{}", lines)
    );
    assert_eq!(
        VmError::AccessMissingLocal(0, t.clone()).describe(),
        format!("Attempting to access missing local 0: \n{}", lines)
    );
    assert_eq!(
        VmError::LocalUnexpectedType { local: 2, stack_trace: t.clone(), expected: "bool", found: "nil" }
            .describe(),
        format!("Local 2 was unexpected type.  Expected: bool, but found nil: \n{}", lines)
    );
    assert_eq!(
        VmError::AccessNilHeap(7, t.clone()).describe(),
        format!("Attempting to access nil heap address 7: \n{}", lines)
    );
    assert_eq!(
        VmError::AccessMissingSlotIndex(9, t.clone()).describe(),
        format!("Attempting to access missing slot index 9: \n{}", lines)
    );
    assert_eq!(
        VmError::TopLevelYield(18446744073709551615, t.clone()).describe(),
        format!("Top Level Yield not supported at instruction 18446744073709551615: \n{}", lines)
    );
}

fn binary(op: Op, a: RuntimeData, b: RuntimeData) -> Result<Option<RuntimeData>, VmError> {
    run(
        3,
        vec![Op::SetLocalData(0, a), Op::SetLocalData(1, b), op, Op::SetLocalReturn(2), Op::ReturnLocal(2)],
    )
}

fn ints(op: Op, a: i64, b: i64) -> Result<Option<RuntimeData>, VmError> {
    binary(op, RuntimeData::Int(a), RuntimeData::Int(b))
}

#[test]
fn should_round_quotients_toward_zero() {
    assert_eq!(ints(Op::Div(0, 1), 7, 2), Ok(Some(RuntimeData::Int(3))));
    assert_eq!(ints(Op::Div(0, 1), -7, 2), Ok(Some(RuntimeData::Int(-3))));
    assert_eq!(ints(Op::Div(0, 1), 7, -2), Ok(Some(RuntimeData::Int(-3))));
    assert_eq!(ints(Op::Div(0, 1), -7, -2), Ok(Some(RuntimeData::Int(3))));
    assert_eq!(ints(Op::Mod(0, 1), 7, 2), Ok(Some(RuntimeData::Int(1))));
    assert_eq!(ints(Op::Mod(0, 1), -7, 2), Ok(Some(RuntimeData::Int(-1))));
    assert_eq!(ints(Op::Mod(0, 1), 7, -2), Ok(Some(RuntimeData::Int(1))));
    assert_eq!(ints(Op::Mod(0, 1), -7, -2), Ok(Some(RuntimeData::Int(-1))));
}

#[test]
fn should_wrap_around_at_the_ends_of_the_integers() {
    assert_eq!(ints(Op::Add(0, 1), i64::MAX, 1), Ok(Some(RuntimeData::Int(i64::MIN))));
    assert_eq!(ints(Op::Sub(0, 1), i64::MIN, 1), Ok(Some(RuntimeData::Int(i64::MAX))));
    assert_eq!(ints(Op::Mul(0, 1), i64::MAX, 2), Ok(Some(RuntimeData::Int(-2))));
    assert_eq!(ints(Op::Div(0, 1), i64::MIN, -1), Ok(Some(RuntimeData::Int(i64::MIN))));
    assert_eq!(ints(Op::Mod(0, 1), i64::MIN, -1), Ok(Some(RuntimeData::Int(0))));
    let code = vec![
        Op::SetLocalData(0, RuntimeData::Int(i64::MIN)),
        Op::Neg(0),
        Op::SetLocalReturn(1),
        Op::ReturnLocal(1),
    ];
    assert_eq!(run(2, code), Ok(Some(RuntimeData::Int(i64::MIN))));
}

#[test]
fn should_fail_on_division_by_zero() {
    for op in [Op::Div(0, 1), Op::Mod(0, 1)] {
        assert!(matches!(
            ints(op, 1, 0),
            Err(VmError::LocalUnexpectedType { local: 1, expected: "nonzero int", found: "int", .. })
        ));
    }
}

#[test]
fn should_fail_on_operands_of_different_types() {
    assert!(matches!(
        binary(Op::Add(0, 1), RuntimeData::Int(1), RuntimeData::Bool(true)),
        Err(VmError::LocalUnexpectedType { local: 1, expected: "int", found: "bool", .. })
    ));
    assert!(matches!(
        binary(Op::Lt(0, 1), RuntimeData::Float(0), RuntimeData::Int(1)),
        Err(VmError::LocalUnexpectedType { local: 1, expected: "float", found: "int", .. })
    ));
    assert!(matches!(
        binary(Op::Mul(0, 1), RuntimeData::Bool(true), RuntimeData::Int(1)),
        Err(VmError::LocalUnexpectedType { local: 0, expected: "number", found: "bool", .. })
    ));
    assert!(matches!(
        binary(Op::And(0, 1), RuntimeData::Int(1), RuntimeData::Bool(true)),
        Err(VmError::LocalUnexpectedType { local: 0, expected: "bool", found: "int", .. })
    ));
    assert!(matches!(
        binary(Op::Or(0, 1), RuntimeData::Bool(true), RuntimeData::Nil),
        Err(VmError::LocalUnexpectedType { local: 1, expected: "bool", found: "nil", .. })
    ));
    assert!(matches!(
        binary(Op::Eq(0, 1), symbol("a"), RuntimeData::Int(1)),
        Err(VmError::LocalUnexpectedType { local: 1, expected: "symbol", found: "int", .. })
    ));
    assert!(matches!(
        binary(Op::Concat(0, 1), RuntimeData::String("a".to_string()), RuntimeData::Int(1)),
        Err(VmError::LocalUnexpectedType { local: 1, expected: "string", found: "int", .. })
    ));
    assert!(matches!(
        binary(Op::Concat(0, 1), RuntimeData::Int(1), RuntimeData::String("a".to_string())),
        Err(VmError::LocalUnexpectedType { local: 0, expected: "string", found: "int", .. })
    ));
}

#[test]
fn should_compare_values_of_one_type() {
    let same = |a: RuntimeData, b: RuntimeData| binary(Op::Eq(0, 1), a, b);
    assert_eq!(same(symbol("a"), symbol("a")), Ok(Some(RuntimeData::Bool(true))));
    assert_eq!(same(symbol("a"), symbol("b")), Ok(Some(RuntimeData::Bool(false))));
    assert_eq!(same(RuntimeData::Ref(1), RuntimeData::Ref(1)), Ok(Some(RuntimeData::Bool(true))));
    assert_eq!(same(RuntimeData::Ref(1), RuntimeData::Ref(2)), Ok(Some(RuntimeData::Bool(false))));
    assert_eq!(same(RuntimeData::Nil, RuntimeData::Nil), Ok(Some(RuntimeData::Bool(true))));
    assert_eq!(
        same(RuntimeData::String("x".to_string()), RuntimeData::String("x".to_string())),
        Ok(Some(RuntimeData::Bool(true)))
    );
    assert_eq!(
        same(RuntimeData::Closure(0), RuntimeData::Closure(0)),
        Ok(Some(RuntimeData::Bool(false)))
    );
    assert_eq!(
        same(RuntimeData::Coroutine(0), RuntimeData::Coroutine(0)),
        Ok(Some(RuntimeData::Bool(false)))
    );
}

#[test]
fn should_write_integers_in_decimal() {
    let text = |n: i64| {
        run(
            2,
            vec![
                Op::SetLocalData(0, RuntimeData::Int(n)),
                Op::ToString(0),
                Op::SetLocalReturn(1),
                Op::ReturnLocal(1),
            ],
        )
    };
    assert_eq!(text(0), Ok(Some(RuntimeData::String("0".to_string()))));
    assert_eq!(text(1070), Ok(Some(RuntimeData::String("1070".to_string()))));
    assert_eq!(text(-45), Ok(Some(RuntimeData::String("-45".to_string()))));
    assert_eq!(text(i64::MIN), Ok(Some(RuntimeData::String("-9223372036854775808".to_string()))));
    assert_eq!(text(i64::MAX), Ok(Some(RuntimeData::String("9223372036854775807".to_string()))));
}

#[test]
fn should_ask_the_host_for_operations_on_doubles() {
    let one = 1.0f64.to_bits();
    let two = 2.0f64.to_bits();
    let code = vec![
        Op::SetLocalFloat(0, "1.0".to_string()),
        Op::SetLocalData(1, RuntimeData::Float(two)),
        Op::Add(0, 1),
        Op::SetLocalReturn(2),
        Op::Lt(0, 2),
        Op::SetLocalReturn(3),
        Op::ReturnLocal(3),
    ];
    let mut vm = Vm::new(vec![proc("main", 4, code)]);
    assert_eq!(vm.run(0), Ok(None));
    assert_eq!(vm.pending(), Some(FloatRequest::Decode("1.0".to_string())));
    assert!(!vm.answer(RuntimeData::Int(1)));
    assert_eq!(vm.pending(), Some(FloatRequest::Decode("1.0".to_string())));
    assert!(vm.answer(RuntimeData::Float(one)));
    assert_eq!(vm.resume(1), Ok(None));
    assert_eq!(vm.pending(), Some(FloatRequest::Apply(FloatOp::Add, one, two)));
    assert!(!vm.answer(RuntimeData::Bool(true)));
    assert!(vm.answer(RuntimeData::Float(3.0f64.to_bits())));
    assert_eq!(vm.pending(), None);
    assert!(!vm.answer(RuntimeData::Float(one)));
    assert_eq!(vm.resume(u64::MAX), Ok(None));
    assert_eq!(vm.pending(), Some(FloatRequest::Apply(FloatOp::Lt, one, 3.0f64.to_bits())));
    assert!(!vm.answer(RuntimeData::Float(one)));
    assert!(vm.answer(RuntimeData::Bool(true)));
    assert_eq!(vm.resume(u64::MAX), Ok(Some(RuntimeData::Bool(true))));
}

#[test]
fn should_stop_when_the_budget_runs_out() {
    let mut vm = Vm::new(vec![proc("main", 1, vec![Op::Nop, Op::Jump(0)])]);
    assert_eq!(vm.resume(0), Ok(None));
    assert_eq!(vm.resume(1001), Ok(None));
    assert_eq!(vm.pending(), None);
    assert_eq!(vm.step(), Ok(Step::Continue));
}

#[test]
fn should_step_one_instruction_at_a_time() {
    let code = vec![
        Op::SetLocalData(0, RuntimeData::Float(0)),
        Op::Neg(0),
        Op::ReturnLocal(0),
    ];
    let mut vm = Vm::new(vec![proc("main", 1, code)]);
    assert_eq!(vm.step(), Err(VmError::AccessMissingLocal(0, trace(&[("main", 0)]))));
    assert_eq!(vm.run(0), Ok(None));
    assert_eq!(vm.step(), Ok(Step::Ask(FloatRequest::Apply(FloatOp::Neg, 0, 0))));
    assert!(vm.answer(RuntimeData::Float(1)));
    assert_eq!(vm.step(), Ok(Step::Halt(RuntimeData::Float(0))));
}
