use dne::compiling::ir_compiler::{access, compile, find_main, primitives, CompileError};
use dne::eval::data::{Op, Proc, RuntimeData};
use dne::parsing::ir_parser::{parse, Type};

fn lower(input: &str) -> Result<Vec<Proc>, CompileError> {
    compile(&parse(input).unwrap())
}

fn refused(input: &str) -> CompileError {
    lower(input).unwrap_err()
}

fn s(text: &str) -> String {
    text.to_string()
}

/// The slots that an instruction refers to.
fn slots(op: &Op) -> Vec<usize> {
    match op {
        Op::Call(_, a) | Op::Closure { env: a, .. } | Op::Coroutine { params: a, .. } => a.clone(),
        Op::DynCall(l, a)
        | Op::Cons { sym_var: l, params: a }
        | Op::DynCoroutine { local: l, params: a } => {
            let mut all = vec![*l];
            all.extend(a.iter().copied());
            all
        },
        Op::Jump(_) | Op::Break | Op::Nop => vec![],
        Op::SetLocalVar { src: a, dest: b }
        | Op::InsertSlot { dest: a, src: b, .. }
        | Op::Add(a, b)
        | Op::Sub(a, b)
        | Op::Mul(a, b)
        | Op::Div(a, b)
        | Op::Mod(a, b)
        | Op::Eq(a, b)
        | Op::Gt(a, b)
        | Op::Lt(a, b)
        | Op::And(a, b)
        | Op::Or(a, b)
        | Op::Xor(a, b)
        | Op::Concat(a, b) => vec![*a, *b],
        Op::Resume(l)
        | Op::ReturnLocal(l)
        | Op::BranchTrue { local: l, .. }
        | Op::SetLocalData(l, _)
        | Op::SetLocalFloat(l, _)
        | Op::SetLocalReturn(l)
        | Op::GetLength(l)
        | Op::GetType(l)
        | Op::GetSlot { local: l, .. }
        | Op::IsNil(l)
        | Op::Yield(l)
        | Op::Delete(l)
        | Op::RemoveSlot { local: l, .. }
        | Op::Neg(l)
        | Op::Not(l)
        | Op::ToString(l) => vec![*l],
    }
}

const PROGRAM: &str = r#"
global unused : Int = 0;
proc helper(a : Int, b : Float, c : Closure) -> Int {
    label top;
    set n : Symbol = ~cell;
    set r : Ref = cons n (a, b);
    set len : Int = length r;
    set t : Symbol = type r;
    set first : Int = slot r 0;
    slot_insert r a 0;
    slot_remove r 1;
    delete r;
    set done : Bool = is_nil first;
    branch_true out done;
    set again : Int = dyn_call c (a);
    jump top;
    label out;
    return len;
}
proc main() -> Int {
    set x : Int = 1;
    set y : Float = 1.5;
    set f : Closure = closure helper(x);
    set co : Coroutine = coroutine helper(x, y, f);
    set dyn : Coroutine = dyn_coroutine f (y, f);
    set v : Int = resume co;
    set w : Int = x;
    set text : String = to_string y;
    set more : String = "more";
    set text : String = concat text more;
    set z : Int = call helper(x, y, f);
    yield z;
    break;
    return z;
}
"#;

#[test]
fn should_refer_to_slots_of_the_frame_only() {
    let procs = lower(PROGRAM).unwrap();
    for proc in &procs {
        for op in &proc.instrs {
            for slot in slots(op) {
                assert!(slot < proc.stack_size, "{:?} in {}", op, proc.name);
            }
        }
    }
}

#[test]
fn should_jump_to_the_nop_of_a_label() {
    let procs = lower(PROGRAM).unwrap();
    let helper = &procs[find_main(&procs, "helper").unwrap()];
    assert_eq!(helper.instrs[0], Op::Nop);
    let mut targets = vec![];
    for op in &helper.instrs {
        match op {
            Op::Jump(to) | Op::BranchTrue { label: to, .. } => {
                assert_eq!(helper.instrs[*to], Op::Nop);
                targets.push(*to);
            },
            _ => {},
        }
    }
    assert_eq!(targets, vec![helper.instrs.len() - 2, 0]);
}

#[test]
fn should_size_the_frame_by_its_highest_slot() {
    let procs = lower(PROGRAM).unwrap();
    for proc in &procs {
        let highest = proc.instrs.iter().flat_map(slots).max();
        assert_eq!(proc.stack_size, highest.map_or(0, |slot| slot + 1), "{}", proc.name);
    }
    let procs = lower("proc main() -> Int { break; }").unwrap();
    assert_eq!(procs[25].stack_size, 0);
    let procs = lower("proc main(a : Int, b : Int) -> Int { return a; }").unwrap();
    assert_eq!(procs[25].stack_size, 2);
}

#[test]
fn should_call_procedures_that_exist_with_as_many_arguments() {
    let procs = lower(PROGRAM).unwrap();
    let helper = find_main(&procs, "helper").unwrap();
    let main = &procs[find_main(&procs, "main").unwrap()];
    let mut seen = 0;
    for op in &main.instrs {
        match op {
            Op::Call(p, args) | Op::Coroutine { proc_id: p, params: args } => {
                assert_eq!((*p, args.len()), (helper, 3));
                assert_eq!(args, &vec![0, 1, 2]);
                seen += 1;
            },
            Op::Closure { proc_id, env } => {
                assert_eq!((*proc_id, env), (helper, &vec![0]));
                seen += 1;
            },
            _ => {},
        }
    }
    assert_eq!(seen, 3);
}

#[test]
fn should_lower_each_statement_to_its_instructions() {
    let procs = lower(
        r#"
proc main(p : Int) -> Int {
    set a : Int = 5;
    set b : Int = call add_int(a, p);
    set a : Int = b;
    set f : Float = 2.5;
    set s : String = "text";
    set t : Bool = true;
    set y : Symbol = ~sym;
    return a;
}
"#,
    )
    .unwrap();
    assert_eq!(procs.len(), 26);
    assert_eq!(
        procs[25],
        Proc {
            name: s("main"),
            instrs: vec![
                Op::SetLocalData(1, RuntimeData::Int(5)),
                Op::Call(0, vec![1, 0]),
                Op::SetLocalReturn(2),
                Op::SetLocalVar { src: 2, dest: 1 },
                Op::SetLocalFloat(3, s("2.5")),
                Op::SetLocalData(4, RuntimeData::String(s("text"))),
                Op::SetLocalData(5, RuntimeData::Bool(true)),
                Op::SetLocalData(6, RuntimeData::Symbol(s("sym"))),
                Op::ReturnLocal(1),
            ],
            stack_size: 7,
        }
    );
}

#[test]
fn should_put_the_primitives_first() {
    let procs = lower("").unwrap();
    let names: Vec<&str> = procs.iter().map(|p| p.name.as_str()).collect();
    assert_eq!(
        names,
        vec![
            "add_int", "add_float", "sub_int", "sub_float", "mul_int", "mul_float", "div_int",
            "div_float", "mod_int", "mod_float", "neg_int", "neg_float", "and", "or", "xor", "not",
            "gt_int", "gt_float", "lt_int", "lt_float", "eq_int", "eq_float", "eq_bool",
            "eq_symbol", "eq_ref",
        ]
    );
    assert_eq!(names.len(), primitives().len());
    assert_eq!(
        procs[0],
        Proc {
            name: s("add_int"),
            instrs: vec![Op::Add(0, 1), Op::SetLocalReturn(2), Op::ReturnLocal(2)],
            stack_size: 3,
        }
    );
    assert_eq!(
        procs[15],
        Proc {
            name: s("not"),
            instrs: vec![Op::Not(0), Op::SetLocalReturn(1), Op::ReturnLocal(1)],
            stack_size: 2,
        }
    );
    assert_eq!(find_main(&procs, "eq_ref"), Some(24));
    assert_eq!(find_main(&procs, "main"), None);
}

#[test]
fn should_refuse_a_call_with_the_wrong_number_of_arguments() {
    let error = CompileError::ProcCallArityMismatch { caller_proc: s("main"), callee_proc: s("add_int") };
    assert_eq!(
        refused("proc main() -> Int { set a : Int = 1; set b : Int = call add_int(a); return b; }"),
        error
    );
    assert_eq!(
        refused("proc main() -> Int { set a : Int = 1; set b : Int = call add_int(a, a, a); return b; }"),
        error
    );
    assert_eq!(
        refused("proc main() -> Int { set a : Int = 1; set c : Coroutine = coroutine add_int(a); return a; }"),
        error
    );
    assert_eq!(
        refused("proc main() -> Int { set a : Int = 1; set c : Closure = closure add_int(a, a, a); return a; }"),
        error
    );
    assert!(lower("proc main() -> Int { set a : Int = 1; set c : Closure = closure add_int(a); return a; }").is_ok());
}

#[test]
fn should_refuse_a_procedure_name_that_is_taken() {
    assert_eq!(
        refused("proc f() -> Int { break; } proc f() -> Int { break; }"),
        CompileError::DupFunName { name: s("f") }
    );
    assert_eq!(
        refused("proc add_int() -> Int { break; }"),
        CompileError::DupFunName { name: s("add_int") }
    );
}

#[test]
fn should_refuse_a_parameter_name_that_is_used_twice() {
    assert_eq!(
        refused("proc f(a : Int, b : Int, a : Bool) -> Int { return b; }"),
        CompileError::ReuseParamName { proc: s("f"), param: s("a") }
    );
}

#[test]
fn should_refuse_a_local_that_is_never_set() {
    assert_eq!(
        refused("proc f() -> Int { return nothing; }"),
        CompileError::AccessMissingLocal { proc: s("f"), local: s("nothing") }
    );
    assert_eq!(
        refused("proc f(a : Int) -> Int { set b : Int = call add_int(a, c); return b; }"),
        CompileError::AccessMissingLocal { proc: s("f"), local: s("c") }
    );
}

#[test]
fn should_refuse_a_procedure_that_does_not_exist() {
    assert_eq!(
        refused("proc f() -> Int { set a : Int = call g(); return a; }"),
        CompileError::AccessMissingProc { caller_proc: s("f"), callee_proc: s("g") }
    );
}

#[test]
fn should_refuse_a_label_that_does_not_exist() {
    assert_eq!(
        refused("proc f() -> Int { jump away; }"),
        CompileError::AccessMissingLabel { proc: s("f"), label: s("away") }
    );
    assert_eq!(
        refused("proc f() -> Int { set b : Bool = true; branch_true away b; }"),
        CompileError::AccessMissingLabel { proc: s("f"), label: s("away") }
    );
}

#[test]
fn should_refuse_types_that_do_not_match() {
    let mismatch = |expected: Type, found: Type| CompileError::TypeMismatch { proc: s("f"), expected, found };
    assert_eq!(
        refused("proc f() -> Int { set b : Bool = true; return b; }"),
        mismatch(Type::Int, Type::Bool)
    );
    assert_eq!(
        refused("proc f() -> Int { set a : Int = 1; label l; branch_true l a; }"),
        mismatch(Type::Bool, Type::Int)
    );
    assert_eq!(
        refused("proc f() -> Int { set a : Int = true; return a; }"),
        mismatch(Type::Bool, Type::Int)
    );
    assert_eq!(
        refused("proc f() -> Int { set a : Int = 1; set a : Bool = true; return a; }"),
        mismatch(Type::Bool, Type::Int)
    );
    assert_eq!(
        refused("proc f() -> Int { set a : Int = 1; set b : Bool = call neg_int(a); return a; }"),
        mismatch(Type::Int, Type::Bool)
    );
    assert_eq!(
        refused("proc f() -> Int { set a : Bool = true; set b : Int = call neg_int(a); return b; }"),
        mismatch(Type::Int, Type::Bool)
    );
    assert_eq!(
        refused("proc f() -> Int { set a : Int = 1; delete a; return a; }"),
        mismatch(Type::Ref, Type::Int)
    );
    assert_eq!(
        refused("proc f() -> Int { set a : Int = 1; set r : Ref = cons a (); return a; }"),
        mismatch(Type::Symbol, Type::Int)
    );
    assert_eq!(
        refused("proc f() -> Int { set a : Int = 1; set r : Int = dyn_call a (); return a; }"),
        mismatch(Type::Closure, Type::Int)
    );
    assert_eq!(
        refused("proc f() -> Int { set a : Int = 1; set r : Int = resume a; return a; }"),
        mismatch(Type::Coroutine, Type::Int)
    );
    assert_eq!(
        refused("proc f(r : Ref) -> Int { set a : Bool = length r; return a; }"),
        mismatch(Type::Int, Type::Bool)
    );
    assert_eq!(
        refused("proc f(a : Int) -> Float { yield a; }"),
        mismatch(Type::Float, Type::Int)
    );
}

#[test]
fn should_resolve_a_label_to_its_last_occurrence() {
    let procs = lower("proc f() -> Int { label l; jump l; label l; }").unwrap();
    assert_eq!(procs[25].instrs, vec![Op::Nop, Op::Jump(2), Op::Nop]);
}

#[test]
fn should_find_the_slot_of_a_local() {
    let slots = vec![(s("a"), Type::Int), (s("b"), Type::Bool)];
    assert_eq!(access(&slots, &s("b"), &s("main"), &Type::Bool), Ok(1));
    assert_eq!(
        access(&slots, &s("b"), &s("main"), &Type::Int),
        Err(CompileError::TypeMismatch { proc: s("main"), expected: Type::Int, found: Type::Bool })
    );
    assert_eq!(
        access(&slots, &s("c"), &s("main"), &Type::Int),
        Err(CompileError::AccessMissingLocal { proc: s("main"), local: s("c") })
    );
}

#[test]
fn should_check_a_call_through_a_closure_that_is_known() {
    let header = "proc tgt(a : Int, b : Bool, c : Int) -> Bool { return b; }\n";
    let body = |rest: &str| {
        format!(
            "{}proc main() -> Bool {{ set x : Int = 1; set y : Bool = true; \
             set f : Closure = closure tgt(x); {} return y; }}",
            header, rest
        )
    };
    assert!(lower(&body("set r : Bool = dyn_call f(y, x);")).is_ok());
    assert!(lower(&body("set r : Coroutine = dyn_coroutine f(y, x);")).is_ok());
    let arity = CompileError::ProcCallArityMismatch { caller_proc: s("main"), callee_proc: s("tgt") };
    assert_eq!(refused(&body("set r : Bool = dyn_call f(y);")), arity);
    assert_eq!(refused(&body("set r : Bool = dyn_call f(y, x, x);")), arity);
    assert_eq!(refused(&body("set r : Coroutine = dyn_coroutine f();")), arity);
    assert_eq!(
        refused(&body("set r : Bool = dyn_call f(x, y);")),
        CompileError::TypeMismatch { proc: s("main"), expected: Type::Bool, found: Type::Int }
    );
    assert_eq!(
        refused(&body("set r : Int = dyn_call f(y, x);")),
        CompileError::TypeMismatch { proc: s("main"), expected: Type::Bool, found: Type::Int }
    );
}

#[test]
fn should_not_check_a_call_through_a_closure_that_is_not_known() {
    let header = "proc tgt(a : Int) -> Bool { set b : Bool = true; return b; }\n\
                  proc other(a : Bool) -> Int { set b : Int = 1; return b; }\n\
                  proc make() -> Closure { set f : Closure = closure tgt(); return f; }\n";
    let accepted = |text: &str| lower(&format!("{}{}", header, text)).is_ok();
    assert!(accepted("proc main(f : Closure) -> Int { set r : Int = dyn_call f(f, f); return r; }"));
    assert!(accepted(
        "proc main(f : Closure) -> Int { set f : Closure = closure tgt(); \
         set r : Int = dyn_call f(); return r; }"
    ));
    assert!(accepted(
        "proc main() -> Int { set f : Closure = call make(); set r : Int = dyn_call f(); return r; }"
    ));
    assert!(accepted(
        "proc main() -> Int { set f : Closure = closure tgt(); set f : Closure = closure other(); \
         set r : Int = dyn_call f(); return r; }"
    ));
    assert!(accepted(
        "proc main() -> Int { set x : Int = 1; set f : Closure = closure tgt(); \
         set f : Closure = closure tgt(x); set r : Int = dyn_call f(); return r; }"
    ));
    assert!(accepted(
        "proc main() -> Int { set g : Closure = closure tgt(); set f : Closure = g; \
         set r : Int = dyn_call f(); return r; }"
    ));
    assert!(!accepted(
        "proc main() -> Int { set r : Int = dyn_call f(); set f : Closure = closure tgt(); return r; }"
    ));
}
