use dne::compiling::ir_compiler::{compile, find_main};
use dne::eval::data::{Coroutine, Heap, RuntimeData};
use dne::eval::error::VmError;
use dne::eval::model::FloatOp;
use dne::eval::vm::{FloatRequest, Vm};
use dne::parsing::ir_parser::parse;

/// What a host answers to a question of the machine.
#[allow(dead_code)]
fn answer(req: FloatRequest) -> RuntimeData {
    match req {
        FloatRequest::Decode(text) => RuntimeData::Float(text.parse::<f64>().unwrap().to_bits()),
        FloatRequest::Apply(op, a, b) => {
            let x = f64::from_bits(a);
            let y = f64::from_bits(b);
            match op {
                FloatOp::Add => RuntimeData::Float((x + y).to_bits()),
                FloatOp::Sub => RuntimeData::Float((x - y).to_bits()),
                FloatOp::Mul => RuntimeData::Float((x * y).to_bits()),
                FloatOp::Div => RuntimeData::Float((x / y).to_bits()),
                FloatOp::Mod => RuntimeData::Float((x % y).to_bits()),
                FloatOp::Neg => RuntimeData::Float((-x).to_bits()),
                FloatOp::Eq => RuntimeData::Bool(x == y),
                FloatOp::Gt => RuntimeData::Bool(x > y),
                FloatOp::Lt => RuntimeData::Bool(x < y),
                FloatOp::ToString => RuntimeData::String(format!("{}", x)),
            }
        },
    }
}

#[allow(dead_code)]
fn run(input: &str) -> Result<Option<RuntimeData>, VmError> {
    let ir = parse(input).unwrap();
    let procs = compile(&ir).unwrap();
    let main = find_main(&procs, "main").expect("cannot find main");
    let mut vm = Vm::new(procs);
    let mut result = vm.run(main)?;
    loop {
        match vm.pending() {
            Some(req) => {
                assert!(vm.answer(answer(req)));
                result = vm.resume(u64::MAX)?;
            },
            None => return Ok(result),
        }
    }
}

#[allow(dead_code)]
fn test(input: &str) -> Option<RuntimeData> {
    run(input).unwrap()
}

#[allow(dead_code)]
fn test_fails(input: &str) -> VmError {
    run(input).unwrap_err()
}

#[allow(dead_code)]
fn as_int(v: RuntimeData) -> i64 {
    match v {
        RuntimeData::Int(x) => x,
        other => panic!("not an int: {:?}", other),
    }
}

#[allow(dead_code)]
fn as_float(v: RuntimeData) -> f64 {
    match v {
        RuntimeData::Float(x) => f64::from_bits(x),
        other => panic!("not a float: {:?}", other),
    }
}

#[allow(dead_code)]
fn as_bool(v: RuntimeData) -> bool {
    match v {
        RuntimeData::Bool(x) => x,
        other => panic!("not a bool: {:?}", other),
    }
}

#[allow(dead_code)]
fn as_symbol(v: RuntimeData) -> String {
    match v {
        RuntimeData::Symbol(x) => x,
        other => panic!("not a symbol: {:?}", other),
    }
}

#[allow(dead_code)]
fn as_string(v: RuntimeData) -> String {
    match v {
        RuntimeData::String(x) => x,
        other => panic!("not a string: {:?}", other),
    }
}


#[test]
fn should_add_two_ints() {
    let input = r"
proc main() -> Int { set a : Int = 3; set b : Int = 2;
                     set c : Int = call add_int(a, b); return c; }
";
    assert_eq!(test(input), Some(RuntimeData::Int(5)));
}

#[test]
fn should_count_to_one_hundred() {
    let input = r"
proc main() -> Int { set one:Int=1; set hundred:Int=100; set x:Int=0;
  label loop; set x:Int = call add_int(x, one);
  set b:Bool = call eq_int(x, hundred); branch_true end b; jump loop;
  label end; return x; }
";
    assert_eq!(test(input), Some(RuntimeData::Int(100)));
}

#[test]
fn should_call_closure_with_captured_env_and_args() {
    let input = r"
proc tgt(x1:Int,x2:Int,y1:Int,y2:Int) -> Int {
  set z:Int = 7;
  set r:Int = call add_int(x1, x2);
  set r:Int = call add_int(r, y1);
  set r:Int = call add_int(r, y2);
  set r:Int = call add_int(r, z);
  return r; }
proc main() -> Int { set e1:Int=1; set e2:Int=2; set p1:Int=3; set p2:Int=4;
  set f:Closure = closure tgt(e1, e2);
  set r:Int = dyn_call f(p1, p2); return r; }
";
    assert_eq!(test(input), Some(RuntimeData::Int(17)));
}

#[test]
fn should_cons_then_slot_then_delete() {
    let input = r"
proc main() -> Float { set n:Symbol=~blah; set a:Int=2; set b:Float=0.1;
  set c:Ref = cons n(a,b); set r:Float = slot c 1; delete c; return r; }
";
    assert_eq!(as_float(test(input).unwrap()), 0.1);
}

#[test]
fn should_alternate_two_coroutines() {
    let input = r"
proc target(y : Int) -> Int { set x : Int = 2; yield x; yield y; break; }
proc main() -> Int {
    set i1 : Int = 3; set i2 : Int = 4;
    set co1 : Coroutine = coroutine target(i1);
    set co2 : Coroutine = coroutine target(i2);
    set a : Int = resume co1; set b : Int = resume co2;
    set c : Int = resume co2; set d : Int = resume co1;
    set r1 : Int = call add_int(a, b);
    set r2 : Int = call add_int(c, d);
    set r3 : Int = call mul_int(r1, r2);
    return r3;
}
";
    assert_eq!(test(input), Some(RuntimeData::Int(28)));
}

#[test]
fn should_pass_and_return_a_coroutine() {
    let input = r"
proc target(x : Int, y : Int) -> Int { yield x; yield y; break; }
proc p() -> Coroutine {
    set a : Int = 10; set b : Int = 20;
    set c : Coroutine = coroutine target(a, b);
    set trash : Int = resume c;
    return c;
}
proc main() -> Int { set c : Coroutine = call p(); set ret : Int = resume c; return ret; }
";
    assert_eq!(test(input), Some(RuntimeData::Int(20)));
}

#[test]
fn should_concat_the_text_of_every_type() {
    let input = r#"
proc target() -> Int { break; }
proc main() -> String {
    set i : Int = 1;
    set f : Float = 2.2;
    set b : Bool = true;
    set s : Symbol = ~sym;
    set t : String = "str";
    set co : Coroutine = coroutine target();
    set cl : Closure = closure target();
    set n : Int = resume co;
    set name : Symbol = ~cell;
    set r : Ref = cons name ();
    set acc : String = to_string i;
    set x : String = to_string f;
    set acc : String = concat acc x;
    set x : String = to_string b;
    set acc : String = concat acc x;
    set x : String = to_string s;
    set acc : String = concat acc x;
    set x : String = to_string t;
    set acc : String = concat acc x;
    set x : String = to_string co;
    set acc : String = concat acc x;
    set x : String = to_string cl;
    set acc : String = concat acc x;
    set x : String = to_string n;
    set acc : String = concat acc x;
    set x : String = to_string r;
    set acc : String = concat acc x;
    return acc;
}
"#;
    assert_eq!(as_string(test(input).unwrap()), "12.2truesymstrcoroutineclosurenilref(0)");
}

#[test]
fn should_yield_each_value_then_nil() {
    let input = r"
proc target(a : Int, b : Int, c : Int) -> Int { yield a; yield b; yield c; break; }
proc main() -> Ref {
    set x : Int = 11; set y : Int = 22; set z : Int = 33;
    set co : Coroutine = coroutine target(x, y, z);
    set r1 : Int = resume co;
    set r2 : Int = resume co;
    set r3 : Int = resume co;
    set r4 : Int = resume co;
    set r5 : Int = resume co;
    set name : Symbol = ~results;
    set cell : Ref = cons name (r1, r2, r3, r4, r5);
    return cell;
}
";
    let ir = parse(input).unwrap();
    let procs = compile(&ir).unwrap();
    let main = find_main(&procs, "main").unwrap();
    let mut vm = Vm::new(procs);
    assert_eq!(vm.run(main), Ok(Some(RuntimeData::Ref(0))));
    assert_eq!(
        vm.cell(0),
        Some(&Heap::Cons {
            name: "results".to_string(),
            params: vec![
                RuntimeData::Int(11),
                RuntimeData::Int(22),
                RuntimeData::Int(33),
                RuntimeData::Nil,
                RuntimeData::Nil,
            ],
        })
    );
    assert_eq!(vm.coroutine(0), Some(&Coroutine::Ended));
    assert!(!vm.coroutine(0).unwrap().is_alive());
    assert_eq!(vm.coroutine(1), None);
}

#[test]
fn should_return_a_value_of_the_declared_type() {
    let input = r"
proc main() -> Bool { set a : Int = 3; set b : Int = 2;
                      set c : Bool = call gt_int(a, b); return c; }
";
    assert!(matches!(test(input), Some(RuntimeData::Bool(true))));
}

#[test]
fn should_return_what_each_procedure_declares() {
    let input = r#"
proc text(n : Int) -> String { set t : String = to_string n; return t; }
proc cell(a : Int) -> Ref { set name : Symbol = ~box; set r : Ref = cons name (a); return r; }
proc size(r : Ref) -> Int { set n : Int = length r; return n; }
proc main() -> String {
    set one : Int = 41;
    set r : Ref = call cell(one);
    set n : Int = call size(r);
    set sum : Int = call add_int(one, n);
    set t : String = call text(sum);
    return t;
}
"#;
    assert_eq!(test(input), Some(RuntimeData::String("42".to_string())));
}

#[test]
fn should_return_nil_from_a_slot_that_was_never_written() {
    let input = r"
proc main() -> Int { jump end; set x : Int = 1; label end; return x; }
";
    assert_eq!(test(input), Some(RuntimeData::Nil));
}

#[test]
fn should_let_a_slot_read_change_the_type_of_a_local() {
    let input = r"
proc main() -> Int { set n : Symbol = ~cell; set b : Bool = true;
  set r : Ref = cons n (b); set x : Int = slot r 0; return x; }
";
    assert_eq!(test(input), Some(RuntimeData::Bool(true)));
}

#[test]
fn should_return_what_a_known_closure_returns() {
    let input = r"
proc pick(a : Int, b : Bool, c : Int) -> Bool { return b; }
proc main() -> Bool {
    set x : Int = 1; set y : Bool = true;
    set f : Closure = closure pick(x);
    set r : Bool = dyn_call f(y, x);
    return r;
}
";
    assert_eq!(test(input), Some(RuntimeData::Bool(true)));
}

#[test]
fn should_let_a_closure_that_is_not_known_change_the_type_of_a_local() {
    let input = r"
proc pick(b : Bool) -> Bool { return b; }
proc call_it(f : Closure, b : Bool) -> Int { set r : Int = dyn_call f(b); return r; }
proc main() -> Int {
    set y : Bool = true;
    set f : Closure = closure pick();
    set r : Int = call call_it(f, y);
    return r;
}
";
    assert_eq!(test(input), Some(RuntimeData::Bool(true)));
}
