use dne::compiling::ir_compiler::{compile, find_main};
use dne::eval::data::RuntimeData;
use dne::eval::error::VmError;
use dne::eval::model::FloatOp;
use dne::eval::vm::{FloatRequest, Vm};
use dne::parsing::ir_parser::parse;

/// What a host answers to a question of the machine.
#[allow(dead_code)]
fn answer(req: FloatRequest) -> RuntimeData {
    match req {
        FloatRequest::Decode(text) => RuntimeData::Float(text.parse::<f64>().unwrap().to_bits()),
        FloatRequest::Apply(op, a, b) => {
            let x = f64::from_bits(a);
            let y = f64::from_bits(b);
            match op {
                FloatOp::Add => RuntimeData::Float((x + y).to_bits()),
                FloatOp::Sub => RuntimeData::Float((x - y).to_bits()),
                FloatOp::Mul => RuntimeData::Float((x * y).to_bits()),
                FloatOp::Div => RuntimeData::Float((x / y).to_bits()),
                FloatOp::Mod => RuntimeData::Float((x % y).to_bits()),
                FloatOp::Neg => RuntimeData::Float((-x).to_bits()),
                FloatOp::Eq => RuntimeData::Bool(x == y),
                FloatOp::Gt => RuntimeData::Bool(x > y),
                FloatOp::Lt => RuntimeData::Bool(x < y),
                FloatOp::ToString => RuntimeData::String(format!("{}", x)),
            }
        },
    }
}

#[allow(dead_code)]
fn run(input: &str) -> Result<Option<RuntimeData>, VmError> {
    let ir = parse(input).unwrap();
    let procs = compile(&ir).unwrap();
    let main = find_main(&procs, "main").expect("cannot find main");
    let mut vm = Vm::new(procs);
    let mut result = vm.run(main)?;
    loop {
        match vm.pending() {
            Some(req) => {
                assert!(vm.answer(answer(req)));
                result = vm.resume(u64::MAX)?;
            },
            None => return Ok(result),
        }
    }
}

#[allow(dead_code)]
fn test(input: &str) -> Option<RuntimeData> {
    run(input).unwrap()
}

#[allow(dead_code)]
fn test_fails(input: &str) -> VmError {
    run(input).unwrap_err()
}

#[allow(dead_code)]
fn as_int(v: RuntimeData) -> i64 {
    match v {
        RuntimeData::Int(x) => x,
        other => panic!("not an int: {:?}", other),
    }
}

#[allow(dead_code)]
fn as_float(v: RuntimeData) -> f64 {
    match v {
        RuntimeData::Float(x) => f64::from_bits(x),
        other => panic!("not a float: {:?}", other),
    }
}

#[allow(dead_code)]
fn as_bool(v: RuntimeData) -> bool {
    match v {
        RuntimeData::Bool(x) => x,
        other => panic!("not a bool: {:?}", other),
    }
}

#[allow(dead_code)]
fn as_symbol(v: RuntimeData) -> String {
    match v {
        RuntimeData::Symbol(x) => x,
        other => panic!("not a symbol: {:?}", other),
    }
}

#[allow(dead_code)]
fn as_string(v: RuntimeData) -> String {
    match v {
        RuntimeData::String(x) => x,
        other => panic!("not a string: {:?}", other),
    }
}

#[test]
fn should_closure_and_dyn_call() {
    let input = r"
proc target() -> Int {
    set x : Int = 7;
    return x;
}
proc main() -> Int {

    set f : Closure = closure target();

    set ret : Int = dyn_call f();

    return ret;
}
"; 

    let output = as_int(test(input).unwrap());
    assert_eq!(output, 7);
}

#[test]
fn should_closure_and_dyn_call_with_env() {
    let input = r"
proc target(x : Int) -> Int {
    return x;
}
proc main() -> Int {

    set e1 : Int = 7;

    set f : Closure = closure target(e1);

    set ret : Int = dyn_call f();

    return ret;
}
"; 

    let output = as_int(test(input).unwrap());
    assert_eq!(output, 7);
}

#[test]
fn should_closure_and_dyn_call_with_params() {
    let input = r"
proc target(x : Int) -> Int {
    return x;
}
proc main() -> Int {

    set p1 : Int = 7;

    set f : Closure = closure target();

    set ret : Int = dyn_call f(p1);

    return ret;
}
"; 

    let output = as_int(test(input).unwrap());
    assert_eq!(output, 7);
}

#[test]
fn should_closure_and_dyn_call_with_env_and_params() {
    let input = r"
proc target(x1 : Int, x2 : Int, y1 : Int, y2 : Int) -> Int {
    set z : Int = 7;
    set ret : Int = call add_int(x1, y1);
    set ret : Int = call add_int(ret, x2);
    set ret : Int = call add_int(ret, y2);
    set ret : Int = call add_int(ret, z);
    return ret;
}
proc main() -> Int {

    set e1 : Int = 1;
    set e2 : Int = 2;
    set p1 : Int = 3;
    set p2 : Int = 4;

    set f : Closure = closure target(e1, e2);

    set ret : Int = dyn_call f(p1, p2);

    return ret;
}
"; 

    let output = as_int(test(input).unwrap());
    assert_eq!(output, 17);
}

#[test]
fn should_return_closure() {
    let input = r"
proc target(x : Int, y : Int) -> Int {
    set ret : Int = call add_int(x, y);
    return ret;
}
proc returner() -> Closure {
    set x : Int = 1;
    set r : Closure = closure target(x);
    return r;
}
proc main() -> Int {

    set f : Closure = call returner();
    set x : Int = 2;

    set ret : Int = dyn_call f(x);

    return ret;
}
"; 

    let output = as_int(test(input).unwrap());
    assert_eq!(output, 3);
}

#[test]
fn should_accept_closure() {
    let input = r"
proc target(x : Int, y : Int) -> Int {
    set ret : Int = call add_int(x, y);
    return ret;
}
proc caller(f : Closure) -> Int {
    set x : Int = 2;
    set r : Int = dyn_call f(x);
    return r;
}
proc main() -> Int {

    set x : Int = 1;
    set f : Closure = closure target(x);

    set ret : Int = call caller(f);

    return ret;
}
"; 

    let output = as_int(test(input).unwrap());
    assert_eq!(output, 3);
}
