use dne::compiling::ir_compiler::{compile, find_main};
use dne::eval::data::RuntimeData;
use dne::eval::error::VmError;
use dne::eval::model::FloatOp;
use dne::eval::vm::{FloatRequest, Vm};
use dne::parsing::ir_parser::parse;

/// What a host answers to a question of the machine.
#[allow(dead_code)]
fn answer(req: FloatRequest) -> RuntimeData {
    match req {
        FloatRequest::Decode(text) => RuntimeData::Float(text.parse::<f64>().unwrap().to_bits()),
        FloatRequest::Apply(op, a, b) => {
            let x = f64::from_bits(a);
            let y = f64::from_bits(b);
            match op {
                FloatOp::Add => RuntimeData::Float((x + y).to_bits()),
                FloatOp::Sub => RuntimeData::Float((x - y).to_bits()),
                FloatOp::Mul => RuntimeData::Float((x * y).to_bits()),
                FloatOp::Div => RuntimeData::Float((x / y).to_bits()),
                FloatOp::Mod => RuntimeData::Float((x % y).to_bits()),
                FloatOp::Neg => RuntimeData::Float((-x).to_bits()),
                FloatOp::Eq => RuntimeData::Bool(x == y),
                FloatOp::Gt => RuntimeData::Bool(x > y),
                FloatOp::Lt => RuntimeData::Bool(x < y),
                FloatOp::ToString => RuntimeData::String(format!("{}", x)),
            }
        },
    }
}

#[allow(dead_code)]
fn run(input: &str) -> Result<Option<RuntimeData>, VmError> {
    let ir = parse(input).unwrap();
    let procs = compile(&ir).unwrap();
    let main = find_main(&procs, "main").expect("cannot find main");
    let mut vm = Vm::new(procs);
    let mut result = vm.run(main)?;
    loop {
        match vm.pending() {
            Some(req) => {
                assert!(vm.answer(answer(req)));
                result = vm.resume(u64::MAX)?;
            },
            None => return Ok(result),
        }
    }
}

#[allow(dead_code)]
fn test(input: &str) -> Option<RuntimeData> {
    run(input).unwrap()
}

#[allow(dead_code)]
fn test_fails(input: &str) -> VmError {
    run(input).unwrap_err()
}

#[allow(dead_code)]
fn as_int(v: RuntimeData) -> i64 {
    match v {
        RuntimeData::Int(x) => x,
        other => panic!("not an int: {:?}", other),
    }
}

#[allow(dead_code)]
fn as_float(v: RuntimeData) -> f64 {
    match v {
        RuntimeData::Float(x) => f64::from_bits(x),
        other => panic!("not a float: {:?}", other),
    }
}

#[allow(dead_code)]
fn as_bool(v: RuntimeData) -> bool {
    match v {
        RuntimeData::Bool(x) => x,
        other => panic!("not a bool: {:?}", other),
    }
}

#[allow(dead_code)]
fn as_symbol(v: RuntimeData) -> String {
    match v {
        RuntimeData::Symbol(x) => x,
        other => panic!("not a symbol: {:?}", other),
    }
}

#[allow(dead_code)]
fn as_string(v: RuntimeData) -> String {
    match v {
        RuntimeData::String(x) => x,
        other => panic!("not a string: {:?}", other),
    }
}

#[test]
fn coroutine_tests_should_detect_nil() {
    let input = r"
proc target() -> Int {
    break;
}
proc main() -> Bool {
    set co : Coroutine = coroutine target();
    set a : Int = resume co;
    set ret : Bool = is_nil a;
    return ret;
}
"; 

    let output = as_bool(test(input).unwrap());
    assert_eq!(output, true);
}

#[test]
fn coroutine_tests_should_not_detect_nil() {
    let input = r"
proc target() -> Int {
    set x : Int = 7;
    yield x;
    break;
}
proc main() -> Bool {
    set co : Coroutine = coroutine target();
    set a : Int = resume co;
    set ret : Bool = is_nil a;
    return ret;
}
"; 

    let output = as_bool(test(input).unwrap());
    assert_eq!(output, false);
}

#[test]
fn coroutine_tests_should_yield_twice() {
    let input = r"
proc target() -> Int {
    set x : Int = 7;
    set y : Int = 8;
    yield y;
    yield x;
    break;
}
proc main() -> Int {

    set co : Coroutine = coroutine target();

    set a : Int = resume co;
    set b : Int = resume co;
    set ret : Int = call add_int(a, b);

    return ret;
}
"; 

    let output = as_int(test(input).unwrap());
    assert_eq!(output, 15);
}

#[test]
fn coroutine_tests_should_handle_two_coroutines_with_same_function() {
    let input = r"
proc target(y : Int) -> Int {
    set x : Int = 2;
    yield x;
    yield y;
    break;
}
proc main() -> Int {

    set i1 : Int = 3;
    set i2 : Int = 4;
    set co1 : Coroutine = coroutine target(i1);
    set co2 : Coroutine = coroutine target(i2);

    set a : Int = resume co1;
    set b : Int = resume co2;
    set c : Int = resume co2;
    set d : Int = resume co1;

    set r1 : Int = call add_int(a, b);
    set r2 : Int = call add_int(c, d);
    set r3 : Int = call mul_int(r1, r2);

    return r3;
}
"; 

    let output = as_int(test(input).unwrap());
    assert_eq!(output, 28);
}

#[test]
fn coroutine_tests_should_handle_coroutine_as_param() {
    let input = r"
proc target_inner() -> Int {
    set x : Int = 1;
    set y : Int = 2;
    yield x;
    yield y;
    break;
}
proc target(c : Coroutine) -> Int {
    set x : Int = 3;
    set y : Int = 5;
    yield x;
    set z : Int = resume c;
    yield z;
    yield y;
    break;
}
proc main() -> Int {
    set co1 : Coroutine = coroutine target_inner();
    set trash : Int = resume co1;
    set co2 : Coroutine = coroutine target(co1);

    set a : Int = resume co2;
    set b : Int = resume co2;
    set c : Int = resume co2;

    set ret : Int = call mul_int(a, b); 
    set ret : Int = call sub_int(ret, c);

    return ret;
}
"; 

    let output = as_int(test(input).unwrap());
    assert_eq!(output, 1);
}

#[test]
fn coroutine_tests_should_handle_coroutine_as_return() {
    let input = r"
proc target(x : Int, y : Int) -> Int {
    yield x;
    yield y;
    break;
}
proc p() -> Coroutine {
    set a : Int = 10;
    set b : Int = 20;
    set c : Coroutine = coroutine target(a, b);
    set trash : Int = resume c; 
    return c;
}
proc main() -> Int {
    set c : Coroutine = call p();
    set ret : Int = resume c;
    return ret;
}
"; 

    let output = as_int(test(input).unwrap());
    assert_eq!(output, 20);
}
