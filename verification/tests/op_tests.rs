use dne::compiling::ir_compiler::{compile, find_main};
use dne::eval::data::RuntimeData;
use dne::eval::error::VmError;
use dne::eval::model::FloatOp;
use dne::eval::vm::{FloatRequest, Vm};
use dne::parsing::ir_parser::parse;

/// What a host answers to a question of the machine.
#[allow(dead_code)]
fn answer(req: FloatRequest) -> RuntimeData {
    match req {
        FloatRequest::Decode(text) => RuntimeData::Float(text.parse::<f64>().unwrap().to_bits()),
        FloatRequest::Apply(op, a, b) => {
            let x = f64::from_bits(a);
            let y = f64::from_bits(b);
            match op {
                FloatOp::Add => RuntimeData::Float((x + y).to_bits()),
                FloatOp::Sub => RuntimeData::Float((x - y).to_bits()),
                FloatOp::Mul => RuntimeData::Float((x * y).to_bits()),
                FloatOp::Div => RuntimeData::Float((x / y).to_bits()),
                FloatOp::Mod => RuntimeData::Float((x % y).to_bits()),
                FloatOp::Neg => RuntimeData::Float((-x).to_bits()),
                FloatOp::Eq => RuntimeData::Bool(x == y),
                FloatOp::Gt => RuntimeData::Bool(x > y),
                FloatOp::Lt => RuntimeData::Bool(x < y),
                FloatOp::ToString => RuntimeData::String(format!("{}", x)),
            }
        },
    }
}

#[allow(dead_code)]
fn run(input: &str) -> Result<Option<RuntimeData>, VmError> {
    let ir = parse(input).unwrap();
    let procs = compile(&ir).unwrap();
    let main = find_main(&procs, "main").expect("cannot find main");
    let mut vm = Vm::new(procs);
    let mut result = vm.run(main)?;
    loop {
        match vm.pending() {
            Some(req) => {
                assert!(vm.answer(answer(req)));
                result = vm.resume(u64::MAX)?;
            },
            None => return Ok(result),
        }
    }
}

#[allow(dead_code)]
fn test(input: &str) -> Option<RuntimeData> {
    run(input).unwrap()
}

#[allow(dead_code)]
fn test_fails(input: &str) -> VmError {
    run(input).unwrap_err()
}

#[allow(dead_code)]
fn as_int(v: RuntimeData) -> i64 {
    match v {
        RuntimeData::Int(x) => x,
        other => panic!("not an int: {:?}", other),
    }
}

#[allow(dead_code)]
fn as_float(v: RuntimeData) -> f64 {
    match v {
        RuntimeData::Float(x) => f64::from_bits(x),
        other => panic!("not a float: {:?}", other),
    }
}

#[allow(dead_code)]
fn as_bool(v: RuntimeData) -> bool {
    match v {
        RuntimeData::Bool(x) => x,
        other => panic!("not a bool: {:?}", other),
    }
}

#[allow(dead_code)]
fn as_symbol(v: RuntimeData) -> String {
    match v {
        RuntimeData::Symbol(x) => x,
        other => panic!("not a symbol: {:?}", other),
    }
}

#[allow(dead_code)]
fn as_string(v: RuntimeData) -> String {
    match v {
        RuntimeData::String(x) => x,
        other => panic!("not a string: {:?}", other),
    }
}

#[test]
fn should_lt_floats() {
    let input = r"
proc main() -> Bool {
    set z : Float = 4.9;
    set y : Float = 5.1;
    set x : Bool = call lt_float(z, y);
    return x;
}
"; 

    let output = as_bool(test(input).unwrap());
    assert_eq!(output, true);
}

#[test]
fn should_lt_ints() {
    let input = r"
proc main() -> Bool {
    set z : Int = 9;
    set y : Int = 10;
    set x : Bool = call lt_int(z, y);
    return x;
}
"; 

    let output = as_bool(test(input).unwrap());
    assert_eq!(output, true);
}

#[test]
fn should_gt_floats() {
    let input = r"
proc main() -> Bool {
    set z : Float = 5.1;
    set y : Float = 4.9;
    set x : Bool = call gt_float(z, y);
    return x;
}
"; 

    let output = as_bool(test(input).unwrap());
    assert_eq!(output, true);
}

#[test]
fn should_gt_ints() {
    let input = r"
proc main() -> Bool {
    set z : Int = 10;
    set y : Int = 9;
    set x : Bool = call gt_int(z, y);
    return x;
}
"; 

    let output = as_bool(test(input).unwrap());
    assert_eq!(output, true);
}

#[test]
fn should_xor() {
    let input = r"
proc main() -> Bool {
    set z : Bool = false;
    set y : Bool = true;
    set x : Bool = call xor(z, y);
    return x;
}
"; 

    let output = as_bool(test(input).unwrap());
    assert_eq!(output, true);
}

#[test]
fn should_or() {
    let input = r"
proc main() -> Bool {
    set z : Bool = false;
    set y : Bool = true;
    set x : Bool = call or(z, y);
    return x;
}
"; 

    let output = as_bool(test(input).unwrap());
    assert_eq!(output, true);
}

#[test]
fn should_and() {
    let input = r"
proc main() -> Bool {
    set z : Bool = true;
    set y : Bool = true;
    set x : Bool = call and(z, y);
    return x;
}
"; 

    let output = as_bool(test(input).unwrap());
    assert_eq!(output, true);
}

#[test]
fn should_not() {
    let input = r"
proc main() -> Bool {
    set y : Bool = false;
    set x : Bool = call not(y);
    return x;
}
"; 

    let output = as_bool(test(input).unwrap());
    assert_eq!(output, true);
}

#[test]
fn should_neg_int() {
    let input = r"
proc main() -> Int {
    set y : Int = 3;
    set x : Int = call neg_int(y);
    return x;
}
"; 

    let output = as_int(test(input).unwrap());
    assert_eq!(output, -3);
}

#[test]
fn should_neg_float() {
    let input = r"
proc main() -> Float {
    set y : Float = 3.0;
    set x : Float = call neg_float(y);
    return x;
}
"; 

    let output = as_float(test(input).unwrap());
    assert_eq!(output, -3.0);
}

#[test]
fn should_mod_ints() {
    let input = r"
proc main() -> Int {
    set z : Int = 10;
    set y : Int = 3;
    set x : Int = call mod_int(z, y);
    return x;
}
"; 

    let output = as_int(test(input).unwrap());
    assert_eq!(output, 1);
}

#[test]
fn should_mod_floats() {
    let input = r"
proc main() -> Float {
    set z : Float = 10.0;
    set y : Float = 3.0;
    set x : Float = call mod_float(z, y);
    return x;
}
"; 

    let output = as_float(test(input).unwrap());
    assert_eq!(output, 1.0);
}

#[test]
fn should_mul_ints() {
    let input = r"
proc main() -> Int {
    set z : Int = 6;
    set y : Int = 2;
    set x : Int = call mul_int(z, y);
    return x;
}
"; 

    let output = as_int(test(input).unwrap());
    assert_eq!(output, 12);
}

#[test]
fn should_mul_floats() {
    let input = r"
proc main() -> Float {
    set z : Float = 3.0;
    set y : Float = 2.0;
    set x : Float = call mul_float(z, y);
    return x;
}
"; 

    let output = as_float(test(input).unwrap());
    assert_eq!(output, 6.0);
}

#[test]
fn should_div_ints() {
    let input = r"
proc main() -> Int {
    set z : Int = 6;
    set y : Int = 2;
    set x : Int = call div_int(z, y);
    return x;
}
"; 

    let output = as_int(test(input).unwrap());
    assert_eq!(output, 3);
}

#[test]
fn should_div_floats() {
    let input = r"
proc main() -> Float {
    set z : Float = 3.0;
    set y : Float = 2.0;
    set x : Float = call div_float(z, y);
    return x;
}
"; 

    let output = as_float(test(input).unwrap());
    assert_eq!(output, 1.5);
}

#[test]
fn should_sub_ints() {
    let input = r"
proc main() -> Int {
    set z : Int = 3;
    set y : Int = 2;
    set x : Int = call sub_int(z, y);
    return x;
}
"; 

    let output = as_int(test(input).unwrap());
    assert_eq!(output, 1);
}

#[test]
fn should_sub_floats() {
    let input = r"
proc main() -> Float {
    set z : Float = 3.0;
    set y : Float = 2.0;
    set x : Float = call sub_float(z, y);
    return x;
}
"; 

    let output = as_float(test(input).unwrap());
    assert_eq!(output, 1.0);
}

#[test]
fn op_tests_should_add_ints() {
    let input = r"
proc main() -> Int {
    set z : Int = 3;
    set y : Int = 2;
    set x : Int = call add_int(z, y);
    return x;
}
"; 

    let output = as_int(test(input).unwrap());
    assert_eq!(output, 5);
}

#[test]
fn op_tests_should_add_floats() {
    let input = r"
proc main() -> Float {
    set z : Float = 3.0;
    set y : Float = 2.0;
    set x : Float = call add_float(z, y);
    return x;
}
"; 

    let output = as_float(test(input).unwrap());
    assert_eq!(output, 5.0);
}
