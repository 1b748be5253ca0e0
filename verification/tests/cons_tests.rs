use dne::compiling::ir_compiler::{compile, find_main};
use dne::eval::data::RuntimeData;
use dne::eval::error::VmError;
use dne::eval::model::FloatOp;
use dne::eval::vm::{FloatRequest, Vm};
use dne::parsing::ir_parser::parse;

/// What a host answers to a question of the machine.
#[allow(dead_code)]
fn answer(req: FloatRequest) -> RuntimeData {
    match req {
        FloatRequest::Decode(text) => RuntimeData::Float(text.parse::<f64>().unwrap().to_bits()),
        FloatRequest::Apply(op, a, b) => {
            let x = f64::from_bits(a);
            let y = f64::from_bits(b);
            match op {
                FloatOp::Add => RuntimeData::Float((x + y).to_bits()),
                FloatOp::Sub => RuntimeData::Float((x - y).to_bits()),
                FloatOp::Mul => RuntimeData::Float((x * y).to_bits()),
                FloatOp::Div => RuntimeData::Float((x / y).to_bits()),
                FloatOp::Mod => RuntimeData::Float((x % y).to_bits()),
                FloatOp::Neg => RuntimeData::Float((-x).to_bits()),
                FloatOp::Eq => RuntimeData::Bool(x == y),
                FloatOp::Gt => RuntimeData::Bool(x > y),
                FloatOp::Lt => RuntimeData::Bool(x < y),
                FloatOp::ToString => RuntimeData::String(format!("{}", x)),
            }
        },
    }
}

#[allow(dead_code)]
fn run(input: &str) -> Result<Option<RuntimeData>, VmError> {
    let ir = parse(input).unwrap();
    let procs = compile(&ir).unwrap();
    let main = find_main(&procs, "main").expect("cannot find main");
    let mut vm = Vm::new(procs);
    let mut result = vm.run(main)?;
    loop {
        match vm.pending() {
            Some(req) => {
                assert!(vm.answer(answer(req)));
                result = vm.resume(u64::MAX)?;
            },
            None => return Ok(result),
        }
    }
}

#[allow(dead_code)]
fn test(input: &str) -> Option<RuntimeData> {
    run(input).unwrap()
}

#[allow(dead_code)]
fn test_fails(input: &str) -> VmError {
    run(input).unwrap_err()
}

#[allow(dead_code)]
fn as_int(v: RuntimeData) -> i64 {
    match v {
        RuntimeData::Int(x) => x,
        other => panic!("not an int: {:?}", other),
    }
}

#[allow(dead_code)]
fn as_float(v: RuntimeData) -> f64 {
    match v {
        RuntimeData::Float(x) => f64::from_bits(x),
        other => panic!("not a float: {:?}", other),
    }
}

#[allow(dead_code)]
fn as_bool(v: RuntimeData) -> bool {
    match v {
        RuntimeData::Bool(x) => x,
        other => panic!("not a bool: {:?}", other),
    }
}

#[allow(dead_code)]
fn as_symbol(v: RuntimeData) -> String {
    match v {
        RuntimeData::Symbol(x) => x,
        other => panic!("not a symbol: {:?}", other),
    }
}

#[allow(dead_code)]
fn as_string(v: RuntimeData) -> String {
    match v {
        RuntimeData::String(x) => x,
        other => panic!("not a string: {:?}", other),
    }
}

#[test]
fn should_remove_slot() {
    let input = r"
proc main() -> Int {

    set name : Symbol = ~blah;
    set p1 : Int = 2;
    set p2 : Float = 0.1;

    set cell : Ref = cons name (p2, p1);

    slot_remove cell 0;

    set a : Int = slot cell 0;
    set len : Int = length cell;

    set ret : Int = call add_int(len, a);

    return ret;
}
"; 

    let output = as_int(test(input).unwrap());
    assert_eq!(output, 3);
}

#[test]
fn should_insert_slot() {
    let input = r"
proc main() -> Int {

    set name : Symbol = ~blah;
    set p1 : Int = 2;
    set p2 : Float = 0.1;
    set p3 : Int = 10;

    set cell : Ref = cons name (p1, p2);

    slot_insert cell p3 2;
    slot_insert cell p3 0;

    set a : Int = slot cell 0;
    set b : Int = slot cell 3;

    set ret : Int = call add_int(a, b);

    set len : Int = length cell;

    set ret : Int = call add_int(ret, len);

    return ret;
}
"; 

    let output = as_int(test(input).unwrap());
    assert_eq!(output, 24);
}

#[test]
fn should_get_type() {
    let input = r"
proc main() -> Symbol {

    set name : Symbol = ~blah;
    set p1 : Int = 2;
    set p2 : Float = 0.1;

    set cell : Ref = cons name (p1, p2);

    set ret : Symbol = type cell;

    return ret;
}
"; 

    let output = as_symbol(test(input).unwrap());
    assert_eq!(output, "blah");
}

#[test]
fn should_get_length() {
    let input = r"
proc main() -> Int {

    set name : Symbol = ~blah;
    set p1 : Int = 2;
    set p2 : Float = 0.1;

    set cell : Ref = cons name (p1, p2);

    set ret : Int = length cell;

    return ret;
}
"; 

    let output = as_int(test(input).unwrap());
    assert_eq!(output, 2);
}

#[test]
fn should_get_slot() {
    let input = r"
proc main() -> Float {

    set name : Symbol = ~blah;
    set p1 : Int = 2;
    set p2 : Float = 0.1;

    set cell : Ref = cons name (p1, p2);

    set ret : Float = slot cell 1;

    delete cell;

    return ret;
}
"; 

    let output = as_float(test(input).unwrap());
    assert_eq!(output, 0.1);
}

#[test]
fn should_delete() {
    let input = r"
proc main() -> Float {

    set name : Symbol = ~blah;
    set p1 : Int = 2;
    set p2 : Float = 0.1;

    set cell : Ref = cons name (p1, p2);

    delete cell;

    set ret : Float = slot cell 1;

    return ret;
}
"; 

    let output = test_fails(input);
    assert!(matches!(output, VmError::AccessNilHeap(_, _)));
}
