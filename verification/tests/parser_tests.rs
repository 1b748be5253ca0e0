use dne::parsing::ir_parser::parse;
use dne::parsing::lexer::lex;

#[test]
fn should_parse_globals() {
    let input = r#"
            global g_1 : Int = 0;
            global g_2 : Bool = true;
            global g_3 : Float = 0.1;
            global g_4 : Float = -0.1;
            global g_5 : Float = -0.1E-10;
            global g_5 : Float = -0.1E+10;
            global g_6 : Int = -1;
            global g_7 : Symbol = ~Symbol;
       "#;

    let output = parse(input).unwrap();
    assert_eq!(output.len(), 8);
}

#[test]
fn should_parse_empty_params_proc() {
    let input = r#"
            proc name() -> Int { set x : Int = 0; return x; } 
       "#;

    let output = parse(input).unwrap();
    assert_eq!(output.len(), 1);
}

#[test]
fn should_parse_params_proc() {
    let input = r#"
            proc name(x : Int, y : Int, z : Int) -> Int { return x; } 
       "#;

    let output = parse(input).unwrap();
    assert_eq!(output.len(), 1);
}

#[test]
fn should_parse_types() {
    let input = r#"
            proc name(x : Int) -> Int { return x; } 
            proc name(x : Float) -> Float { return x; } 
            proc name(x : String) -> String { return x; } 
            proc name(x : Bool) -> Bool { return x; } 
            proc name(x : Symbol) -> Symbol { return x; } 
            proc name(x : Ref) -> Ref { return x; } 
            proc name(x : Closure) -> Closure { return x; } 
            proc name(x : Coroutine) -> Coroutine { return x; } 
       "#;

    let output = parse(input).unwrap();
    assert_eq!(output.len(), 8);
}

#[test]
fn should_parse_statements() {
    let input = r#"
            proc name() -> Int { 
                set x : Int = 0;
                set b : Bool = false;
                yield x;
                jump location;
                label location;
                branch_true location b;
                break;
                slot_insert r i 1;
                slot_remove r 0;
                return x;
            } 
       "#;

    let output = parse(input).unwrap();
    assert_eq!(output.len(), 1);
}

#[test]
fn should_parse_exprs() {
    let input = r#"
            proc name() -> Int { 
                set x : Int = 0;
                set y : Float = 1.0;
                set z : Bool = true;
                set w : Int = call name (x, y, z);
                set a : Coroutine = coroutine name (x, y, z);
                set b : Int = resume a;
                set c : Int = x;
                set i : Ref = cons Blah (x, y, z);
                set j : Symbol = type i;
                set k : Int = slot i 0;
                set f : Closure = closure name (x, y, z);
                set g : Int = dyn_call f (x, y, z);
                set q : Coroutine = dyn_coroutine name (x, y, z);
                set r : Int = length i;
                set s : Symbol = ~Sym;
                return x;
            } 
       "#;

    let output = parse(input).unwrap();
    assert_eq!(output.len(), 1);
}

#[test]
fn should_lex_punct() {
    let input = "(){}:;,=";
    let output = lex(input).unwrap();
    assert_eq!(output.len(), 8);
}
