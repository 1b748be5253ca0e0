use dne::parsing::ir_parser::{
    parse, Expr, Global, Lit, ParseError, Proc, Stmt, Top, Type,
};
use dne::parsing::lexer::{lex, Token};
use dne::parsing::parse_input::Input;

fn s(text: &str) -> String {
    text.to_string()
}

fn tokens(input: &str) -> Vec<Token> {
    lex(input).unwrap().into_iter().map(|(t, _, _)| t).collect()
}

#[test]
fn should_lex_each_keyword() {
    assert_eq!(
        tokens(
            "type slot slot_set slot_insert slot_remove length proc return yield resume break \
             coroutine dyn_coroutine set jump label branch_true global call dyn_call closure \
             cons delete is_nil to_string concat true false"
        ),
        vec![
            Token::Type,
            Token::Slot,
            Token::SlotSet,
            Token::SlotInsert,
            Token::SlotRemove,
            Token::Length,
            Token::Proc,
            Token::Return,
            Token::Yield,
            Token::Resume,
            Token::Break,
            Token::Coroutine,
            Token::DynCoroutine,
            Token::SetLocal,
            Token::Jump,
            Token::Label,
            Token::BranchTrue,
            Token::Global,
            Token::Call,
            Token::DynCall,
            Token::Closure,
            Token::Cons,
            Token::Delete,
            Token::IsNil,
            Token::ToString,
            Token::Concat,
            Token::Bool(true),
            Token::Bool(false),
        ]
    );
}

#[test]
fn should_lex_names_and_symbols() {
    assert_eq!(
        tokens("x _y z9_ sets ~sym ~9a Int"),
        vec![
            Token::Symbol(s("x")),
            Token::Symbol(s("_y")),
            Token::Symbol(s("z9_")),
            Token::Symbol(s("sets")),
            Token::ConsType(s("sym")),
            Token::ConsType(s("9a")),
            Token::Symbol(s("Int")),
        ]
    );
}

#[test]
fn should_give_each_token_its_first_and_last_byte() {
    assert_eq!(
        lex("proc  main() -> ~ab 12;"),
        Ok(vec![
            (Token::Proc, 0, 3),
            (Token::Symbol(s("main")), 6, 9),
            (Token::LParen, 10, 10),
            (Token::RParen, 11, 11),
            (Token::Arrow, 13, 14),
            (Token::ConsType(s("ab")), 16, 18),
            (Token::Int(12), 20, 21),
            (Token::SemiColon, 22, 22),
        ])
    );
}

#[test]
fn should_count_offsets_in_bytes() {
    assert_eq!(
        lex("\"\u{e9}\u{20ac}\" x // \u{1f600}\ny"),
        Ok(vec![
            (Token::String(s("\u{e9}\u{20ac}")), 0, 6),
            (Token::Symbol(s("x")), 8, 8),
            (Token::Symbol(s("y")), 18, 18),
        ])
    );
    assert_eq!(
        lex("a \u{e9}t\u{e9} \u{3b2}"),
        Ok(vec![
            (Token::Symbol(s("a")), 0, 0),
            (Token::Symbol(s("\u{e9}t\u{e9}")), 2, 6),
            (Token::Symbol(s("\u{3b2}")), 8, 9),
        ])
    );
    assert_eq!(lex("a \u{20ac}"), Err(2));
    assert_eq!(lex("/* \u{20ac} */ @"), Err(10));
}

#[test]
fn should_lex_numbers() {
    assert_eq!(
        tokens("0 12 -12 -9223372036854775808 9223372036854775807"),
        vec![
            Token::Int(0),
            Token::Int(12),
            Token::Int(-12),
            Token::Int(i64::MIN),
            Token::Int(i64::MAX),
        ]
    );
    assert_eq!(
        tokens("1.5 -0.1 -0.1E-10 -0.1E+10 18.01E-5 1e5 1. -.5 9223372036854775808 -9223372036854775809"),
        vec![
            Token::Float(s("1.5")),
            Token::Float(s("-0.1")),
            Token::Float(s("-0.1E-10")),
            Token::Float(s("-0.1E+10")),
            Token::Float(s("18.01E-5")),
            Token::Float(s("1e5")),
            Token::Float(s("1.")),
            Token::Float(s("-.5")),
            Token::Float(s("9223372036854775808")),
            Token::Float(s("-9223372036854775809")),
        ]
    );
    for text in tokens("1.5 -0.1E-10 1e5 1. -.5 9223372036854775808") {
        match text {
            Token::Float(t) => assert!(t.parse::<f64>().is_ok(), "{}", t),
            other => panic!("{:?}", other),
        }
    }
}

#[test]
fn should_refuse_what_is_no_number() {
    for text in ["1.2.3", "-", "1e", "1e+", "1-2", "--1", "1.e", "-.", "1E5E5", "5+3", "1ee1"] {
        assert_eq!(lex(&format!("  {}", text)), Err(2), "{}", text);
        assert!(text.parse::<i64>().is_err() && text.parse::<f64>().is_err(), "{}", text);
    }
}

#[test]
fn should_take_white_space_as_the_standard_library_does() {
    for code in 0..=0x10FFFFu32 {
        if let Some(c) = char::from_u32(code) {
            let text = c.to_string();
            assert_eq!(lex(&text) == Ok(vec![]), c.is_whitespace(), "{:?}", c);
        }
    }
}

#[test]
fn should_take_letters_and_numbers_of_every_script() {
    assert_eq!(
        tokens("\u{3b1}\u{663}_9 ~\u{2167}x"),
        vec![Token::Symbol(s("\u{3b1}\u{663}_9")), Token::ConsType(s("\u{2167}x"))]
    );
    assert_eq!(lex("x \u{663}"), Err(2));
    assert_eq!(lex("x 1\u{663}"), Err(2));
    assert_eq!(lex("x \u{bd}"), Err(2));
}

#[test]
fn should_lex_the_arrow() {
    assert_eq!(tokens("->-1"), vec![Token::Arrow, Token::Int(-1)]);
    assert_eq!(lex("a->"), Ok(vec![(Token::Symbol(s("a")), 0, 0), (Token::Arrow, 1, 2)]));
}

#[test]
fn should_read_strings_with_escapes() {
    assert_eq!(
        tokens(r#""" "a b" "q\"\\\0\t\r\n" "// no comment""#),
        vec![
            Token::String(s("")),
            Token::String(s("a b")),
            Token::String(s("q\"\\\0\t\r\n")),
            Token::String(s("// no comment")),
        ]
    );
    assert_eq!(lex(r#" "abc"#), Err(1));
    assert_eq!(lex(r#" "ab\"#), Err(4));
    assert_eq!(lex(r#" "ab\x""#), Err(4));
}

#[test]
fn should_skip_comments() {
    assert_eq!(tokens("a // b c\n d"), vec![Token::Symbol(s("a")), Token::Symbol(s("d"))]);
    assert_eq!(tokens("a // b c"), vec![Token::Symbol(s("a"))]);
    assert_eq!(
        tokens("a /* b /* c */ d */ e /**/ f"),
        vec![Token::Symbol(s("a")), Token::Symbol(s("e")), Token::Symbol(s("f"))]
    );
    assert_eq!(lex("a /* b /* c */ d"), Err(2));
    assert_eq!(lex("a / b"), Err(2));
    assert_eq!(lex("*/"), Err(0));
}

#[test]
fn should_refuse_a_character_that_begins_no_token() {
    assert_eq!(lex("set x @ y"), Err(6));
    assert_eq!(lex("~"), Err(0));
    assert_eq!(lex("a ~ b"), Err(2));
    assert_eq!(lex("."), Err(0));
    assert_eq!(lex(""), Ok(vec![]));
    assert_eq!(lex(" \t\r\n\x0B\x0C"), Ok(vec![]));
}

#[test]
fn should_parse_a_procedure() {
    let input = r#"
proc f(a : Int, b : Ref) -> Bool {
    set x : Float = -1.5e3;
    set y : Int = call g (a, x);
    set z : Closure = closure f ();
    set s : String = "hi";
    slot_insert b a 2;
    slot_remove b 0;
    set t : Int = slot b 1;
    set u : String = concat s s;
    set v : Bool = is_nil t;
    set w : String = to_string v;
    delete b;
    label l;
    branch_true l v;
    jump l;
    yield v;
    break;
    return v;
}
global g : Symbol = ~one;
"#;
    let set = |var: &str, ttype: Type, val: Expr| Stmt::SetLocal { var: s(var), ttype, val };
    assert_eq!(
        parse(input),
        Ok(vec![
            Top::Proc(Proc {
                name: s("f"),
                params: vec![(s("a"), Type::Int), (s("b"), Type::Ref)],
                return_type: Type::Bool,
                body: vec![
                    set("x", Type::Float, Expr::Lit(Lit::Float(s("-1.5e3")))),
                    set("y", Type::Int, Expr::Call { name: s("g"), params: vec![s("a"), s("x")] }),
                    set("z", Type::Closure, Expr::Closure { name: s("f"), params: vec![] }),
                    set("s", Type::String, Expr::Lit(Lit::String(s("hi")))),
                    Stmt::SlotInsert { var: s("b"), input: s("a"), index: 2 },
                    Stmt::SlotRemove { var: s("b"), index: 0 },
                    set("t", Type::Int, Expr::Slot { var: s("b"), index: 1 }),
                    set("u", Type::String, Expr::Concat(s("s"), s("s"))),
                    set("v", Type::Bool, Expr::IsNil(s("t"))),
                    set("w", Type::String, Expr::ToString(s("v"))),
                    Stmt::Delete(s("b")),
                    Stmt::Label(s("l")),
                    Stmt::BranchTrue { label: s("l"), var: s("v") },
                    Stmt::Jump(s("l")),
                    Stmt::Yield(s("v")),
                    Stmt::Break,
                    Stmt::Return(s("v")),
                ],
            }),
            Top::Global(Global { name: s("g"), ttype: Type::Symbol, value: Lit::ConsType(s("one")) }),
        ])
    );
}

#[test]
fn should_parse_each_expression() {
    let exprs = |text: &str| match parse(&format!("proc f() -> Int {{ set x : Int = {}; }}", text)) {
        Ok(tops) => match tops.into_iter().next() {
            Some(Top::Proc(mut p)) => match p.body.pop() {
                Some(Stmt::SetLocal { val, .. }) => val,
                other => panic!("{:?}", other),
            },
            other => panic!("{:?}", other),
        },
        Err(e) => panic!("{:?}", e),
    };
    let names = vec![s("a"), s("b")];
    assert_eq!(exprs("7"), Expr::Lit(Lit::Int(7)));
    assert_eq!(exprs("false"), Expr::Lit(Lit::Bool(false)));
    assert_eq!(exprs("~a"), Expr::Lit(Lit::ConsType(s("a"))));
    assert_eq!(exprs("y"), Expr::Var(s("y")));
    assert_eq!(exprs("call f(a, b)"), Expr::Call { name: s("f"), params: names.clone() });
    assert_eq!(exprs("dyn_call f(a, b)"), Expr::DynCall { name: s("f"), params: names.clone() });
    assert_eq!(exprs("coroutine f(a, b)"), Expr::Coroutine { name: s("f"), params: names.clone() });
    assert_eq!(
        exprs("dyn_coroutine f(a, b)"),
        Expr::DynCoroutine { name: s("f"), params: names.clone() }
    );
    assert_eq!(exprs("closure f(a, b)"), Expr::Closure { name: s("f"), params: names.clone() });
    assert_eq!(exprs("cons f(a, b)"), Expr::Cons { name: s("f"), params: names.clone() });
    assert_eq!(exprs("resume c"), Expr::Resume(s("c")));
    assert_eq!(exprs("length c"), Expr::Length(s("c")));
    assert_eq!(exprs("type c"), Expr::Type(s("c")));
    assert_eq!(exprs("slot c 3"), Expr::Slot { var: s("c"), index: 3 });
}

#[test]
fn should_report_where_parsing_failed() {
    assert_eq!(parse("proc f() -> Int { set x @"), Err(ParseError::Lex(24)));
    assert_eq!(parse("proc f() -> Int {"), Err(ParseError::Eof));
    assert_eq!(parse("proc f("), Err(ParseError::Eof));
    assert_eq!(parse("set x : Int = 1;"), Err(ParseError::Fatal(0, 2)));
    assert_eq!(parse("proc f() Int { }"), Err(ParseError::Fatal(9, 11)));
    assert_eq!(parse("proc f(a : Int b : Int) -> Int { }"), Err(ParseError::Fatal(15, 15)));
    assert_eq!(parse("proc f() -> Int { set x : Int = ; }"), Err(ParseError::Fatal(32, 32)));
    assert_eq!(parse("proc f() -> Int { return x }"), Err(ParseError::Fatal(27, 27)));
    assert_eq!(parse("proc f() -> Int { call }"), Err(ParseError::Fatal(18, 21)));
    assert_eq!(parse("global g : Int = x;"), Err(ParseError::Fatal(17, 17)));
    assert_eq!(parse("proc f() -> Int { set x : Int = call g(a b); }"), Err(ParseError::Fatal(41, 41)));
}

#[test]
fn should_report_a_bad_type_and_a_bad_index_at_the_token_after_it() {
    assert_eq!(parse("proc f() -> Number { }"), Err(ParseError::Fatal(19, 19)));
    assert_eq!(parse("proc f() -> Number"), Err(ParseError::Eof));
    assert_eq!(
        parse("proc f() -> Int { slot_remove r -1 ; }"),
        Err(ParseError::Fatal(35, 35))
    );
    assert_eq!(
        parse("proc f() -> Int { slot_remove r x ; }"),
        Err(ParseError::Fatal(32, 32))
    );
}

#[test]
fn should_describe_parse_errors() {
    assert_eq!(ParseError::Lex(7).describe(), "encountered unexpected lexing error at: 7");
    assert_eq!(
        ParseError::Fatal(10, 250).describe(),
        "encountered unexpected fatal parsing error at: 10-250"
    );
    assert_eq!(ParseError::Eof.describe(), "encountered unexpected EOF");
}

#[test]
fn should_walk_the_tokens_of_an_input() {
    let mut input = Input::new(vec![('a', 0, 0), ('b', 2, 3), ('c', 5, 5)]);
    assert!(!input.empty());
    assert_eq!(input.current(), Ok((0, 0)));
    assert_eq!(input.peek(), Ok(&'a'));
    assert_eq!(input.check(|t| *t == 'b'), Ok(false));
    assert_eq!(input.check(|t| *t == 'a'), Ok(true));
    assert_eq!(input.expect(|t| *t == 'a'), Err(ParseError::Fatal(2, 3)));
    assert_eq!(input.expect(|t| *t == 'b'), Ok('b'));
    assert_eq!(input.take(), Ok('c'));
    assert!(input.empty());
    assert_eq!(input.current(), Err(ParseError::Eof));
    assert_eq!(input.peek(), Err(ParseError::Eof));
    assert_eq!(input.take(), Err(ParseError::Eof));
    assert_eq!(input.check(|t| *t == 'a'), Err(ParseError::Eof));
    assert_eq!(input.expect(|t| *t == 'a'), Err(ParseError::Eof));
}
