use vstd::prelude::*;
use crate::eval::data::views;
use super::lexer::{lex, lexed, Spanned, Token, TokenV};
use super::parse_input::Input;
use crate::util::{decimal, push_decimal};

verus! {

/// Why a text was refused: a fault of the lexer at a byte offset, a token
/// that cannot stand where it does, with its span, or the end of the text
/// where more was expected.
#[derive(Clone, Copy, Debug, PartialEq, Eq, Structural)]
pub enum ParseError {
    Lex(usize),
    Fatal(usize, usize),
    Eof,
}

/// The message for a parse error.
pub open spec fn parse_message(e: ParseError) -> Seq<char> {
    match e {
        ParseError::Lex(x) => "encountered unexpected lexing error at: "@ + decimal(x as nat),
        ParseError::Fatal(x, y) => "encountered unexpected fatal parsing error at: "@ + decimal(
            x as nat,
        ) + seq!['-'] + decimal(y as nat),
        ParseError::Eof => "encountered unexpected EOF"@,
    }
}

impl ParseError {
    /// The message for the error.
    pub fn describe(&self) -> (r: String)
        ensures
            r@ == parse_message(*self),
    {
        match self {
            ParseError::Lex(x) => {
                let mut s = String::from_str("encountered unexpected lexing error at: ");
                push_decimal(&mut s, *x as u64);
                s
            },
            ParseError::Fatal(x, y) => {
                let mut s = String::from_str("encountered unexpected fatal parsing error at: ");
                push_decimal(&mut s, *x as u64);
                s.push('-');
                push_decimal(&mut s, *y as u64);
                s
            },
            ParseError::Eof => String::from_str("encountered unexpected EOF"),
        }
    }
}

/// A static type. Type equality is nominal.
#[derive(Clone, Copy, Debug, PartialEq, Eq, Structural)]
pub enum Type {
    Int,
    Float,
    String,
    Bool,
    Symbol,
    Ref,
    Closure,
    Coroutine,
}

impl View for Type {
    type V = Type;

    open spec fn view(&self) -> Type {
        *self
    }
}

/// Mathematical model of a literal.
pub enum LitV {
    Int(i64),
    Float(Seq<char>),
    Bool(bool),
    ConsType(Seq<char>),
    String(Seq<char>),
}

/// A literal. A double is kept as the text it was written with.
#[derive(Debug, PartialEq)]
pub enum Lit {
    Int(i64),
    Float(String),
    Bool(bool),
    /// A symbol, written `~name`.
    ConsType(String),
    String(String),
}

impl View for Lit {
    type V = LitV;

    open spec fn view(&self) -> LitV {
        match self {
            Lit::Int(n) => LitV::Int(*n),
            Lit::Float(t) => LitV::Float(t@),
            Lit::Bool(b) => LitV::Bool(*b),
            Lit::ConsType(t) => LitV::ConsType(t@),
            Lit::String(t) => LitV::String(t@),
        }
    }
}

/// Mathematical model of an expression.
pub enum ExprV {
    Lit(LitV),
    Call { name: Seq<char>, params: Seq<Seq<char>> },
    DynCall { name: Seq<char>, params: Seq<Seq<char>> },
    Coroutine { name: Seq<char>, params: Seq<Seq<char>> },
    DynCoroutine { name: Seq<char>, params: Seq<Seq<char>> },
    Closure { name: Seq<char>, params: Seq<Seq<char>> },
    Cons { name: Seq<char>, params: Seq<Seq<char>> },
    Resume(Seq<char>),
    Length(Seq<char>),
    Type(Seq<char>),
    Var(Seq<char>),
    Slot { var: Seq<char>, index: usize },
    IsNil(Seq<char>),
    ToString(Seq<char>),
    Concat(Seq<char>, Seq<char>),
}

/// The right-hand side of a `set`. Every operand is the name of a local,
/// but for the callee of `call`, `coroutine` and `closure`.
#[derive(Debug, PartialEq)]
pub enum Expr {
    Lit(Lit),
    Call { name: String, params: Vec<String> },
    DynCall { name: String, params: Vec<String> },
    Coroutine { name: String, params: Vec<String> },
    DynCoroutine { name: String, params: Vec<String> },
    Closure { name: String, params: Vec<String> },
    Cons { name: String, params: Vec<String> },
    Resume(String),
    Length(String),
    Type(String),
    Var(String),
    Slot { var: String, index: usize },
    IsNil(String),
    ToString(String),
    Concat(String, String),
}

impl View for Expr {
    type V = ExprV;

    open spec fn view(&self) -> ExprV {
        match self {
            Expr::Lit(l) => ExprV::Lit(l@),
            Expr::Call { name, params } => ExprV::Call { name: name@, params: views(params@) },
            Expr::DynCall { name, params } => ExprV::DynCall {
                name: name@,
                params: views(params@),
            },
            Expr::Coroutine { name, params } => ExprV::Coroutine {
                name: name@,
                params: views(params@),
            },
            Expr::DynCoroutine { name, params } => ExprV::DynCoroutine {
                name: name@,
                params: views(params@),
            },
            Expr::Closure { name, params } => ExprV::Closure {
                name: name@,
                params: views(params@),
            },
            Expr::Cons { name, params } => ExprV::Cons { name: name@, params: views(params@) },
            Expr::Resume(v) => ExprV::Resume(v@),
            Expr::Length(v) => ExprV::Length(v@),
            Expr::Type(v) => ExprV::Type(v@),
            Expr::Var(v) => ExprV::Var(v@),
            Expr::Slot { var, index } => ExprV::Slot { var: var@, index: *index },
            Expr::IsNil(v) => ExprV::IsNil(v@),
            Expr::ToString(v) => ExprV::ToString(v@),
            Expr::Concat(a, b) => ExprV::Concat(a@, b@),
        }
    }
}

/// Mathematical model of a statement.
pub enum StmtV {
    SetLocal { var: Seq<char>, ttype: Type, val: ExprV },
    Jump(Seq<char>),
    BranchTrue { label: Seq<char>, var: Seq<char> },
    Return(Seq<char>),
    Yield(Seq<char>),
    Break,
    Label(Seq<char>),
    SlotInsert { var: Seq<char>, input: Seq<char>, index: usize },
    SlotRemove { var: Seq<char>, index: usize },
    Delete(Seq<char>),
}

/// A statement of a procedure's body.
#[derive(Debug, PartialEq)]
pub enum Stmt {
    SetLocal { var: String, ttype: Type, val: Expr },
    Jump(String),
    BranchTrue { label: String, var: String },
    Return(String),
    Yield(String),
    Break,
    Label(String),
    SlotInsert { var: String, input: String, index: usize },
    SlotRemove { var: String, index: usize },
    Delete(String),
}

impl View for Stmt {
    type V = StmtV;

    open spec fn view(&self) -> StmtV {
        match self {
            Stmt::SetLocal { var, ttype, val } => StmtV::SetLocal { var: var@, ttype: *ttype, val: val@ },
            Stmt::Jump(l) => StmtV::Jump(l@),
            Stmt::BranchTrue { label, var } => StmtV::BranchTrue { label: label@, var: var@ },
            Stmt::Return(v) => StmtV::Return(v@),
            Stmt::Yield(v) => StmtV::Yield(v@),
            Stmt::Break => StmtV::Break,
            Stmt::Label(l) => StmtV::Label(l@),
            Stmt::SlotInsert { var, input, index } => StmtV::SlotInsert {
                var: var@,
                input: input@,
                index: *index,
            },
            Stmt::SlotRemove { var, index } => StmtV::SlotRemove { var: var@, index: *index },
            Stmt::Delete(v) => StmtV::Delete(v@),
        }
    }
}

/// Mathematical model of a parsed procedure.
pub struct ProcV {
    pub name: Seq<char>,
    pub params: Seq<(Seq<char>, Type)>,
    pub return_type: Type,
    pub body: Seq<StmtV>,
}

/// A procedure as it was written.
#[derive(Debug, PartialEq)]
pub struct Proc {
    pub name: String,
    pub params: Vec<(String, Type)>,
    pub return_type: Type,
    pub body: Vec<Stmt>,
}

impl View for Proc {
    type V = ProcV;

    open spec fn view(&self) -> ProcV {
        ProcV {
            name: self.name@,
            params: views(self.params@),
            return_type: self.return_type,
            body: views(self.body@),
        }
    }
}

/// Mathematical model of a global.
pub struct GlobalV {
    pub name: Seq<char>,
    pub ttype: Type,
    pub value: LitV,
}

/// A global as it was written: its name, its type and its value.
#[derive(Debug, PartialEq)]
pub struct Global {
    pub name: String,
    pub ttype: Type,
    pub value: Lit,
}

impl View for Global {
    type V = GlobalV;

    open spec fn view(&self) -> GlobalV {
        GlobalV { name: self.name@, ttype: self.ttype, value: self.value@ }
    }
}

/// Mathematical model of a top-level item.
pub enum TopV {
    Global(GlobalV),
    Proc(ProcV),
}

/// A top-level item: a global or a procedure.
#[derive(Debug, PartialEq)]
pub enum Top {
    Global(Global),
    Proc(Proc),
}

impl View for Top {
    type V = TopV;

    open spec fn view(&self) -> TopV {
        match self {
            Top::Global(g) => TopV::Global(g@),
            Top::Proc(p) => TopV::Proc(p@),
        }
    }
}

/// The error for a token that cannot stand where it does: its span, or
/// `Eof` where no token is left.
pub open spec fn fatal_at(t: Seq<Spanned>) -> ParseError {
    if t.len() == 0 {
        ParseError::Eof
    } else {
        ParseError::Fatal(t[0].1, t[0].2)
    }
}

/// Whether the next token is `k`, and the tokens after it if it is.
pub open spec fn check(t: Seq<Spanned>, k: TokenV) -> Result<(bool, Seq<Spanned>), ParseError> {
    if t.len() == 0 {
        Err(ParseError::Eof)
    } else if t[0].0 == k {
        Ok((true, t.skip(1)))
    } else {
        Ok((false, t))
    }
}

/// The tokens after the next one, which must be `k`.
pub open spec fn expect(t: Seq<Spanned>, k: TokenV) -> Result<Seq<Spanned>, ParseError> {
    if t.len() == 0 {
        Err(ParseError::Eof)
    } else if t[0].0 == k {
        Ok(t.skip(1))
    } else {
        Err(fatal_at(t))
    }
}

/// A name.
pub open spec fn sym(t: Seq<Spanned>) -> Result<(Seq<char>, Seq<Spanned>), ParseError> {
    if t.len() == 0 {
        Err(ParseError::Eof)
    } else {
        match t[0].0 {
            TokenV::Symbol(x) => Ok((x, t.skip(1))),
            _ => Err(fatal_at(t)),
        }
    }
}

/// The type that a name stands for.
pub open spec fn type_named(x: Seq<char>) -> Option<Type> {
    if x == "Int"@ {
        Some(Type::Int)
    } else if x == "Float"@ {
        Some(Type::Float)
    } else if x == "String"@ {
        Some(Type::String)
    } else if x == "Bool"@ {
        Some(Type::Bool)
    } else if x == "Symbol"@ {
        Some(Type::Symbol)
    } else if x == "Ref"@ {
        Some(Type::Ref)
    } else if x == "Closure"@ {
        Some(Type::Closure)
    } else if x == "Coroutine"@ {
        Some(Type::Coroutine)
    } else {
        None
    }
}

/// A type: a name that stands for one. For a name that stands for none the
/// error holds the span of the token after it.
pub open spec fn ttype(t: Seq<Spanned>) -> Result<(Type, Seq<Spanned>), ParseError> {
    match sym(t) {
        Err(e) => Err(e),
        Ok((x, r)) => match type_named(x) {
            Some(ty) => Ok((ty, r)),
            None => Err(fatal_at(r)),
        },
    }
}

/// An index: an integer that is not negative. For a negative one the error
/// holds the span of the token after it.
pub open spec fn index(t: Seq<Spanned>) -> Result<(usize, Seq<Spanned>), ParseError> {
    if t.len() == 0 {
        Err(ParseError::Eof)
    } else {
        match t[0].0 {
            TokenV::Int(x) => if 0 <= x <= usize::MAX {
                Ok((x as usize, t.skip(1)))
            } else {
                Err(fatal_at(t.skip(1)))
            },
            _ => Err(fatal_at(t)),
        }
    }
}

/// The rest of a list of names in parentheses, after `(` and the names
/// `acc`, where the next token is not `)`.
pub open spec fn names(t: Seq<Spanned>, acc: Seq<Seq<char>>) -> Result<
    (Seq<Seq<char>>, Seq<Spanned>),
    ParseError,
>
    decreases t.len(),
{
    match sym(t) {
        Err(e) => Err(e),
        Ok((x, r)) => if r.len() == 0 {
            Err(ParseError::Eof)
        } else if r[0].0 == TokenV::RParen {
            Ok((acc.push(x), r.skip(1)))
        } else if r[0].0 == TokenV::Comma {
            names(r.skip(1), acc.push(x))
        } else {
            Err(fatal_at(r))
        },
    }
}

/// A list of names in parentheses, separated by commas.
pub open spec fn params(t: Seq<Spanned>) -> Result<(Seq<Seq<char>>, Seq<Spanned>), ParseError> {
    match expect(t, TokenV::LParen) {
        Err(e) => Err(e),
        Ok(r) => if r.len() == 0 {
            Err(ParseError::Eof)
        } else if r[0].0 == TokenV::RParen {
            Ok((Seq::empty(), r.skip(1)))
        } else {
            names(r, Seq::empty())
        },
    }
}

/// The literal that a token is, if it is one.
pub open spec fn lit_of(k: TokenV) -> Option<LitV> {
    match k {
        TokenV::Int(x) => Some(LitV::Int(x)),
        TokenV::Float(x) => Some(LitV::Float(x)),
        TokenV::Bool(x) => Some(LitV::Bool(x)),
        TokenV::ConsType(x) => Some(LitV::ConsType(x)),
        TokenV::String(x) => Some(LitV::String(x)),
        _ => None,
    }
}

/// A literal.
pub open spec fn lit(t: Seq<Spanned>) -> Result<(LitV, Seq<Spanned>), ParseError> {
    if t.len() == 0 {
        Err(ParseError::Eof)
    } else {
        match lit_of(t[0].0) {
            Some(l) => Ok((l, t.skip(1))),
            None => Err(fatal_at(t)),
        }
    }
}

/// A keyword, a name and a list of names.
pub open spec fn with_params(t: Seq<Spanned>) -> Result<
    (Seq<char>, Seq<Seq<char>>, Seq<Spanned>),
    ParseError,
> {
    match sym(t) {
        Err(e) => Err(e),
        Ok((name, r)) => match params(r) {
            Err(e) => Err(e),
            Ok((ps, r2)) => Ok((name, ps, r2)),
        },
    }
}

/// An expression.
pub open spec fn expr(t: Seq<Spanned>) -> Result<(ExprV, Seq<Spanned>), ParseError> {
    if t.len() == 0 {
        Err(ParseError::Eof)
    } else {
        let r = t.skip(1);
        match t[0].0 {
            TokenV::Int(x) => Ok((ExprV::Lit(LitV::Int(x)), r)),
            TokenV::Float(x) => Ok((ExprV::Lit(LitV::Float(x)), r)),
            TokenV::Bool(x) => Ok((ExprV::Lit(LitV::Bool(x)), r)),
            TokenV::ConsType(x) => Ok((ExprV::Lit(LitV::ConsType(x)), r)),
            TokenV::String(x) => Ok((ExprV::Lit(LitV::String(x)), r)),
            TokenV::Symbol(x) => Ok((ExprV::Var(x), r)),
            TokenV::Call => match with_params(r) {
                Err(e) => Err(e),
                Ok((name, params, r2)) => Ok((ExprV::Call { name, params }, r2)),
            },
            TokenV::DynCall => match with_params(r) {
                Err(e) => Err(e),
                Ok((name, params, r2)) => Ok((ExprV::DynCall { name, params }, r2)),
            },
            TokenV::Coroutine => match with_params(r) {
                Err(e) => Err(e),
                Ok((name, params, r2)) => Ok((ExprV::Coroutine { name, params }, r2)),
            },
            TokenV::DynCoroutine => match with_params(r) {
                Err(e) => Err(e),
                Ok((name, params, r2)) => Ok((ExprV::DynCoroutine { name, params }, r2)),
            },
            TokenV::Closure => match with_params(r) {
                Err(e) => Err(e),
                Ok((name, params, r2)) => Ok((ExprV::Closure { name, params }, r2)),
            },
            TokenV::Cons => match with_params(r) {
                Err(e) => Err(e),
                Ok((name, params, r2)) => Ok((ExprV::Cons { name, params }, r2)),
            },
            TokenV::Resume => match sym(r) {
                Err(e) => Err(e),
                Ok((x, r2)) => Ok((ExprV::Resume(x), r2)),
            },
            TokenV::Length => match sym(r) {
                Err(e) => Err(e),
                Ok((x, r2)) => Ok((ExprV::Length(x), r2)),
            },
            TokenV::Type => match sym(r) {
                Err(e) => Err(e),
                Ok((x, r2)) => Ok((ExprV::Type(x), r2)),
            },
            TokenV::Slot => match sym(r) {
                Err(e) => Err(e),
                Ok((var, r2)) => match index(r2) {
                    Err(e) => Err(e),
                    Ok((i, r3)) => Ok((ExprV::Slot { var, index: i }, r3)),
                },
            },
            TokenV::IsNil => match sym(r) {
                Err(e) => Err(e),
                Ok((x, r2)) => Ok((ExprV::IsNil(x), r2)),
            },
            TokenV::ToString => match sym(r) {
                Err(e) => Err(e),
                Ok((x, r2)) => Ok((ExprV::ToString(x), r2)),
            },
            TokenV::Concat => match sym(r) {
                Err(e) => Err(e),
                Ok((a, r2)) => match sym(r2) {
                    Err(e) => Err(e),
                    Ok((b, r3)) => Ok((ExprV::Concat(a, b), r3)),
                },
            },
            _ => Err(fatal_at(t)),
        }
    }
}

/// The rest of a `set` statement, after the keyword:
/// `name : type = expression ;`.
pub open spec fn set_stmt(t: Seq<Spanned>) -> Result<(StmtV, Seq<Spanned>), ParseError> {
    match sym(t) {
        Err(e) => Err(e),
        Ok((var, r1)) => match expect(r1, TokenV::Colon) {
            Err(e) => Err(e),
            Ok(r2) => match ttype(r2) {
                Err(e) => Err(e),
                Ok((ty, r3)) => match expect(r3, TokenV::Equal) {
                    Err(e) => Err(e),
                    Ok(r4) => match expr(r4) {
                        Err(e) => Err(e),
                        Ok((val, r5)) => match expect(r5, TokenV::SemiColon) {
                            Err(e) => Err(e),
                            Ok(r6) => Ok((StmtV::SetLocal { var, ttype: ty, val }, r6)),
                        },
                    },
                },
            },
        },
    }
}

/// A name and `;`.
pub open spec fn sym_semi(t: Seq<Spanned>) -> Result<(Seq<char>, Seq<Spanned>), ParseError> {
    match sym(t) {
        Err(e) => Err(e),
        Ok((x, r)) => match expect(r, TokenV::SemiColon) {
            Err(e) => Err(e),
            Ok(r2) => Ok((x, r2)),
        },
    }
}

/// The rest of `jump name ;`.
pub open spec fn jump_stmt(r: Seq<Spanned>) -> Result<(StmtV, Seq<Spanned>), ParseError> {
    match sym_semi(r) {
        Err(e) => Err(e),
        Ok((x, r2)) => Ok((StmtV::Jump(x), r2)),
    }
}

/// The rest of `branch_true label name ;`.
pub open spec fn branch_stmt(r: Seq<Spanned>) -> Result<(StmtV, Seq<Spanned>), ParseError> {
    match sym(r) {
        Err(e) => Err(e),
        Ok((label, r2)) => match sym_semi(r2) {
            Err(e) => Err(e),
            Ok((var, r3)) => Ok((StmtV::BranchTrue { label, var }, r3)),
        },
    }
}

/// The rest of `return name ;`.
pub open spec fn return_stmt(r: Seq<Spanned>) -> Result<(StmtV, Seq<Spanned>), ParseError> {
    match sym_semi(r) {
        Err(e) => Err(e),
        Ok((x, r2)) => Ok((StmtV::Return(x), r2)),
    }
}

/// The rest of `yield name ;`.
pub open spec fn yield_stmt(r: Seq<Spanned>) -> Result<(StmtV, Seq<Spanned>), ParseError> {
    match sym_semi(r) {
        Err(e) => Err(e),
        Ok((x, r2)) => Ok((StmtV::Yield(x), r2)),
    }
}

/// The rest of `break ;`.
pub open spec fn break_stmt(r: Seq<Spanned>) -> Result<(StmtV, Seq<Spanned>), ParseError> {
    match expect(r, TokenV::SemiColon) {
        Err(e) => Err(e),
        Ok(r2) => Ok((StmtV::Break, r2)),
    }
}

/// The rest of `label name ;`.
pub open spec fn label_stmt(r: Seq<Spanned>) -> Result<(StmtV, Seq<Spanned>), ParseError> {
    match sym_semi(r) {
        Err(e) => Err(e),
        Ok((x, r2)) => Ok((StmtV::Label(x), r2)),
    }
}

/// The rest of `slot_insert name name index ;`.
pub open spec fn slot_insert_stmt(r: Seq<Spanned>) -> Result<(StmtV, Seq<Spanned>), ParseError> {
    match sym(r) {
        Err(e) => Err(e),
        Ok((var, r2)) => match sym(r2) {
            Err(e) => Err(e),
            Ok((input, r3)) => match index(r3) {
                Err(e) => Err(e),
                Ok((i, r4)) => match expect(r4, TokenV::SemiColon) {
                    Err(e) => Err(e),
                    Ok(r5) => Ok((StmtV::SlotInsert { var, input, index: i }, r5)),
                },
            },
        },
    }
}

/// The rest of `slot_remove name index ;`.
pub open spec fn slot_remove_stmt(r: Seq<Spanned>) -> Result<(StmtV, Seq<Spanned>), ParseError> {
    match sym(r) {
        Err(e) => Err(e),
        Ok((var, r2)) => match index(r2) {
            Err(e) => Err(e),
            Ok((i, r3)) => match expect(r3, TokenV::SemiColon) {
                Err(e) => Err(e),
                Ok(r4) => Ok((StmtV::SlotRemove { var, index: i }, r4)),
            },
        },
    }
}

/// The rest of `delete name ;`.
pub open spec fn delete_stmt(r: Seq<Spanned>) -> Result<(StmtV, Seq<Spanned>), ParseError> {
    match sym_semi(r) {
        Err(e) => Err(e),
        Ok((x, r2)) => Ok((StmtV::Delete(x), r2)),
    }
}

/// The statement that begins with the next token; nothing where that token
/// begins none.
pub open spec fn stmt(t: Seq<Spanned>) -> Option<Result<(StmtV, Seq<Spanned>), ParseError>>
    recommends
        t.len() > 0,
{
    let r = t.skip(1);
    match t[0].0 {
        TokenV::SetLocal => Some(set_stmt(r)),
        TokenV::Jump => Some(jump_stmt(r)),
        TokenV::BranchTrue => Some(branch_stmt(r)),
        TokenV::Return => Some(return_stmt(r)),
        TokenV::Yield => Some(yield_stmt(r)),
        TokenV::Break => Some(break_stmt(r)),
        TokenV::Label => Some(label_stmt(r)),
        TokenV::SlotInsert => Some(slot_insert_stmt(r)),
        TokenV::SlotRemove => Some(slot_remove_stmt(r)),
        TokenV::Delete => Some(delete_stmt(r)),
        _ => None,
    }
}

/// The statements after `acc`, up to the first token that begins none.
pub open spec fn stmts(t: Seq<Spanned>, acc: Seq<StmtV>) -> Result<
    (Seq<StmtV>, Seq<Spanned>),
    ParseError,
>
    decreases t.len(),
{
    if t.len() == 0 {
        Err(ParseError::Eof)
    } else {
        match stmt(t) {
            None => Ok((acc, t)),
            Some(Err(e)) => Err(e),
            Some(Ok((s, r))) => if r.len() < t.len() {
                stmts(r, acc.push(s))
            } else {
                Err(ParseError::Eof)
            },
        }
    }
}

/// One parameter: `name : type`.
pub open spec fn param(t: Seq<Spanned>) -> Result<((Seq<char>, Type), Seq<Spanned>), ParseError> {
    match sym(t) {
        Err(e) => Err(e),
        Ok((x, r1)) => match expect(r1, TokenV::Colon) {
            Err(e) => Err(e),
            Ok(r2) => match ttype(r2) {
                Err(e) => Err(e),
                Ok((ty, r3)) => Ok(((x, ty), r3)),
            },
        },
    }
}

/// The rest of a parameter list, after `(` and the parameters `acc`,
/// where the next token is not `)`.
pub open spec fn more_params(t: Seq<Spanned>, acc: Seq<(Seq<char>, Type)>) -> Result<
    (Seq<(Seq<char>, Type)>, Seq<Spanned>),
    ParseError,
>
    decreases t.len(),
{
    match param(t) {
        Err(e) => Err(e),
        Ok((p, r)) => if r.len() == 0 {
            Err(ParseError::Eof)
        } else if r[0].0 == TokenV::RParen {
            Ok((acc.push(p), r.skip(1)))
        } else if r[0].0 == TokenV::Comma {
            if r.len() <= t.len() {
                more_params(r.skip(1), acc.push(p))
            } else {
                Err(ParseError::Eof)
            }
        } else {
            Err(fatal_at(r))
        },
    }
}

/// The rest of a procedure, after the keyword:
/// `name ( parameters ) -> type { statements }`.
pub open spec fn proc_item(t: Seq<Spanned>) -> Result<(ProcV, Seq<Spanned>), ParseError> {
    match sym(t) {
        Err(e) => Err(e),
        Ok((name, r1)) => match expect(r1, TokenV::LParen) {
            Err(e) => Err(e),
            Ok(r2) => match (if r2.len() == 0 {
                Err(ParseError::Eof)
            } else if r2[0].0 == TokenV::RParen {
                Ok((Seq::empty(), r2.skip(1)))
            } else {
                more_params(r2, Seq::empty())
            }) {
                Err(e) => Err(e),
                Ok((ps, r3)) => match expect(r3, TokenV::Arrow) {
                    Err(e) => Err(e),
                    Ok(r4) => match ttype(r4) {
                        Err(e) => Err(e),
                        Ok((ret, r5)) => match expect(r5, TokenV::LCurl) {
                            Err(e) => Err(e),
                            Ok(r6) => match stmts(r6, Seq::empty()) {
                                Err(e) => Err(e),
                                Ok((body, r7)) => match expect(r7, TokenV::RCurl) {
                                    Err(e) => Err(e),
                                    Ok(r8) => Ok(
                                        (
                                            ProcV { name, params: ps, return_type: ret, body },
                                            r8,
                                        ),
                                    ),
                                },
                            },
                        },
                    },
                },
            },
        },
    }
}

/// The rest of a global, after the keyword: `name : type = literal ;`.
pub open spec fn global_item(t: Seq<Spanned>) -> Result<(GlobalV, Seq<Spanned>), ParseError> {
    match sym(t) {
        Err(e) => Err(e),
        Ok((name, r1)) => match expect(r1, TokenV::Colon) {
            Err(e) => Err(e),
            Ok(r2) => match ttype(r2) {
                Err(e) => Err(e),
                Ok((ty, r3)) => match expect(r3, TokenV::Equal) {
                    Err(e) => Err(e),
                    Ok(r4) => match lit(r4) {
                        Err(e) => Err(e),
                        Ok((value, r5)) => match expect(r5, TokenV::SemiColon) {
                            Err(e) => Err(e),
                            Ok(r6) => Ok((GlobalV { name, ttype: ty, value }, r6)),
                        },
                    },
                },
            },
        },
    }
}

/// A top-level item.
pub open spec fn top(t: Seq<Spanned>) -> Result<(TopV, Seq<Spanned>), ParseError>
    recommends
        t.len() > 0,
{
    if t[0].0 == TokenV::Proc {
        match proc_item(t.skip(1)) {
            Err(e) => Err(e),
            Ok((p, r)) => Ok((TopV::Proc(p), r)),
        }
    } else if t[0].0 == TokenV::Global {
        match global_item(t.skip(1)) {
            Err(e) => Err(e),
            Ok((g, r)) => Ok((TopV::Global(g), r)),
        }
    } else {
        Err(fatal_at(t))
    }
}

/// The top-level items after `acc`, to the end of the tokens.
pub open spec fn tops(t: Seq<Spanned>, acc: Seq<TopV>) -> Result<Seq<TopV>, ParseError>
    decreases t.len(),
{
    if t.len() == 0 {
        Ok(acc)
    } else {
        match top(t) {
            Err(e) => Err(e),
            Ok((x, r)) => if r.len() < t.len() {
                tops(r, acc.push(x))
            } else {
                Err(ParseError::Eof)
            },
        }
    }
}

/// The top-level items that a text denotes.
pub open spec fn parsed(s: Seq<char>) -> Result<Seq<TopV>, ParseError> {
    match lexed(s) {
        Err(i) => Err(ParseError::Lex(i)),
        Ok(t) => tops(t, Seq::empty()),
    }
}

/// The tokens that are left, as the grammar sees them.
pub open spec fn rem(input: &Input<Token>) -> Seq<Spanned> {
    views(input.remaining())
}

/// Whether a parser's result `r`, which took the tokens from `before` to
/// `after`, is what the grammar `m` says: on success the value and the
/// tokens left are those of the grammar, and at least one token is gone.
pub open spec fn parses<T: View>(
    r: Result<T, ParseError>,
    m: Result<(T::V, Seq<Spanned>), ParseError>,
    before: Seq<Spanned>,
    after: Seq<Spanned>,
) -> bool {
    match m {
        Ok((v, rest)) => r matches Ok(x) && x@ == v && after == rest && after.len() < before.len(),
        Err(e) => r == Err::<T, ParseError>(e),
    }
}

/// As `parses`, for a list.
pub open spec fn parses_list<T: View>(
    r: Result<Vec<T>, ParseError>,
    m: Result<(Seq<T::V>, Seq<Spanned>), ParseError>,
    before: Seq<Spanned>,
    after: Seq<Spanned>,
) -> bool {
    match m {
        Ok((v, rest)) => r matches Ok(x) && views(x@) == v && after == rest && after.len()
            < before.len(),
        Err(e) => r == Err::<Vec<T>, ParseError>(e),
    }
}

/// Whether the next token is `want`, which has no payload; if it is, it
/// leaves.
fn check_token(input: &mut Input<Token>, want: &Token) -> (r: Result<bool, ParseError>)
    ensures
        match check(rem(old(input)), want@) {
            Ok((b, rest)) => r == Ok::<bool, ParseError>(b) && rem(final(input)) == rest,
            Err(e) => r == Err::<bool, ParseError>(e),
        },
{
    let hit = match input.peek() {
        Err(e) => {
            return Err(e);
        },
        Ok(t) => token_eq(t, want),
    };
    if hit {
        let _ = input.take();
        assert(rem(input) =~= rem(old(input)).skip(1));
    }
    Ok(hit)
}

/// Takes the next token, which must be `want`.
fn expect_token(input: &mut Input<Token>, want: &Token) -> (r: Result<(), ParseError>)
    ensures
        match expect(rem(old(input)), want@) {
            Ok(rest) => r is Ok && rem(final(input)) == rest && rest.len() < rem(old(input)).len(),
            Err(e) => r == Err::<(), ParseError>(e),
        },
{
    let (s, e) = input.current()?;
    let hit = match input.peek() {
        Err(e) => {
            return Err(e);
        },
        Ok(t) => token_eq(t, want),
    };
    if hit {
        let _ = input.take();
        assert(rem(input) =~= rem(old(input)).skip(1));
        Ok(())
    } else {
        Err(ParseError::Fatal(s, e))
    }
}

/// Whether two tokens are the same.
pub fn token_eq(a: &Token, b: &Token) -> (r: bool)
    ensures
        r == (a@ == b@),
{
    match (a, b) {
        (Token::LParen, Token::LParen) => true,
        (Token::RParen, Token::RParen) => true,
        (Token::LCurl, Token::LCurl) => true,
        (Token::RCurl, Token::RCurl) => true,
        (Token::Comma, Token::Comma) => true,
        (Token::SemiColon, Token::SemiColon) => true,
        (Token::Colon, Token::Colon) => true,
        (Token::Arrow, Token::Arrow) => true,
        (Token::Equal, Token::Equal) => true,
        (Token::Int(x), Token::Int(y)) => *x == *y,
        (Token::Float(x), Token::Float(y)) => *x == *y,
        (Token::Bool(x), Token::Bool(y)) => *x == *y,
        (Token::Symbol(x), Token::Symbol(y)) => *x == *y,
        (Token::ConsType(x), Token::ConsType(y)) => *x == *y,
        (Token::String(x), Token::String(y)) => *x == *y,
        (Token::Type, Token::Type) => true,
        (Token::Slot, Token::Slot) => true,
        (Token::SlotSet, Token::SlotSet) => true,
        (Token::SlotInsert, Token::SlotInsert) => true,
        (Token::SlotRemove, Token::SlotRemove) => true,
        (Token::Length, Token::Length) => true,
        (Token::Proc, Token::Proc) => true,
        (Token::Return, Token::Return) => true,
        (Token::Yield, Token::Yield) => true,
        (Token::Resume, Token::Resume) => true,
        (Token::Break, Token::Break) => true,
        (Token::Coroutine, Token::Coroutine) => true,
        (Token::DynCoroutine, Token::DynCoroutine) => true,
        (Token::SetLocal, Token::SetLocal) => true,
        (Token::Jump, Token::Jump) => true,
        (Token::Label, Token::Label) => true,
        (Token::BranchTrue, Token::BranchTrue) => true,
        (Token::Global, Token::Global) => true,
        (Token::Call, Token::Call) => true,
        (Token::DynCall, Token::DynCall) => true,
        (Token::Closure, Token::Closure) => true,
        (Token::Cons, Token::Cons) => true,
        (Token::Delete, Token::Delete) => true,
        (Token::IsNil, Token::IsNil) => true,
        (Token::ToString, Token::ToString) => true,
        (Token::Concat, Token::Concat) => true,
        _ => false,
    }
}

fn expect_sym(input: &mut Input<Token>) -> (r: Result<String, ParseError>)
    ensures
        parses(r, sym(rem(old(input))), rem(old(input)), rem(final(input))),
{
    let (s, e) = input.current()?;
    let t = input.take()?;
    assert(rem(input) =~= rem(old(input)).skip(1));
    match t {
        Token::Symbol(x) => Ok(x),
        _ => Err(ParseError::Fatal(s, e)),
    }
}

fn fatal(input: &Input<Token>) -> (e: ParseError)
    ensures
        e == fatal_at(rem(input)),
{
    match input.current() {
        Ok((s, e)) => ParseError::Fatal(s, e),
        Err(e) => e,
    }
}

fn text_is(x: &String, lit: &str) -> (b: bool)
    ensures
        b == (x@ == lit@),
{
    *x == String::from_str(lit)
}

fn parse_type(input: &mut Input<Token>) -> (r: Result<Type, ParseError>)
    ensures
        parses(r, ttype(rem(old(input))), rem(old(input)), rem(final(input))),
{
    let x = expect_sym(input)?;
    if text_is(&x, "Int") {
        Ok(Type::Int)
    } else if text_is(&x, "Float") {
        Ok(Type::Float)
    } else if text_is(&x, "String") {
        Ok(Type::String)
    } else if text_is(&x, "Bool") {
        Ok(Type::Bool)
    } else if text_is(&x, "Symbol") {
        Ok(Type::Symbol)
    } else if text_is(&x, "Ref") {
        Ok(Type::Ref)
    } else if text_is(&x, "Closure") {
        Ok(Type::Closure)
    } else if text_is(&x, "Coroutine") {
        Ok(Type::Coroutine)
    } else {
        Err(fatal(input))
    }
}

fn expect_index(input: &mut Input<Token>) -> (r: Result<usize, ParseError>)
    ensures
        parses(r, index(rem(old(input))), rem(old(input)), rem(final(input))),
{
    let (s, e) = input.current()?;
    let t = input.take()?;
    assert(rem(input) =~= rem(old(input)).skip(1));
    match t {
        Token::Int(x) => {
            if 0 <= x && (x as u64) <= (usize::MAX as u64) {
                Ok(x as usize)
            } else {
                Err(fatal(input))
            }
        },
        _ => Err(ParseError::Fatal(s, e)),
    }
}

fn expect_params(input: &mut Input<Token>) -> (r: Result<Vec<String>, ParseError>)
    ensures
        parses_list(r, params(rem(old(input))), rem(old(input)), rem(final(input))),
{
    expect_token(input, &Token::LParen)?;
    let mut ret: Vec<String> = Vec::new();
    assert(views(ret@) =~= Seq::empty());
    if check_token(input, &Token::RParen)? {
        return Ok(ret);
    }
    loop
        invariant
            params(rem(old(input))) == names(rem(input), views(ret@)),
            rem(input).len() < rem(old(input)).len(),
        decreases rem(input).len(),
    {
        let x = expect_sym(input)?;
        let ghost before = ret@;
        ret.push(x);
        assert(views(ret@) =~= views(before).push(x@));
        if check_token(input, &Token::RParen)? {
            return Ok(ret);
        } else if check_token(input, &Token::Comma)? {
        } else {
            return Err(fatal(input));
        }
    }
}

fn parse_lit(input: &mut Input<Token>) -> (r: Result<Lit, ParseError>)
    ensures
        parses(r, lit(rem(old(input))), rem(old(input)), rem(final(input))),
{
    let (s, e) = input.current()?;
    let t = input.take()?;
    assert(rem(input) =~= rem(old(input)).skip(1));
    match t {
        Token::Int(x) => Ok(Lit::Int(x)),
        Token::Float(x) => Ok(Lit::Float(x)),
        Token::Bool(x) => Ok(Lit::Bool(x)),
        Token::ConsType(x) => Ok(Lit::ConsType(x)),
        Token::String(x) => Ok(Lit::String(x)),
        _ => Err(ParseError::Fatal(s, e)),
    }
}

/// A name and a list of names.
fn parse_with_params(input: &mut Input<Token>) -> (r: Result<(String, Vec<String>), ParseError>)
    ensures
        match with_params(rem(old(input))) {
            Ok((name, ps, rest)) => r matches Ok(x) && x.0@ == name && views(x.1@) == ps && rem(
                final(input),
            ) == rest && rest.len() < rem(old(input)).len(),
            Err(e) => r == Err::<(String, Vec<String>), ParseError>(e),
        },
{
    let name = expect_sym(input)?;
    let ps = expect_params(input)?;
    Ok((name, ps))
}

fn parse_expr(input: &mut Input<Token>) -> (r: Result<Expr, ParseError>)
    ensures
        parses(r, expr(rem(old(input))), rem(old(input)), rem(final(input))),
{
    let (s, e) = input.current()?;
    let t = input.take()?;
    assert(rem(input) =~= rem(old(input)).skip(1));
    match t {
        Token::Int(x) => Ok(Expr::Lit(Lit::Int(x))),
        Token::Float(x) => Ok(Expr::Lit(Lit::Float(x))),
        Token::Bool(x) => Ok(Expr::Lit(Lit::Bool(x))),
        Token::ConsType(x) => Ok(Expr::Lit(Lit::ConsType(x))),
        Token::String(x) => Ok(Expr::Lit(Lit::String(x))),
        Token::Symbol(x) => Ok(Expr::Var(x)),
        Token::Call => {
            let (name, params) = parse_with_params(input)?;
            Ok(Expr::Call { name, params })
        },
        Token::DynCall => {
            let (name, params) = parse_with_params(input)?;
            Ok(Expr::DynCall { name, params })
        },
        Token::Coroutine => {
            let (name, params) = parse_with_params(input)?;
            Ok(Expr::Coroutine { name, params })
        },
        Token::DynCoroutine => {
            let (name, params) = parse_with_params(input)?;
            Ok(Expr::DynCoroutine { name, params })
        },
        Token::Closure => {
            let (name, params) = parse_with_params(input)?;
            Ok(Expr::Closure { name, params })
        },
        Token::Cons => {
            let (name, params) = parse_with_params(input)?;
            Ok(Expr::Cons { name, params })
        },
        Token::Resume => Ok(Expr::Resume(expect_sym(input)?)),
        Token::Length => Ok(Expr::Length(expect_sym(input)?)),
        Token::Type => Ok(Expr::Type(expect_sym(input)?)),
        Token::Slot => {
            let var = expect_sym(input)?;
            let index = expect_index(input)?;
            Ok(Expr::Slot { var, index })
        },
        Token::IsNil => Ok(Expr::IsNil(expect_sym(input)?)),
        Token::ToString => Ok(Expr::ToString(expect_sym(input)?)),
        Token::Concat => {
            let a = expect_sym(input)?;
            let b = expect_sym(input)?;
            Ok(Expr::Concat(a, b))
        },
        _ => Err(ParseError::Fatal(s, e)),
    }
}

fn parse_set(input: &mut Input<Token>) -> (r: Result<Stmt, ParseError>)
    ensures
        parses(r, set_stmt(rem(old(input))), rem(old(input)), rem(final(input))),
{
    let var = expect_sym(input)?;
    expect_token(input, &Token::Colon)?;
    let ttype = parse_type(input)?;
    expect_token(input, &Token::Equal)?;
    let val = parse_expr(input)?;
    expect_token(input, &Token::SemiColon)?;
    Ok(Stmt::SetLocal { var, ttype, val })
}

fn parse_sym_semi(input: &mut Input<Token>) -> (r: Result<String, ParseError>)
    ensures
        parses(r, sym_semi(rem(old(input))), rem(old(input)), rem(final(input))),
{
    let x = expect_sym(input)?;
    expect_token(input, &Token::SemiColon)?;
    Ok(x)
}

/// The kinds of token that begin a statement.
#[derive(Clone, Copy, Debug, PartialEq, Eq, Structural)]
enum Start {
    SetLocal,
    Jump,
    BranchTrue,
    Return,
    Yield,
    Break,
    Label,
    SlotInsert,
    SlotRemove,
    Delete,
    Other,
}

fn start_of(t: &Token) -> (r: Start)
    ensures
        match t@ {
            TokenV::SetLocal => r == Start::SetLocal,
            TokenV::Jump => r == Start::Jump,
            TokenV::BranchTrue => r == Start::BranchTrue,
            TokenV::Return => r == Start::Return,
            TokenV::Yield => r == Start::Yield,
            TokenV::Break => r == Start::Break,
            TokenV::Label => r == Start::Label,
            TokenV::SlotInsert => r == Start::SlotInsert,
            TokenV::SlotRemove => r == Start::SlotRemove,
            TokenV::Delete => r == Start::Delete,
            _ => r == Start::Other,
        },
{
    match t {
        Token::SetLocal => Start::SetLocal,
        Token::Jump => Start::Jump,
        Token::BranchTrue => Start::BranchTrue,
        Token::Return => Start::Return,
        Token::Yield => Start::Yield,
        Token::Break => Start::Break,
        Token::Label => Start::Label,
        Token::SlotInsert => Start::SlotInsert,
        Token::SlotRemove => Start::SlotRemove,
        Token::Delete => Start::Delete,
        _ => Start::Other,
    }
}

/// The statement that begins with the next token; nothing, and no token
/// taken, where that token begins none.
fn parse_stmt(input: &mut Input<Token>) -> (r: Option<Result<Stmt, ParseError>>)
    requires
        rem(old(input)).len() > 0,
    ensures
        match stmt(rem(old(input))) {
            None => r is None && rem(final(input)) == rem(old(input)),
            Some(m) => r matches Some(x) && parses(x, m, rem(old(input)), rem(final(input))),
        },
{
    let start = match input.peek() {
        Ok(t) => start_of(t),
        Err(_) => Start::Other,
    };
    if start == Start::Other {
        return None;
    }
    let _ = input.take();
    assert(rem(input) =~= rem(old(input)).skip(1));
    Some(
        match start {
            Start::SetLocal => parse_set(input),
            Start::Jump => parse_jump(input),
            Start::BranchTrue => parse_branch(input),
            Start::Return => parse_return(input),
            Start::Yield => parse_yield(input),
            Start::Break => parse_break(input),
            Start::Label => parse_label(input),
            Start::SlotInsert => parse_slot_insert(input),
            Start::SlotRemove => parse_slot_remove(input),
            _ => parse_delete(input),
        },
    )
}

fn parse_jump(input: &mut Input<Token>) -> (r: Result<Stmt, ParseError>)
    ensures
        parses(
            r,
            jump_stmt(rem(old(input))),
            rem(old(input)),
            rem(final(input)),
        ),
{
    Ok(Stmt::Jump(parse_sym_semi(input)?))
}

fn parse_branch(input: &mut Input<Token>) -> (r: Result<Stmt, ParseError>)
    ensures
        parses(
            r,
            branch_stmt(rem(old(input))),
            rem(old(input)),
            rem(final(input)),
        ),
{
    let label = expect_sym(input)?;
    let var = parse_sym_semi(input)?;
    Ok(Stmt::BranchTrue { label, var })
}

fn parse_return(input: &mut Input<Token>) -> (r: Result<Stmt, ParseError>)
    ensures
        parses(
            r,
            return_stmt(rem(old(input))),
            rem(old(input)),
            rem(final(input)),
        ),
{
    Ok(Stmt::Return(parse_sym_semi(input)?))
}

fn parse_yield(input: &mut Input<Token>) -> (r: Result<Stmt, ParseError>)
    ensures
        parses(
            r,
            yield_stmt(rem(old(input))),
            rem(old(input)),
            rem(final(input)),
        ),
{
    Ok(Stmt::Yield(parse_sym_semi(input)?))
}

fn parse_break(input: &mut Input<Token>) -> (r: Result<Stmt, ParseError>)
    ensures
        parses(
            r,
            break_stmt(rem(old(input))),
            rem(old(input)),
            rem(final(input)),
        ),
{
    expect_token(input, &Token::SemiColon)?;
    Ok(Stmt::Break)
}

fn parse_label(input: &mut Input<Token>) -> (r: Result<Stmt, ParseError>)
    ensures
        parses(
            r,
            label_stmt(rem(old(input))),
            rem(old(input)),
            rem(final(input)),
        ),
{
    Ok(Stmt::Label(parse_sym_semi(input)?))
}

fn parse_slot_insert(input: &mut Input<Token>) -> (r: Result<Stmt, ParseError>)
    ensures
        parses(
            r,
            slot_insert_stmt(rem(old(input))),
            rem(old(input)),
            rem(final(input)),
        ),
{
    let var = expect_sym(input)?;
    let var_input = expect_sym(input)?;
    let index = expect_index(input)?;
    expect_token(input, &Token::SemiColon)?;
    Ok(Stmt::SlotInsert { var, input: var_input, index })
}

fn parse_slot_remove(input: &mut Input<Token>) -> (r: Result<Stmt, ParseError>)
    ensures
        parses(
            r,
            slot_remove_stmt(rem(old(input))),
            rem(old(input)),
            rem(final(input)),
        ),
{
    let var = expect_sym(input)?;
    let index = expect_index(input)?;
    expect_token(input, &Token::SemiColon)?;
    Ok(Stmt::SlotRemove { var, index })
}

fn parse_delete(input: &mut Input<Token>) -> (r: Result<Stmt, ParseError>)
    ensures
        parses(
            r,
            delete_stmt(rem(old(input))),
            rem(old(input)),
            rem(final(input)),
        ),
{
    Ok(Stmt::Delete(parse_sym_semi(input)?))
}

fn parse_stmts(input: &mut Input<Token>) -> (r: Result<Vec<Stmt>, ParseError>)
    ensures
        match stmts(rem(old(input)), Seq::empty()) {
            Ok((v, rest)) => r matches Ok(x) && views(x@) == v && rem(final(input)) == rest
                && rest.len() <= rem(old(input)).len(),
            Err(e) => r == Err::<Vec<Stmt>, ParseError>(e),
        },
{
    let mut ret: Vec<Stmt> = Vec::new();
    assert(views(ret@) =~= Seq::empty());
    loop
        invariant
            stmts(rem(old(input)), Seq::empty()) == stmts(rem(input), views(ret@)),
            rem(input).len() <= rem(old(input)).len(),
        decreases rem(input).len(),
    {
        if input.empty() {
            return Err(ParseError::Eof);
        }
        match parse_stmt(input) {
            None => {
                return Ok(ret);
            },
            Some(Err(e)) => {
                return Err(e);
            },
            Some(Ok(s)) => {
                let ghost before = ret@;
                ret.push(s);
                assert(views(ret@) =~= views(before).push(s@));
            },
        }
    }
}

fn parse_param(input: &mut Input<Token>) -> (r: Result<(String, Type), ParseError>)
    ensures
        parses(r, param(rem(old(input))), rem(old(input)), rem(final(input))),
{
    let x = expect_sym(input)?;
    expect_token(input, &Token::Colon)?;
    let ty = parse_type(input)?;
    Ok((x, ty))
}

/// A parameter list after its `(`.
fn parse_params(input: &mut Input<Token>) -> (r: Result<Vec<(String, Type)>, ParseError>)
    ensures
        parses_list(
            r,
            if rem(old(input)).len() == 0 {
                Err(ParseError::Eof)
            } else if rem(old(input))[0].0 == TokenV::RParen {
                Ok((Seq::empty(), rem(old(input)).skip(1)))
            } else {
                more_params(rem(old(input)), Seq::empty())
            },
            rem(old(input)),
            rem(final(input)),
        ),
{
    let mut ret: Vec<(String, Type)> = Vec::new();
    assert(views(ret@) =~= Seq::empty());
    if check_token(input, &Token::RParen)? {
        return Ok(ret);
    }
    loop
        invariant
            rem(old(input)).len() > 0,
            rem(old(input))[0].0 != TokenV::RParen,
            more_params(rem(old(input)), Seq::empty()) == more_params(rem(input), views(ret@)),
            rem(input).len() <= rem(old(input)).len(),
        decreases rem(input).len(),
    {
        let p = parse_param(input)?;
        let ghost before = ret@;
        ret.push(p);
        assert(views(ret@) =~= views(before).push(p@));
        if check_token(input, &Token::RParen)? {
            return Ok(ret);
        } else if check_token(input, &Token::Comma)? {
        } else {
            return Err(fatal(input));
        }
    }
}

/// The rest of a procedure, after the keyword.
fn parse_proc(input: &mut Input<Token>) -> (r: Result<Proc, ParseError>)
    ensures
        parses(r, proc_item(rem(old(input))), rem(old(input)), rem(final(input))),
{
    let name = expect_sym(input)?;
    expect_token(input, &Token::LParen)?;
    let params = parse_params(input)?;
    expect_token(input, &Token::Arrow)?;
    let return_type = parse_type(input)?;
    expect_token(input, &Token::LCurl)?;
    let body = parse_stmts(input)?;
    expect_token(input, &Token::RCurl)?;
    Ok(Proc { name, params, return_type, body })
}

/// The rest of a global, after the keyword.
fn parse_global(input: &mut Input<Token>) -> (r: Result<Global, ParseError>)
    ensures
        parses(r, global_item(rem(old(input))), rem(old(input)), rem(final(input))),
{
    let name = expect_sym(input)?;
    expect_token(input, &Token::Colon)?;
    let ttype = parse_type(input)?;
    expect_token(input, &Token::Equal)?;
    let value = parse_lit(input)?;
    expect_token(input, &Token::SemiColon)?;
    Ok(Global { name, ttype, value })
}

fn parse_top(input: &mut Input<Token>) -> (r: Result<Top, ParseError>)
    requires
        rem(old(input)).len() > 0,
    ensures
        parses(r, top(rem(old(input))), rem(old(input)), rem(final(input))),
{
    if check_token(input, &Token::Proc)? {
        Ok(Top::Proc(parse_proc(input)?))
    } else if check_token(input, &Token::Global)? {
        Ok(Top::Global(parse_global(input)?))
    } else {
        Err(fatal(input))
    }
}

fn parse_tops(input: &mut Input<Token>) -> (r: Result<Vec<Top>, ParseError>)
    ensures
        match tops(rem(old(input)), Seq::empty()) {
            Ok(v) => r matches Ok(x) && views(x@) == v,
            Err(e) => r == Err::<Vec<Top>, ParseError>(e),
        },
{
    let mut ret: Vec<Top> = Vec::new();
    assert(views(ret@) =~= Seq::empty());
    while !input.empty()
        invariant
            tops(rem(old(input)), Seq::empty()) == tops(rem(input), views(ret@)),
        decreases rem(input).len(),
    {
        let t = parse_top(input)?;
        let ghost before = ret@;
        ret.push(t);
        assert(views(ret@) =~= views(before).push(t@));
    }
    Ok(ret)
}

/// Reads a program in its textual form: a list of globals
/// `global name : type = literal ;` and procedures
/// `proc name ( name : type , .. ) -> type { statement .. }`.
pub fn parse(input: &str) -> (r: Result<Vec<Top>, ParseError>)
    ensures
        match parsed(input@) {
            Ok(v) => r matches Ok(x) && views(x@) == v,
            Err(e) => r == Err::<Vec<Top>, ParseError>(e),
        },
{
    let tokens = match lex(input) {
        Err(i) => {
            return Err(ParseError::Lex(i));
        },
        Ok(ls) => ls,
    };
    let mut input = Input::new(tokens);
    parse_tops(&mut input)
}

} // verus!
