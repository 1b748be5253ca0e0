use vstd::prelude::*;
use crate::eval::data::views;
use super::chars::{chars_of, lemma_byte_len, lemma_offset_step, offset, offsets};

verus! {

/// Mathematical model of a token.
pub enum TokenV {
    LParen,
    RParen,
    LCurl,
    RCurl,
    Comma,
    SemiColon,
    Colon,
    Arrow,
    Equal,
    Int(i64),
    Float(Seq<char>),
    Bool(bool),
    Symbol(Seq<char>),
    ConsType(Seq<char>),
    String(Seq<char>),
    Type,
    Slot,
    SlotSet,
    SlotInsert,
    SlotRemove,
    Length,
    Proc,
    Return,
    Yield,
    Resume,
    Break,
    Coroutine,
    DynCoroutine,
    SetLocal,
    Jump,
    Label,
    BranchTrue,
    Global,
    Call,
    DynCall,
    Closure,
    Cons,
    Delete,
    IsNil,
    ToString,
    Concat,
}

/// A token of the textual form. A double is kept as the text it was
/// written with; `Symbol` is a name, `ConsType` a symbol literal `~name`.
#[derive(Debug, PartialEq)]
pub enum Token {
    LParen,
    RParen,
    LCurl,
    RCurl,
    Comma,
    SemiColon,
    Colon,
    Arrow,
    Equal,
    Int(i64),
    Float(String),
    Bool(bool),
    Symbol(String),
    ConsType(String),
    String(String),
    Type,
    Slot,
    SlotSet,
    SlotInsert,
    SlotRemove,
    Length,
    Proc,
    Return,
    Yield,
    Resume,
    Break,
    Coroutine,
    DynCoroutine,
    /// The keyword `set`.
    SetLocal,
    Jump,
    Label,
    BranchTrue,
    Global,
    Call,
    DynCall,
    Closure,
    Cons,
    Delete,
    IsNil,
    ToString,
    Concat,
}

impl View for Token {
    type V = TokenV;

    open spec fn view(&self) -> TokenV {
        match self {
            Token::LParen => TokenV::LParen,
            Token::RParen => TokenV::RParen,
            Token::LCurl => TokenV::LCurl,
            Token::RCurl => TokenV::RCurl,
            Token::Comma => TokenV::Comma,
            Token::SemiColon => TokenV::SemiColon,
            Token::Colon => TokenV::Colon,
            Token::Arrow => TokenV::Arrow,
            Token::Equal => TokenV::Equal,
            Token::Int(n) => TokenV::Int(*n),
            Token::Float(t) => TokenV::Float(t@),
            Token::Bool(b) => TokenV::Bool(*b),
            Token::Symbol(t) => TokenV::Symbol(t@),
            Token::ConsType(t) => TokenV::ConsType(t@),
            Token::String(t) => TokenV::String(t@),
            Token::Type => TokenV::Type,
            Token::Slot => TokenV::Slot,
            Token::SlotSet => TokenV::SlotSet,
            Token::SlotInsert => TokenV::SlotInsert,
            Token::SlotRemove => TokenV::SlotRemove,
            Token::Length => TokenV::Length,
            Token::Proc => TokenV::Proc,
            Token::Return => TokenV::Return,
            Token::Yield => TokenV::Yield,
            Token::Resume => TokenV::Resume,
            Token::Break => TokenV::Break,
            Token::Coroutine => TokenV::Coroutine,
            Token::DynCoroutine => TokenV::DynCoroutine,
            Token::SetLocal => TokenV::SetLocal,
            Token::Jump => TokenV::Jump,
            Token::Label => TokenV::Label,
            Token::BranchTrue => TokenV::BranchTrue,
            Token::Global => TokenV::Global,
            Token::Call => TokenV::Call,
            Token::DynCall => TokenV::DynCall,
            Token::Closure => TokenV::Closure,
            Token::Cons => TokenV::Cons,
            Token::Delete => TokenV::Delete,
            Token::IsNil => TokenV::IsNil,
            Token::ToString => TokenV::ToString,
            Token::Concat => TokenV::Concat,
        }
    }
}

/// A token with the byte offsets of its first and last byte.
pub type Spanned = (TokenV, usize, usize);

/// Whether a character has the Unicode property Alphabetic.
pub uninterp spec fn alphabetic(c: char) -> bool;

/// Whether a character is a number of Unicode: of one of the general
/// categories Nd, Nl and No.
pub uninterp spec fn numeric(c: char) -> bool;

/// `char::is_alphabetic` tells whether a character has the Unicode
/// property Alphabetic.
pub assume_specification[ char::is_alphabetic ](c: char) -> (r: bool)
    ensures
        r == alphabetic(c),
;

/// `char::is_numeric` tells whether a character is of one of the general
/// categories for numbers, Nd, Nl and No.
pub assume_specification[ char::is_numeric ](c: char) -> (r: bool)
    ensures
        r == numeric(c),
;

/// White space: the characters with the Unicode property White_Space.
pub open spec fn is_space(c: char) -> bool {
    let u = c as u32;
    9 <= u <= 13 || u == 0x20 || u == 0x85 || u == 0xA0 || u == 0x1680 || 0x2000 <= u <= 0x200A
        || u == 0x2028 || u == 0x2029 || u == 0x202F || u == 0x205F || u == 0x3000
}

/// A decimal digit of ASCII.
pub open spec fn is_digit(c: char) -> bool {
    48 <= (c as u32) <= 57
}

/// A character that may begin a name: an alphabetic one, or `_`.
pub open spec fn is_letter(c: char) -> bool {
    alphabetic(c) || c == '_'
}

/// A class of characters of which a token is a run.
#[derive(Clone, Copy, Debug, PartialEq, Eq, Structural)]
pub enum Class {
    /// Alphabetic characters, numbers and `_`.
    Word,
    /// Numbers and `.`, `-`, `+`, `e`, `E`.
    Number,
    /// The decimal digits of ASCII.
    Digit,
}

/// Whether a character is of a class.
pub open spec fn in_class(k: Class, c: char) -> bool {
    match k {
        Class::Word => alphabetic(c) || numeric(c) || c == '_',
        Class::Number => numeric(c) || c == '.' || c == '-' || c == '+' || c == 'e' || c == 'E',
        Class::Digit => is_digit(c),
    }
}

/// The end of the longest run of characters of class `k` that starts at `i`.
pub open spec fn run_end(s: Seq<char>, i: int, k: Class) -> int
    decreases s.len() - i,
{
    if 0 <= i < s.len() && in_class(k, s[i]) {
        run_end(s, i + 1, k)
    } else {
        i
    }
}

/// The token for a word: a keyword, a truth value, or a name.
pub open spec fn word_token(w: Seq<char>) -> TokenV {
    if w == "type"@ {
        TokenV::Type
    } else if w == "slot"@ {
        TokenV::Slot
    } else if w == "slot_set"@ {
        TokenV::SlotSet
    } else if w == "slot_insert"@ {
        TokenV::SlotInsert
    } else if w == "slot_remove"@ {
        TokenV::SlotRemove
    } else if w == "length"@ {
        TokenV::Length
    } else if w == "proc"@ {
        TokenV::Proc
    } else if w == "return"@ {
        TokenV::Return
    } else if w == "yield"@ {
        TokenV::Yield
    } else if w == "resume"@ {
        TokenV::Resume
    } else if w == "break"@ {
        TokenV::Break
    } else if w == "coroutine"@ {
        TokenV::Coroutine
    } else if w == "dyn_coroutine"@ {
        TokenV::DynCoroutine
    } else if w == "set"@ {
        TokenV::SetLocal
    } else if w == "jump"@ {
        TokenV::Jump
    } else if w == "label"@ {
        TokenV::Label
    } else if w == "branch_true"@ {
        TokenV::BranchTrue
    } else if w == "global"@ {
        TokenV::Global
    } else if w == "call"@ {
        TokenV::Call
    } else if w == "dyn_call"@ {
        TokenV::DynCall
    } else if w == "closure"@ {
        TokenV::Closure
    } else if w == "true"@ {
        TokenV::Bool(true)
    } else if w == "false"@ {
        TokenV::Bool(false)
    } else if w == "cons"@ {
        TokenV::Cons
    } else if w == "delete"@ {
        TokenV::Delete
    } else if w == "is_nil"@ {
        TokenV::IsNil
    } else if w == "to_string"@ {
        TokenV::ToString
    } else if w == "concat"@ {
        TokenV::Concat
    } else {
        TokenV::Symbol(w)
    }
}

/// The number that a decimal digit stands for.
pub open spec fn digit_value(c: char) -> nat {
    ((c as u32) - 48) as nat
}

/// The number that a run of decimal digits stands for.
pub open spec fn digits_value(s: Seq<char>) -> nat
    decreases s.len(),
{
    if s.len() == 0 {
        0
    } else {
        digits_value(s.drop_last()) * 10 + digit_value(s.last())
    }
}

/// Where the digits of a number begin: after a leading `-`, if there is one.
pub open spec fn after_sign(l: Seq<char>) -> int {
    if l.len() > 0 && l[0] == '-' {
        1
    } else {
        0
    }
}

/// An optional `-` and one or more digits.
pub open spec fn int_shape(l: Seq<char>) -> bool {
    after_sign(l) < l.len() && run_end(l, after_sign(l), Class::Digit) == l.len()
}

/// The integer that a text of the shape of one stands for.
pub open spec fn int_value(l: Seq<char>) -> int {
    if after_sign(l) == 1 {
        -(digits_value(l.skip(1)) as int)
    } else {
        digits_value(l) as int
    }
}

/// Where an exponent that begins at `c` ends, if it is well formed: `e` or
/// `E`, an optional sign, one or more digits.
pub open spec fn exponent_end(l: Seq<char>, c: int) -> Option<int> {
    if 0 <= c < l.len() && (l[c] == 'e' || l[c] == 'E') {
        let d = if c + 1 < l.len() && (l[c + 1] == '+' || l[c + 1] == '-') {
            c + 2
        } else {
            c + 1
        };
        if run_end(l, d, Class::Digit) > d {
            Some(run_end(l, d, Class::Digit))
        } else {
            None
        }
    } else {
        None
    }
}

/// The text of a double: an optional `-`; digits, with or without a `.`
/// among, before or after them, at least one digit in all; an optional
/// exponent.
pub open spec fn float_shape(l: Seq<char>) -> bool {
    let a = after_sign(l);
    let b = run_end(l, a, Class::Digit);
    let c = if b < l.len() && l[b] == '.' {
        run_end(l, b + 1, Class::Digit)
    } else {
        b
    };
    let digits = if b < l.len() && l[b] == '.' {
        (b - a) + (c - (b + 1))
    } else {
        b - a
    };
    digits > 0 && (c == l.len() || exponent_end(l, c) == Some(l.len() as int))
}

/// The token for a run of number characters: an integer where it has the
/// shape of one and fits 64 bits, else a double where it has the shape of
/// one.
pub open spec fn number_token(l: Seq<char>) -> Option<TokenV> {
    if int_shape(l) && i64::MIN <= int_value(l) <= i64::MAX {
        Some(TokenV::Int(int_value(l) as i64))
    } else if float_shape(l) {
        Some(TokenV::Float(l))
    } else {
        None
    }
}

/// The character that `\c` stands for in a string.
pub open spec fn escape(c: char) -> Option<char> {
    if c == '"' {
        Some('"')
    } else if c == '\\' {
        Some('\\')
    } else if c == '0' {
        Some('\0')
    } else if c == 't' {
        Some('\t')
    } else if c == 'r' {
        Some('\r')
    } else if c == 'n' {
        Some('\n')
    } else {
        None
    }
}

/// The contents of a string whose opening quote is at `start`, read from
/// `j` on with `acc` read so far, and the index after its closing quote. A
/// string that does not end fails at `start`, an unknown escape at its
/// backslash.
pub open spec fn string_body(s: Seq<char>, start: int, j: int, acc: Seq<char>) -> Result<
    (Seq<char>, int),
    int,
>
    decreases s.len() - j,
{
    if j < 0 || j >= s.len() {
        Err(start)
    } else if s[j] == '"' {
        Ok((acc, j + 1))
    } else if s[j] == '\\' {
        if j + 1 < s.len() && escape(s[j + 1]) is Some {
            string_body(s, start, j + 2, acc.push(escape(s[j + 1])->0))
        } else {
            Err(j)
        }
    } else {
        string_body(s, start, j + 1, acc.push(s[j]))
    }
}

/// The index of the next line feed at or after `j`, or the text's end.
pub open spec fn line_end(s: Seq<char>, j: int) -> int
    decreases s.len() - j,
{
    if 0 <= j < s.len() && s[j] != '\n' {
        line_end(s, j + 1)
    } else {
        j
    }
}

/// The index after the `*/` that closes a block comment, read from `j` on
/// at nesting depth `depth`; none if the text ends first.
pub open spec fn comment_end(s: Seq<char>, j: int, depth: nat) -> Option<int>
    decreases s.len() - j,
{
    if j < 0 || j >= s.len() {
        None
    } else if s[j] == '*' && j + 1 < s.len() && s[j + 1] == '/' {
        if depth <= 1 {
            Some(j + 2)
        } else {
            comment_end(s, j + 2, (depth - 1) as nat)
        }
    } else if s[j] == '/' && j + 1 < s.len() && s[j + 1] == '*' {
        comment_end(s, j + 2, depth + 1)
    } else {
        comment_end(s, j + 1, depth)
    }
}

/// What stands at an index of the text.
pub enum Scan {
    /// A token, and the index after it.
    Token(TokenV, int),
    /// White space or a comment, and the index after it.
    Skip(int),
    /// Nothing that the language knows: the index of the fault.
    Fail(int),
}

/// The token for a punctuation character.
pub open spec fn punct(c: char) -> Option<TokenV> {
    if c == '(' {
        Some(TokenV::LParen)
    } else if c == ')' {
        Some(TokenV::RParen)
    } else if c == '{' {
        Some(TokenV::LCurl)
    } else if c == '}' {
        Some(TokenV::RCurl)
    } else if c == ',' {
        Some(TokenV::Comma)
    } else if c == ';' {
        Some(TokenV::SemiColon)
    } else if c == ':' {
        Some(TokenV::Colon)
    } else if c == '=' {
        Some(TokenV::Equal)
    } else {
        None
    }
}

/// What stands at index `i` of `s`.
pub open spec fn scan(s: Seq<char>, i: int) -> Scan {
    let c = s[i];
    if is_space(c) {
        Scan::Skip(i + 1)
    } else if is_letter(c) {
        Scan::Token(
            word_token(s.subrange(i, run_end(s, i, Class::Word))),
            run_end(s, i, Class::Word),
        )
    } else if c == '-' && i + 1 < s.len() && s[i + 1] == '>' {
        Scan::Token(TokenV::Arrow, i + 2)
    } else if numeric(c) || c == '-' {
        match number_token(s.subrange(i, run_end(s, i, Class::Number))) {
            Some(t) => Scan::Token(t, run_end(s, i, Class::Number)),
            None => Scan::Fail(i),
        }
    } else if c == '~' {
        if run_end(s, i + 1, Class::Word) > i + 1 {
            Scan::Token(
                TokenV::ConsType(s.subrange(i + 1, run_end(s, i + 1, Class::Word))),
                run_end(s, i + 1, Class::Word),
            )
        } else {
            Scan::Fail(i)
        }
    } else if c == '"' {
        match string_body(s, i, i + 1, Seq::empty()) {
            Ok((text, j)) => Scan::Token(TokenV::String(text), j),
            Err(k) => Scan::Fail(k),
        }
    } else if c == '/' && i + 1 < s.len() && s[i + 1] == '/' {
        Scan::Skip(line_end(s, i + 2))
    } else if c == '/' && i + 1 < s.len() && s[i + 1] == '*' {
        match comment_end(s, i + 2, 1) {
            Some(j) => Scan::Skip(j),
            None => Scan::Fail(i),
        }
    } else {
        match punct(c) {
            Some(t) => Scan::Token(t, i + 1),
            None => Scan::Fail(i),
        }
    }
}

/// The tokens of `s` from index `i` on, after `acc`; a fault is reported
/// by its byte offset.
pub open spec fn tokens_from(s: Seq<char>, i: int, acc: Seq<Spanned>) -> Result<Seq<Spanned>, usize>
    decreases s.len() - i,
{
    if i < 0 || i >= s.len() {
        Ok(acc)
    } else {
        match scan(s, i) {
            Scan::Token(t, j) => if i < j <= s.len() {
                tokens_from(
                    s,
                    j,
                    acc.push((t, offset(s, i) as usize, (offset(s, j) - 1) as usize)),
                )
            } else {
                Err(offset(s, i) as usize)
            },
            Scan::Skip(j) => if i < j <= s.len() {
                tokens_from(s, j, acc)
            } else {
                Err(offset(s, i) as usize)
            },
            Scan::Fail(k) => Err(offset(s, k) as usize),
        }
    }
}

/// The tokens of a text, each with the byte offsets of its first and last
/// byte, or the byte offset of the first fault.
pub open spec fn lexed(s: Seq<char>) -> Result<Seq<Spanned>, usize> {
    tokens_from(s, 0, Seq::empty())
}

fn space(c: char) -> (b: bool)
    ensures
        b == is_space(c),
{
    let u = c as u32;
    (9 <= u && u <= 13) || u == 0x20 || u == 0x85 || u == 0xA0 || u == 0x1680 || (0x2000 <= u
        && u <= 0x200A) || u == 0x2028 || u == 0x2029 || u == 0x202F || u == 0x205F || u == 0x3000
}

fn class_has(k: Class, c: char) -> (b: bool)
    ensures
        b == in_class(k, c),
{
    match k {
        Class::Word => c.is_alphabetic() || c.is_numeric() || c == '_',
        Class::Number => c.is_numeric() || c == '.' || c == '-' || c == '+' || c == 'e' || c
            == 'E',
        Class::Digit => {
            let u = c as u32;
            48 <= u && u <= 57
        },
    }
}

fn run(chars: &Vec<char>, i: usize, k: Class) -> (j: usize)
    requires
        i <= chars.len(),
    ensures
        j == run_end(chars@, i as int, k),
        i <= j <= chars.len(),
{
    let mut j: usize = i;
    while j < chars.len() && class_has(k, chars[j])
        invariant
            i <= j <= chars.len(),
            run_end(chars@, i as int, k) == run_end(chars@, j as int, k),
        decreases chars.len() - j,
    {
        j += 1;
    }
    j
}

fn slice(chars: &Vec<char>, i: usize, j: usize) -> (r: Vec<char>)
    requires
        i <= j <= chars.len(),
    ensures
        r@ == chars@.subrange(i as int, j as int),
{
    let mut r: Vec<char> = Vec::new();
    let mut k: usize = i;
    while k < j
        invariant
            i <= k <= j <= chars.len(),
            r@ == chars@.subrange(i as int, k as int),
        decreases j - k,
    {
        r.push(chars[k]);
        assert(r@ =~= chars@.subrange(i as int, k + 1));
        k += 1;
    }
    r
}

/// Whether the characters `w` spell `lit`.
fn is_text(w: &Vec<char>, lit: &str) -> (b: bool)
    ensures
        b == (w@ == lit@),
{
    let n = lit.unicode_len();
    if w.len() != n {
        return false;
    }
    let mut k: usize = 0;
    while k < n
        invariant
            k <= n,
            n == lit@.len(),
            w.len() == n,
            forall|j: int| 0 <= j < k ==> w[j] == lit@[j],
        decreases n - k,
    {
        if w[k] != lit.get_char(k) {
            return false;
        }
        k += 1;
    }
    assert(w@ =~= lit@);
    true
}

/// The string of the characters `w`.
fn string_of(w: &Vec<char>) -> (r: String)
    ensures
        r@ == w@,
{
    let mut r = String::new();
    let mut k: usize = 0;
    while k < w.len()
        invariant
            k <= w.len(),
            r@ == w@.take(k as int),
        decreases w.len() - k,
    {
        r.push(w[k]);
        assert(r@ =~= w@.take(k + 1));
        k += 1;
    }
    assert(w@.take(w.len() as int) =~= w@);
    r
}

fn word(w: &Vec<char>) -> (r: Token)
    ensures
        r@ == word_token(w@),
{
    if is_text(w, "type") {
        Token::Type
    } else if is_text(w, "slot") {
        Token::Slot
    } else if is_text(w, "slot_set") {
        Token::SlotSet
    } else if is_text(w, "slot_insert") {
        Token::SlotInsert
    } else if is_text(w, "slot_remove") {
        Token::SlotRemove
    } else if is_text(w, "length") {
        Token::Length
    } else if is_text(w, "proc") {
        Token::Proc
    } else if is_text(w, "return") {
        Token::Return
    } else if is_text(w, "yield") {
        Token::Yield
    } else if is_text(w, "resume") {
        Token::Resume
    } else if is_text(w, "break") {
        Token::Break
    } else if is_text(w, "coroutine") {
        Token::Coroutine
    } else if is_text(w, "dyn_coroutine") {
        Token::DynCoroutine
    } else if is_text(w, "set") {
        Token::SetLocal
    } else if is_text(w, "jump") {
        Token::Jump
    } else if is_text(w, "label") {
        Token::Label
    } else if is_text(w, "branch_true") {
        Token::BranchTrue
    } else if is_text(w, "global") {
        Token::Global
    } else if is_text(w, "call") {
        Token::Call
    } else if is_text(w, "dyn_call") {
        Token::DynCall
    } else if is_text(w, "closure") {
        Token::Closure
    } else if is_text(w, "true") {
        Token::Bool(true)
    } else if is_text(w, "false") {
        Token::Bool(false)
    } else if is_text(w, "cons") {
        Token::Cons
    } else if is_text(w, "delete") {
        Token::Delete
    } else if is_text(w, "is_nil") {
        Token::IsNil
    } else if is_text(w, "to_string") {
        Token::ToString
    } else if is_text(w, "concat") {
        Token::Concat
    } else {
        Token::Symbol(string_of(w))
    }
}

/// The value of a run of digits grows with the run.
proof fn lemma_digits_grow(s: Seq<char>, k: int)
    requires
        0 <= k <= s.len(),
    ensures
        digits_value(s.take(k)) <= digits_value(s),
    decreases s.len() - k,
{
    if k < s.len() {
        assert(s.take(k + 1).drop_last() =~= s.take(k));
        lemma_digits_grow(s, k + 1);
    } else {
        assert(s.take(k) =~= s);
    }
}

/// The value of the digits of `l` from `a` on, if it fits 64 bits.
fn digits(l: &Vec<char>, a: usize) -> (r: Option<u64>)
    requires
        a <= l.len(),
        run_end(l@, a as int, Class::Digit) == l.len(),
    ensures
        match r {
            Some(v) => digits_value(l@.skip(a as int)) == v,
            None => digits_value(l@.skip(a as int)) > u64::MAX,
        },
{
    let ghost d = l@.skip(a as int);
    let mut acc: u64 = 0;
    let mut k: usize = a;
    assert(d.take(0) =~= Seq::empty());
    while k < l.len()
        invariant
            a <= k <= l.len(),
            d == l@.skip(a as int),
            acc == digits_value(d.take(k - a)),
            run_end(l@, k as int, Class::Digit) == l.len(),
        decreases l.len() - k,
    {
        let v = (l[k] as u32 - 48) as u64;
        assert(d.take(k + 1 - a).drop_last() =~= d.take(k - a));
        assert(d.take(k + 1 - a).last() == l[k as int]);
        if acc > (u64::MAX - v) / 10 {
            proof {
                lemma_digits_grow(d, k + 1 - a);
            }
            return None;
        }
        acc = acc * 10 + v;
        k += 1;
    }
    assert(d.take(l.len() - a) =~= d);
    Some(acc)
}

/// Where an exponent that begins at `c` ends, if it is well formed.
fn exponent(l: &Vec<char>, c: usize) -> (r: Option<usize>)
    requires
        c <= l.len(),
    ensures
        match r {
            Some(e) => exponent_end(l@, c as int) == Some(e as int),
            None => exponent_end(l@, c as int) is None,
        },
{
    if c < l.len() && (l[c] == 'e' || l[c] == 'E') {
        let d = if c + 1 < l.len() && (l[c + 1] == '+' || l[c + 1] == '-') {
            c + 2
        } else {
            c + 1
        };
        let e = run(l, d, Class::Digit);
        if e > d {
            Some(e)
        } else {
            None
        }
    } else {
        None
    }
}

fn has_float_shape(l: &Vec<char>) -> (b: bool)
    ensures
        b == float_shape(l@),
{
    let a: usize = if l.len() > 0 && l[0] == '-' {
        1
    } else {
        0
    };
    let b = run(l, a, Class::Digit);
    let dot = b < l.len() && l[b] == '.';
    let c = if dot {
        run(l, b + 1, Class::Digit)
    } else {
        b
    };
    let count = if dot {
        (b - a) + (c - (b + 1))
    } else {
        b - a
    };
    if count == 0 {
        return false;
    }
    if c == l.len() {
        return true;
    }
    match exponent(l, c) {
        Some(e) => e == l.len(),
        None => false,
    }
}

/// The token for a run of number characters.
fn number(l: &Vec<char>) -> (r: Option<Token>)
    ensures
        match r {
            Some(t) => number_token(l@) == Some(t@),
            None => number_token(l@) is None,
        },
{
    let a: usize = if l.len() > 0 && l[0] == '-' {
        1
    } else {
        0
    };
    if a < l.len() && run(l, a, Class::Digit) == l.len() {
        assert(l@.skip(0) =~= l@);
        match digits(l, a) {
            Some(v) => {
                if a == 1 {
                    if v <= 9223372036854775807 {
                        return Some(Token::Int(-(v as i64)));
                    } else if v == 9223372036854775808 {
                        return Some(Token::Int(i64::MIN));
                    }
                } else if v <= 9223372036854775807 {
                    return Some(Token::Int(v as i64));
                }
            },
            None => {},
        }
    }
    if has_float_shape(l) {
        Some(Token::Float(string_of(l)))
    } else {
        None
    }
}

fn escaped(c: char) -> (r: Option<char>)
    ensures
        r == escape(c),
{
    if c == '"' {
        Some('"')
    } else if c == '\\' {
        Some('\\')
    } else if c == '0' {
        Some('\0')
    } else if c == 't' {
        Some('\t')
    } else if c == 'r' {
        Some('\r')
    } else if c == 'n' {
        Some('\n')
    } else {
        None
    }
}

/// Reads a string whose opening quote is at `start`.
fn string(chars: &Vec<char>, start: usize) -> (r: Result<(String, usize), usize>)
    requires
        start < chars.len(),
    ensures
        match r {
            Ok((t, j)) => string_body(chars@, start as int, start + 1, Seq::empty()) == Ok::<
                (Seq<char>, int),
                int,
            >((t@, j as int)) && start < j <= chars.len(),
            Err(k) => string_body(chars@, start as int, start + 1, Seq::empty()) == Err::<
                (Seq<char>, int),
                int,
            >(k as int) && k < chars.len(),
        },
{
    let mut text = String::new();
    let mut j: usize = start + 1;
    loop
        invariant
            start < j <= chars.len(),
            string_body(chars@, start as int, start + 1, Seq::empty()) == string_body(
                chars@,
                start as int,
                j as int,
                text@,
            ),
        decreases chars.len() - j,
    {
        if j >= chars.len() {
            return Err(start);
        }
        let c = chars[j];
        if c == '"' {
            return Ok((text, j + 1));
        }
        if c == '\\' {
            if j + 1 >= chars.len() {
                return Err(j);
            }
            match escaped(chars[j + 1]) {
                Some(e) => {
                    text.push(e);
                    j += 2;
                },
                None => {
                    return Err(j);
                },
            }
        } else {
            text.push(c);
            j += 1;
        }
    }
}

fn line(chars: &Vec<char>, i: usize) -> (j: usize)
    requires
        i <= chars.len(),
    ensures
        j == line_end(chars@, i as int),
        i <= j <= chars.len(),
{
    let mut j: usize = i;
    while j < chars.len() && chars[j] != '\n'
        invariant
            i <= j <= chars.len(),
            line_end(chars@, i as int) == line_end(chars@, j as int),
        decreases chars.len() - j,
    {
        j += 1;
    }
    j
}

/// The index after the end of a block comment whose body begins at `i`.
fn comment(chars: &Vec<char>, i: usize) -> (r: Option<usize>)
    requires
        i <= chars.len(),
    ensures
        match r {
            Some(j) => comment_end(chars@, i as int, 1) == Some(j as int) && i < j <= chars.len(),
            None => comment_end(chars@, i as int, 1) is None,
        },
{
    let mut j: usize = i;
    let mut depth: usize = 1;
    loop
        invariant
            i <= j <= chars.len(),
            depth >= 1,
            depth <= 1 + (j - i),
            comment_end(chars@, i as int, 1) == comment_end(chars@, j as int, depth as nat),
        decreases chars.len() - j,
    {
        if j >= chars.len() {
            return None;
        }
        let c = chars[j];
        if c == '*' && j + 1 < chars.len() && chars[j + 1] == '/' {
            if depth <= 1 {
                return Some(j + 2);
            }
            depth -= 1;
            j += 2;
        } else if c == '/' && j + 1 < chars.len() && chars[j + 1] == '*' {
            depth += 1;
            j += 2;
        } else {
            j += 1;
        }
    }
}

fn punct_of(c: char) -> (r: Option<Token>)
    ensures
        match r {
            Some(t) => punct(c) == Some(t@),
            None => punct(c) is None,
        },
{
    if c == '(' {
        Some(Token::LParen)
    } else if c == ')' {
        Some(Token::RParen)
    } else if c == '{' {
        Some(Token::LCurl)
    } else if c == '}' {
        Some(Token::RCurl)
    } else if c == ',' {
        Some(Token::Comma)
    } else if c == ';' {
        Some(Token::SemiColon)
    } else if c == ':' {
        Some(Token::Colon)
    } else if c == '=' {
        Some(Token::Equal)
    } else {
        None
    }
}

/// What `scan_at` found.
enum Found {
    Token(Token, usize),
    Skip(usize),
    Fail(usize),
}

/// What stands at index `i`.
fn scan_at(chars: &Vec<char>, i: usize) -> (r: Found)
    requires
        i < chars.len(),
    ensures
        match r {
            Found::Token(t, j) => scan(chars@, i as int) == Scan::Token(t@, j as int) && i < j
                <= chars.len(),
            Found::Skip(j) => scan(chars@, i as int) == Scan::Skip(j as int) && i < j
                <= chars.len(),
            Found::Fail(k) => scan(chars@, i as int) == Scan::Fail(k as int) && k < chars.len(),
        },
{
    let c = chars[i];
    if space(c) {
        Found::Skip(i + 1)
    } else if c.is_alphabetic() || c == '_' {
        let j = run(chars, i + 1, Class::Word);
        let w = slice(chars, i, j);
        assert(run_end(chars@, i as int, Class::Word) == run_end(chars@, i + 1, Class::Word));
        Found::Token(word(&w), j)
    } else if c == '-' && i + 1 < chars.len() && chars[i + 1] == '>' {
        Found::Token(Token::Arrow, i + 2)
    } else if c.is_numeric() || c == '-' {
        let j = run(chars, i + 1, Class::Number);
        let l = slice(chars, i, j);
        assert(run_end(chars@, i as int, Class::Number) == run_end(chars@, i + 1, Class::Number));
        match number(&l) {
            Some(t) => Found::Token(t, j),
            None => Found::Fail(i),
        }
    } else if c == '~' {
        let j = run(chars, i + 1, Class::Word);
        if j > i + 1 {
            let w = slice(chars, i + 1, j);
            Found::Token(Token::ConsType(string_of(&w)), j)
        } else {
            Found::Fail(i)
        }
    } else if c == '"' {
        match string(chars, i) {
            Ok((text, j)) => Found::Token(Token::String(text), j),
            Err(k) => Found::Fail(k),
        }
    } else if c == '/' && i + 1 < chars.len() && chars[i + 1] == '/' {
        Found::Skip(line(chars, i + 2))
    } else if c == '/' && i + 1 < chars.len() && chars[i + 1] == '*' {
        match comment(chars, i + 2) {
            Some(j) => Found::Skip(j),
            None => Found::Fail(i),
        }
    } else {
        match punct_of(c) {
            Some(t) => Found::Token(t, i + 1),
            None => Found::Fail(i),
        }
    }
}

/// Splits a text into tokens, each with the byte offsets of its first and
/// last byte. White space and comments separate tokens. A character that
/// begins no token, a number that is none, a `~` without a name, a string
/// or block comment that does not end and an unknown escape are faults,
/// reported by byte offset.
pub fn lex(input: &str) -> (r: Result<Vec<(Token, usize, usize)>, usize>)
    ensures
        match r {
            Ok(v) => lexed(input@) == Ok::<Seq<Spanned>, usize>(views(v@)),
            Err(p) => lexed(input@) == Err::<Seq<Spanned>, usize>(p),
        },
{
    let chars = chars_of(input);
    let total = input.as_bytes().len();
    proof {
        lemma_byte_len(chars@);
    }
    let offs = offsets(&chars, total);
    let mut out: Vec<(Token, usize, usize)> = Vec::new();
    let mut i: usize = 0;
    assert(views(out@) =~= Seq::empty());
    while i < chars.len()
        invariant
            i <= chars.len(),
            chars@ == input@,
            offs.len() == chars.len() + 1,
            forall|k: int| 0 <= k <= chars.len() ==> offs[k] == offset(chars@, k),
            lexed(input@) == tokens_from(chars@, i as int, views(out@)),
        decreases chars.len() - i,
    {
        match scan_at(&chars, i) {
            Found::Token(t, j) => {
                proof {
                    lemma_offset_step(chars@, j - 1);
                }
                let ghost before = out@;
                let e = (t, offs[i], offs[j] - 1);
                out.push(e);
                assert(views(out@) =~= views(before).push(e@));
                i = j;
            },
            Found::Skip(j) => {
                i = j;
            },
            Found::Fail(k) => {
                return Err(offs[k]);
            },
        }
    }
    Ok(out)
}

} // verus!
