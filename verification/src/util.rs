use vstd::prelude::*;
use crate::eval::data::views;
use crate::parsing::chars::{byte_len, chars_of, width_of};

verus! {

/// `String::push` appends one character.
pub assume_specification[ std::string::String::push ](s: &mut std::string::String, c: char)
    ensures
        final(s)@ == old(s)@.push(c),
;

/// The character for a decimal digit.
pub open spec fn digit(d: nat) -> char {
    if d == 0 {
        '0'
    } else if d == 1 {
        '1'
    } else if d == 2 {
        '2'
    } else if d == 3 {
        '3'
    } else if d == 4 {
        '4'
    } else if d == 5 {
        '5'
    } else if d == 6 {
        '6'
    } else if d == 7 {
        '7'
    } else if d == 8 {
        '8'
    } else {
        '9'
    }
}

/// The decimal numeral of a natural number, without leading zeros.
pub open spec fn decimal(n: nat) -> Seq<char>
    decreases n,
{
    if n < 10 {
        seq![digit(n)]
    } else {
        decimal(n / 10).push(digit(n % 10))
    }
}

/// The decimal numeral of an integer, with `-` before a negative one.
pub open spec fn int_text(n: int) -> Seq<char> {
    if n < 0 {
        seq!['-'] + decimal((-n) as nat)
    } else {
        decimal(n as nat)
    }
}

fn digit_char(d: u64) -> (c: char)
    requires
        d < 10,
    ensures
        c == digit(d as nat),
{
    if d == 0 {
        '0'
    } else if d == 1 {
        '1'
    } else if d == 2 {
        '2'
    } else if d == 3 {
        '3'
    } else if d == 4 {
        '4'
    } else if d == 5 {
        '5'
    } else if d == 6 {
        '6'
    } else if d == 7 {
        '7'
    } else if d == 8 {
        '8'
    } else {
        '9'
    }
}

/// Appends the decimal numeral of `n`.
pub fn push_decimal(s: &mut String, n: u64)
    ensures
        final(s)@ == old(s)@ + decimal(n as nat),
{
    let mut rev: Vec<char> = Vec::new();
    let mut m: u64 = n;
    while m >= 10
        invariant
            decimal(n as nat) == decimal(m as nat) + rev@.reverse(),
        decreases m,
    {
        let ghost before = rev@;
        rev.push(digit_char(m % 10));
        assert(rev@.reverse() =~= seq![digit((m % 10) as nat)] + before.reverse());
        assert(decimal(m as nat) + before.reverse() =~= decimal((m / 10) as nat) + rev@.reverse());
        m = m / 10;
    }
    let ghost before = rev@;
    rev.push(digit_char(m));
    assert(rev@.reverse() =~= decimal(m as nat) + before.reverse());
    let mut i: usize = rev.len();
    while i > 0
        invariant
            i <= rev.len(),
            s@ == old(s)@ + rev@.reverse().take(rev.len() - i),
        decreases i,
    {
        i -= 1;
        s.push(rev[i]);
        assert(rev@.reverse().take(rev.len() - i) =~= rev@.reverse().take(rev.len() - i - 1).push(
            rev[i as int],
        ));
    }
    assert(rev@.reverse().take(rev.len() as int) =~= rev@.reverse());
}

/// Appends the decimal numeral of `n`.
pub fn push_int(s: &mut String, n: i64)
    ensures
        final(s)@ == old(s)@ + int_text(n as int),
{
    if n < 0 {
        s.push('-');
        let m: u64 = (-(n + 1)) as u64 + 1;
        push_decimal(s, m);
        assert(s@ =~= old(s)@ + int_text(n as int));
    } else {
        push_decimal(s, n as u64);
    }
}

/// A line without the carriage return at its end, if it has one.
pub open spec fn strip_cr(l: Seq<char>) -> Seq<char> {
    if l.len() > 0 && l.last() == '\r' {
        l.drop_last()
    } else {
        l
    }
}

/// A line of a text: what it shows, and the number of bytes that it
/// takes in the text, its line feed not counted.
pub struct Row {
    pub text: Seq<char>,
    pub bytes: nat,
}

/// The lines of `s` from index `i` on, after the lines `acc` and the
/// beginning `cur` of the current line.
pub open spec fn lines_from(s: Seq<char>, i: int, cur: Seq<char>, acc: Seq<Row>) -> Seq<Row>
    decreases s.len() - i,
{
    if i < 0 || i >= s.len() {
        if cur.len() > 0 {
            acc.push(Row { text: cur, bytes: byte_len(cur) })
        } else {
            acc
        }
    } else if s[i] == '\n' {
        lines_from(
            s,
            i + 1,
            Seq::empty(),
            acc.push(Row { text: strip_cr(cur), bytes: byte_len(cur) }),
        )
    } else {
        lines_from(s, i + 1, cur.push(s[i]), acc)
    }
}

/// The lines of a text: it is split at each line feed, a carriage return
/// before a line feed is not shown, and the text's last line needs no
/// line feed.
pub open spec fn lines(s: Seq<char>) -> Seq<Row> {
    lines_from(s, 0, Seq::empty(), Seq::empty())
}

/// The line from line `k` on to which the offset `start` belongs, where
/// line `k` begins at offset `c`: the line's index and the offset it
/// begins at. A line owns its bytes and its line feed; the offset after
/// the line feed is the first of the next line.
pub open spec fn find_line(ls: Seq<Row>, start: nat, k: nat, c: nat) -> Option<(nat, nat)>
    decreases ls.len() - k,
{
    if k >= ls.len() {
        None
    } else if c <= start <= c + ls[k as int].bytes {
        Some((k, c))
    } else {
        find_line(ls, start, k + 1, c + ls[k as int].bytes + 1)
    }
}

/// `n` times the character `c`.
pub open spec fn repeat(c: char, n: nat) -> Seq<char> {
    Seq::new(n, |i: int| c)
}

/// The mark under a span: a caret for a span of one offset, else a dash
/// for each offset from `start` to `end`, none where `end` is just before
/// `start`.
pub open spec fn mark(start: nat, end: nat) -> Seq<char> {
    if start == end {
        seq!['^']
    } else {
        repeat('-', (1 + end - start) as nat)
    }
}

/// The report for the span from `start` to `end` of `s`: the number of the
/// line that the offset `start` lies in, the line before it (empty for
/// the first), the line itself, and under it the mark, moved right by the
/// offset of `start` in its line. Nothing where `start` lies in no line.
pub open spec fn underlined(s: Seq<char>, start: nat, end: nat) -> Option<Seq<char>> {
    match find_line(lines(s), start, 0, 0) {
        None => None,
        Some((k, c)) => Some(
            "error at "@ + decimal(k + 1) + seq!['\n'] + (if k > 0 {
                lines(s)[k - 1].text
            } else {
                Seq::empty()
            }) + seq!['\n'] + lines(s)[k as int].text + seq!['\n'] + repeat(
                ' ',
                (start - c) as nat,
            ) + mark(start, end),
        ),
    }
}

/// A line of a text; see `Row`.
pub struct Line {
    pub text: Vec<char>,
    pub bytes: u128,
}

impl View for Line {
    type V = Row;

    open spec fn view(&self) -> Row {
        Row { text: self.text@, bytes: self.bytes as nat }
    }
}

/// The lines of a text.
fn split_lines(chars: &Vec<char>) -> (r: Vec<Line>)
    ensures
        views(r@) == lines(chars@),
        forall|j: int| 0 <= j < r.len() ==> (#[trigger] r[j]).bytes <= 4 * usize::MAX,
{
    let mut acc: Vec<Line> = Vec::new();
    let mut cur: Vec<char> = Vec::new();
    let mut i: usize = 0;
    assert(views(acc@) =~= Seq::empty());
    while i < chars.len()
        invariant
            i <= chars.len(),
            lines(chars@) == lines_from(chars@, i as int, cur@, views(acc@)),
            forall|j: int| 0 <= j < acc.len() ==> (#[trigger] acc[j]).bytes <= 4 * usize::MAX,
        decreases chars.len() - i,
    {
        let c = chars[i];
        if c == '\n' {
            let bytes = line_bytes(&cur);
            let n = cur.len();
            if n > 0 && cur[n - 1] == '\r' {
                cur.pop();
            }
            let ghost before = acc@;
            let line = Line { text: cur, bytes };
            acc.push(line);
            cur = Vec::new();
            assert(views(acc@) =~= views(before).push(line@));
        } else {
            cur.push(c);
        }
        i += 1;
    }
    if cur.len() > 0 {
        let ghost before = acc@;
        let bytes = line_bytes(&cur);
        let line = Line { text: cur, bytes };
        acc.push(line);
        assert(views(acc@) =~= views(before).push(line@));
    }
    acc
}

/// The number of bytes of a line.
fn line_bytes(l: &Vec<char>) -> (n: u128)
    ensures
        n == byte_len(l@),
        n <= 4 * l.len(),
{
    let mut n: u128 = 0;
    let mut i: usize = 0;
    assert(l@.take(0) =~= Seq::empty());
    while i < l.len()
        invariant
            i <= l.len(),
            n == byte_len(l@.take(i as int)),
            n <= 4 * i,
        decreases l.len() - i,
    {
        assert(l@.take(i + 1).drop_last() =~= l@.take(i as int));
        n = n + width_of(l[i]) as u128;
        i += 1;
    }
    assert(l@.take(l.len() as int) =~= l@);
    n
}

fn push_chars(s: &mut String, l: &Vec<char>)
    ensures
        final(s)@ == old(s)@ + l@,
{
    let mut i: usize = 0;
    while i < l.len()
        invariant
            i <= l.len(),
            s@ == old(s)@ + l@.take(i as int),
        decreases l.len() - i,
    {
        s.push(l[i]);
        assert(s@ =~= old(s)@ + l@.take(i + 1));
        i += 1;
    }
    assert(l@.take(l.len() as int) =~= l@);
}

fn push_repeat(s: &mut String, c: char, n: usize)
    ensures
        final(s)@ == old(s)@ + repeat(c, n as nat),
{
    let mut i: usize = 0;
    while i < n
        invariant
            i <= n,
            s@ == old(s)@ + repeat(c, i as nat),
        decreases n - i,
    {
        s.push(c);
        assert(s@ =~= old(s)@ + repeat(c, (i + 1) as nat));
        i += 1;
    }
}

/// The report for a span of a text, or nothing where the span's start
/// belongs to no line; see `underlined`.
pub fn try_underline(input: &str, start: usize, end: usize) -> (r: Option<String>)
    requires
        start <= end + 1,
    ensures
        match r {
            Some(t) => underlined(input@, start as nat, end as nat) == Some(t@),
            None => underlined(input@, start as nat, end as nat) is None,
        },
{
    let chars = chars_of(input);
    let ls = split_lines(&chars);
    let mut c: u128 = 0;
    let mut k: usize = 0;
    while k < ls.len()
        invariant
            k <= ls.len(),
            c <= start,
            start <= end + 1,
            views(ls@) == lines(input@),
            forall|j: int| 0 <= j < ls.len() ==> (#[trigger] ls[j]).bytes <= 4 * usize::MAX,
            find_line(lines(input@), start as nat, 0, 0) == find_line(
                lines(input@),
                start as nat,
                k as nat,
                c as nat,
            ),
        decreases ls.len() - k,
    {
        let l = ls[k].bytes;
        if (start as u128) <= c + l {
            let mut t = String::from_str("error at ");
            push_decimal(&mut t, k as u64 + 1);
            t.push('\n');
            if k > 0 {
                push_chars(&mut t, &ls[k - 1].text);
            }
            t.push('\n');
            push_chars(&mut t, &ls[k].text);
            t.push('\n');
            push_repeat(&mut t, ' ', start - c as usize);
            if start == end {
                t.push('^');
            } else if start < end {
                let ghost before = t@;
                t.push('-');
                push_repeat(&mut t, '-', end - start);
                assert(t@ =~= before + repeat('-', (1 + end - start) as nat));
            } else {
                assert(t@ =~= t@ + repeat('-', 0));
            }
            assert(t@ =~= underlined(input@, start as nat, end as nat)->0);
            return Some(t);
        }
        c = c + l + 1;
        k += 1;
    }
    None
}

/// The report for a span of a text whose start belongs to a line; see
/// `underlined`.
pub fn underline(input: &str, start: usize, end: usize) -> (r: String)
    requires
        start <= end + 1,
        underlined(input@, start as nat, end as nat) is Some,
    ensures
        underlined(input@, start as nat, end as nat) == Some(r@),
{
    match try_underline(input, start, end) {
        Some(t) => t,
        None => String::new(),
    }
}

} // verus!
