use vstd::prelude::*;
use vstd::utf8::encode_utf8;

verus! {

/// The characters of a string.
pub fn chars_of(s: &str) -> (v: Vec<char>)
    ensures
        v@ == s@,
{
    let mut v: Vec<char> = Vec::new();
    for c in it: s.chars()
        invariant
            v@ == it.seq().take(it.index()),
            it.seq() == s@,
    {
        v.push(c);
    }
    v
}

/// The number of bytes of a character in UTF-8.
pub open spec fn width(c: char) -> nat {
    if (c as u32) < 0x80 {
        1
    } else if (c as u32) < 0x800 {
        2
    } else if (c as u32) < 0x10000 {
        3
    } else {
        4
    }
}

/// The number of bytes of a text in UTF-8.
pub open spec fn byte_len(s: Seq<char>) -> nat
    decreases s.len(),
{
    if s.len() == 0 {
        0
    } else {
        byte_len(s.drop_last()) + width(s.last())
    }
}

/// The byte offset of the character at index `i` of `s`.
pub open spec fn offset(s: Seq<char>, i: int) -> nat {
    byte_len(s.take(i))
}

/// `byte_len` is the length of the UTF-8 encoding.
pub proof fn lemma_byte_len(s: Seq<char>)
    ensures
        byte_len(s) == encode_utf8(s).len(),
    decreases s.len(),
{
    if s.len() > 0 {
        lemma_byte_len(s.drop_last());
        lemma_encode_push(s.drop_last(), s.last());
        assert(s.drop_last().push(s.last()) =~= s);
    }
}

proof fn lemma_encode_push(s: Seq<char>, c: char)
    ensures
        encode_utf8(s.push(c)).len() == encode_utf8(s).len() + width(c),
    decreases s.len(),
{
    vstd::utf8::char_is_scalar(c);
    if s.len() == 0 {
        assert(s.push(c).drop_first() =~= Seq::<char>::empty());
        assert(encode_utf8(s.push(c).drop_first()).len() == 0);
    } else {
        assert(s.push(c).drop_first() =~= s.drop_first().push(c));
        lemma_encode_push(s.drop_first(), c);
    }
}

/// Offsets grow with the index.
pub proof fn lemma_offset_step(s: Seq<char>, i: int)
    requires
        0 <= i < s.len(),
    ensures
        offset(s, i + 1) == offset(s, i) + width(s[i]),
{
    assert(s.take(i + 1).drop_last() =~= s.take(i));
}

/// The number of bytes of a character in UTF-8.
pub fn width_of(c: char) -> (w: usize)
    ensures
        w == width(c),
{
    let u = c as u32;
    if u < 0x80 {
        1
    } else if u < 0x800 {
        2
    } else if u < 0x10000 {
        3
    } else {
        4
    }
}

/// The byte offset of each character of the text, and at the end the
/// text's length in bytes.
pub fn offsets(chars: &Vec<char>, total: usize) -> (r: Vec<usize>)
    requires
        total == byte_len(chars@),
    ensures
        r.len() == chars.len() + 1,
        forall|i: int| 0 <= i <= chars.len() ==> r[i] == offset(chars@, i),
{
    let mut r: Vec<usize> = Vec::new();
    let mut pos: usize = 0;
    let mut i: usize = 0;
    assert(chars@.take(0) =~= Seq::empty());
    r.push(0);
    while i < chars.len()
        invariant
            i <= chars.len(),
            total == byte_len(chars@),
            r.len() == i + 1,
            pos == offset(chars@, i as int),
            forall|j: int| 0 <= j <= i ==> r[j] == offset(chars@, j),
        decreases chars.len() - i,
    {
        proof {
            lemma_offset_step(chars@, i as int);
            lemma_offset_bound(chars@, i + 1);
        }
        pos = pos + width_of(chars[i]);
        r.push(pos);
        i += 1;
    }
    r
}

/// No offset lies beyond the text's length in bytes.
pub proof fn lemma_offset_bound(s: Seq<char>, i: int)
    requires
        0 <= i <= s.len(),
    ensures
        offset(s, i) <= byte_len(s),
    decreases s.len() - i,
{
    if i < s.len() {
        lemma_offset_step(s, i);
        lemma_offset_bound(s, i + 1);
    } else {
        assert(s.take(i) =~= s);
    }
}

} // verus!
