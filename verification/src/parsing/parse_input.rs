use vstd::prelude::*;
use super::ir_parser::ParseError;

verus! {

/// A cursor over a list of tokens, each with the span it was read from.
pub struct Input<T> {
    /// The tokens that are left, the next one last.
    rev: Vec<(T, usize, usize)>,
}

impl<T> Input<T> {
    /// The tokens that are left, the next one first.
    pub closed spec fn remaining(&self) -> Seq<(T, usize, usize)> {
        self.rev@.reverse()
    }

    /// A cursor at the first of the tokens.
    pub fn new(input: Vec<(T, usize, usize)>) -> (r: Self)
        ensures
            r.remaining() == input@,
    {
        let mut input = input;
        let ghost all = input@;
        let mut rev: Vec<(T, usize, usize)> = Vec::new();
        while input.len() > 0
            invariant
                input@ + rev@.reverse() == all,
            decreases input.len(),
        {
            let ghost a = rev@;
            let ghost b = input@;
            match input.pop() {
                Some(t) => {
                    rev.push(t);
                    assert(input@ + rev@.reverse() =~= b + a.reverse());
                },
                None => {},
            }
        }
        assert(rev@.reverse() =~= input@ + rev@.reverse());
        Input { rev }
    }

    /// The span of the next token.
    pub fn current(&self) -> (r: Result<(usize, usize), ParseError>)
        ensures
            r == (if self.remaining().len() == 0 {
                Err::<(usize, usize), ParseError>(ParseError::Eof)
            } else {
                Ok((self.remaining()[0].1, self.remaining()[0].2))
            }),
    {
        let n = self.rev.len();
        if n == 0 {
            Err(ParseError::Eof)
        } else {
            Ok((self.rev[n - 1].1, self.rev[n - 1].2))
        }
    }

    /// The next token, which stays.
    pub fn peek(&self) -> (r: Result<&T, ParseError>)
        ensures
            match r {
                Ok(t) => self.remaining().len() > 0 && *t == self.remaining()[0].0,
                Err(e) => self.remaining().len() == 0 && e == ParseError::Eof,
            },
    {
        let n = self.rev.len();
        if n == 0 {
            Err(ParseError::Eof)
        } else {
            Ok(&self.rev[n - 1].0)
        }
    }

    /// The next token, which leaves.
    pub fn take(&mut self) -> (r: Result<T, ParseError>)
        ensures
            match r {
                Ok(t) => old(self).remaining().len() > 0 && t == old(self).remaining()[0].0
                    && final(self).remaining() == old(self).remaining().skip(1),
                Err(e) => old(self).remaining().len() == 0 && e == ParseError::Eof
                    && final(self).remaining() == old(self).remaining(),
            },
    {
        match self.rev.pop() {
            Some(t) => {
                assert(self.rev@.reverse() =~= old(self).rev@.reverse().skip(1));
                Ok(t.0)
            },
            None => Err(ParseError::Eof),
        }
    }

    /// Whether no token is left.
    pub fn empty(&self) -> (r: bool)
        ensures
            r == (self.remaining().len() == 0),
    {
        self.rev.len() == 0
    }

    /// Whether the next token satisfies `f`; if it does, it leaves.
    pub fn check<F: Fn(&T) -> bool>(&mut self, f: F) -> (r: Result<bool, ParseError>)
        requires
            old(self).remaining().len() > 0 ==> f.requires((&old(self).remaining()[0].0,)),
        ensures
            match r {
                Ok(b) => old(self).remaining().len() > 0 && f.ensures(
                    (&old(self).remaining()[0].0,),
                    b,
                ) && final(self).remaining() == (if b {
                    old(self).remaining().skip(1)
                } else {
                    old(self).remaining()
                }),
                Err(e) => old(self).remaining().len() == 0 && e == ParseError::Eof
                    && final(self).remaining() == old(self).remaining(),
            },
    {
        let n = self.rev.len();
        if n == 0 {
            return Err(ParseError::Eof);
        }
        let hit = f(&self.rev[n - 1].0);
        if hit {
            self.rev.pop();
            assert(self.rev@.reverse() =~= old(self).rev@.reverse().skip(1));
        }
        Ok(hit)
    }

    /// The next token, which must satisfy `f` and leaves; one that does not
    /// stays, and the error holds its span.
    pub fn expect<F: Fn(&T) -> bool>(&mut self, f: F) -> (r: Result<T, ParseError>)
        requires
            old(self).remaining().len() > 0 ==> f.requires((&old(self).remaining()[0].0,)),
        ensures
            match r {
                Ok(t) => old(self).remaining().len() > 0 && t == old(self).remaining()[0].0
                    && f.ensures((&t,), true) && final(self).remaining() == old(
                    self,
                ).remaining().skip(1),
                Err(e) => final(self).remaining() == old(self).remaining() && (if old(
                    self,
                ).remaining().len() == 0 {
                    e == ParseError::Eof
                } else {
                    f.ensures((&old(self).remaining()[0].0,), false) && e == ParseError::Fatal(
                        old(self).remaining()[0].1,
                        old(self).remaining()[0].2,
                    )
                }),
            },
    {
        let n = self.rev.len();
        if n == 0 {
            return Err(ParseError::Eof);
        }
        if f(&self.rev[n - 1].0) {
            match self.rev.pop() {
                Some(t) => {
                    assert(self.rev@.reverse() =~= old(self).rev@.reverse().skip(1));
                    Ok(t.0)
                },
                None => Err(ParseError::Eof),
            }
        } else {
            Err(ParseError::Fatal(self.rev[n - 1].1, self.rev[n - 1].2))
        }
    }
}

} // verus!
