use vstd::prelude::*;
use crate::eval::data::views;
use super::lowering::find_last;

verus! {

/// A term: a variable, or a constructor applied to terms.
#[derive(Debug, PartialEq)]
pub enum Term {
    Var(String),
    Data(String, Vec<Term>),
}

/// What is known of a variable.
pub enum Bound {
    /// It stands for this term.
    Value(Term),
    /// It stands for what the variable with this index stands for.
    Index(usize),
    Free,
}

/// Mathematical model of a unifier: the names of the variables it has met,
/// in the order in which it met them, and what it knows of each.
pub struct Store {
    pub names: Seq<Seq<char>>,
    pub vars: Seq<Bound>,
}

/// The store in which `name` is registered, and its index: a name that is
/// new gets the next index and is free.
pub open spec fn registered(s: Store, name: Seq<char>) -> (Store, usize) {
    match find_last(s.names, name) {
        Some(i) => (s, i as usize),
        None => (
            Store { names: s.names.push(name), vars: s.vars.push(Bound::Free) },
            s.vars.len() as usize,
        ),
    }
}

/// The variable at the end of the chain of links that begins at `x`, and
/// the term it stands for if it stands for one. Nothing where `x` is no
/// variable of the store or the chain is longer than `fuel` links.
pub open spec fn followed(s: Store, x: usize, fuel: nat) -> Option<(usize, Option<Term>)>
    decreases fuel,
{
    if x >= s.vars.len() {
        None
    } else {
        match s.vars[x as int] {
            Bound::Value(t) => Some((x, Some(t))),
            Bound::Free => Some((x, None)),
            Bound::Index(y) => if fuel == 0 {
                None
            } else {
                followed(s, y, (fuel - 1) as nat)
            },
        }
    }
}

/// The store with variable `x` bound.
pub open spec fn bind(s: Store, x: usize, b: Bound) -> Store {
    Store { vars: s.vars.update(x as int, b), ..s }
}

/// The store after unifying a variable, registered under `x`, with the
/// term `t`, which is no variable: a free variable is bound to `t`, a
/// bound one has its term unified with `t`, first or second as `flip` says.
pub open spec fn unified_var(s: Store, x: usize, t: Term, flip: bool, fuel: nat) -> (Store, bool)
    decreases fuel, 0nat,
{
    match followed(s, x, s.vars.len()) {
        None => (s, false),
        Some((i, None)) => (bind(s, i, Bound::Value(t)), true),
        Some((_, Some(v))) => if fuel == 0 {
            (s, false)
        } else if flip {
            unified(s, t, v, (fuel - 1) as nat)
        } else {
            unified(s, v, t, (fuel - 1) as nat)
        },
    }
}

/// The store after unifying `a` with `b`, and whether they unify, where
/// the unification may nest `fuel` deep; deeper, they count as not
/// unifying. Two constructors unify if they have the same name and their
/// arguments unify pairwise, as far as both have arguments. Two free
/// variables are linked, the first to the second.
pub open spec fn unified(s: Store, a: Term, b: Term, fuel: nat) -> (Store, bool)
    decreases fuel, 1nat,
{
    match (a, b) {
        (Term::Data(f, xs), Term::Data(g, ys)) => if f@ != g@ {
            (s, false)
        } else if fuel == 0 {
            (s, false)
        } else {
            unified_all(s, xs@, ys@, 0, (fuel - 1) as nat)
        },
        (Term::Var(x), Term::Var(y)) => {
            let (s1, i) = registered(s, x@);
            let (s2, j) = registered(s1, y@);
            match (followed(s2, i, s2.vars.len()), followed(s2, j, s2.vars.len())) {
                (Some((p, None)), Some((q, None))) => if p == q {
                    (s2, true)
                } else {
                    (bind(s2, p, Bound::Index(q)), true)
                },
                (Some((_, Some(u))), Some((_, Some(v)))) => if fuel == 0 {
                    (s2, false)
                } else {
                    unified(s2, u, v, (fuel - 1) as nat)
                },
                (Some((p, None)), Some((_, Some(v)))) => (bind(s2, p, Bound::Value(v)), true),
                (Some((_, Some(u))), Some((q, None))) => (bind(s2, q, Bound::Value(u)), true),
                _ => (s2, false),
            }
        },
        (Term::Var(x), _) => {
            let (s1, i) = registered(s, x@);
            unified_var(s1, i, b, false, fuel)
        },
        (_, Term::Var(y)) => {
            let (s1, j) = registered(s, y@);
            unified_var(s1, j, a, true, fuel)
        },
    }
}

/// The store after unifying the arguments `xs` and `ys` pairwise from
/// index `i` on, as far as both have arguments, up to the first pair that
/// does not unify.
pub open spec fn unified_all(s: Store, xs: Seq<Term>, ys: Seq<Term>, i: nat, fuel: nat) -> (
    Store,
    bool,
)
    decreases fuel, 2 + xs.len() - i,
{
    if i >= xs.len() || i >= ys.len() {
        (s, true)
    } else {
        let (s1, ok) = unified(s, xs[i as int], ys[i as int], fuel);
        if !ok {
            (s1, false)
        } else {
            unified_all(s1, xs, ys, i + 1, fuel)
        }
    }
}

/// What the unifier knows of a variable.
#[derive(Debug, PartialEq)]
pub enum Vif<'a> {
    Value(&'a Term),
    Index(usize),
    Free,
}

impl<'a> View for Vif<'a> {
    type V = Bound;

    open spec fn view(&self) -> Bound {
        match self {
            Vif::Value(t) => Bound::Value(**t),
            Vif::Index(i) => Bound::Index(*i),
            Vif::Free => Bound::Free,
        }
    }
}

/// A unifier of terms: it keeps what it has learnt of the variables.
#[derive(Debug, PartialEq)]
pub struct Unify<'a> {
    vars: Vec<Vif<'a>>,
    names: Vec<String>,
}

impl<'a> View for Unify<'a> {
    type V = Store;

    closed spec fn view(&self) -> Store {
        Store { names: views(self.names@), vars: views(self.vars@) }
    }
}

impl<'a> Unify<'a> {
    /// A unifier that has met no variable.
    pub fn new() -> (r: Self)
        ensures
            r@ == (Store { names: Seq::empty(), vars: Seq::empty() }),
    {
        let r = Unify { vars: Vec::new(), names: Vec::new() };
        assert(views(r.names@) =~= Seq::empty());
        assert(views(r.vars@) =~= Seq::empty());
        r
    }

    /// Unifies `a` with `b`, as far as that nests no deeper than
    /// `usize::MAX`; see `unified`.
    pub fn unify(&mut self, a: &'a Term, b: &'a Term) -> (r: bool)
        ensures
            (final(self)@, r) == unified(old(self)@, *a, *b, usize::MAX as nat),
    {
        self.unify_within(a, b, usize::MAX)
    }

    #[verifier::loop_isolation(false)]
    fn unify_within(&mut self, a: &'a Term, b: &'a Term, fuel: usize) -> (r: bool)
        ensures
            (final(self)@, r) == unified(old(self)@, *a, *b, fuel as nat),
        decreases fuel, 1nat,
    {
        match (a, b) {
            (Term::Data(f, xs), Term::Data(g, ys)) => {
                if *f != *g {
                    return false;
                }
                if fuel == 0 {
                    return false;
                }
                let mut i: usize = 0;
                while i < xs.len() && i < ys.len()
                    invariant
                        unified_all(old(self)@, xs@, ys@, 0, (fuel - 1) as nat) == unified_all(
                            self@,
                            xs@,
                            ys@,
                            i as nat,
                            (fuel - 1) as nat,
                        ),
                        fuel > 0,
                    decreases xs.len() - i,
                {
                    if !self.unify_within(&xs[i], &ys[i], fuel - 1) {
                        return false;
                    }
                    i += 1;
                }
                true
            },
            (Term::Var(x), Term::Var(y)) => {
                let i = self.to_index(x);
                let j = self.to_index(y);
                match (self.follow(i), self.follow(j)) {
                    (Some((p, None)), Some((q, None))) => {
                        if p != q {
                            self.set(p, Vif::Index(q));
                        }
                        true
                    },
                    (Some((_, Some(u))), Some((_, Some(v)))) => {
                        if fuel == 0 {
                            false
                        } else {
                            self.unify_within(u, v, fuel - 1)
                        }
                    },
                    (Some((p, None)), Some((_, Some(v)))) => {
                        self.set(p, Vif::Value(v));
                        true
                    },
                    (Some((_, Some(u))), Some((q, None))) => {
                        self.set(q, Vif::Value(u));
                        true
                    },
                    _ => false,
                }
            },
            (Term::Var(x), _) => {
                let i = self.to_index(x);
                self.unify_var(i, b, false, fuel)
            },
            (_, Term::Var(y)) => {
                let j = self.to_index(y);
                self.unify_var(j, a, true, fuel)
            },
        }
    }

    fn unify_var(&mut self, x: usize, t: &'a Term, flip: bool, fuel: usize) -> (r: bool)
        ensures
            (final(self)@, r) == unified_var(old(self)@, x, *t, flip, fuel as nat),
        decreases fuel, 0nat,
    {
        match self.follow(x) {
            None => false,
            Some((i, None)) => {
                self.set(i, Vif::Value(t));
                true
            },
            Some((_, Some(v))) => {
                if fuel == 0 {
                    false
                } else if flip {
                    self.unify_within(t, v, fuel - 1)
                } else {
                    self.unify_within(v, t, fuel - 1)
                }
            },
        }
    }

    fn set(&mut self, x: usize, b: Vif<'a>)
        requires
            x < old(self)@.vars.len(),
        ensures
            final(self)@ == bind(old(self)@, x, b@),
    {
        self.vars.set(x, b);
        assert(views(self.vars@) =~= views(old(self).vars@).update(x as int, b@));
    }

    /// The variable at the end of the chain of links that begins at `x`.
    fn follow(&self, x: usize) -> (r: Option<(usize, Option<&'a Term>)>)
        ensures
            match followed(self@, x, self@.vars.len()) {
                None => r is None,
                Some((i, None)) => r == Some((i, None::<&'a Term>)) && i < self@.vars.len(),
                Some((i, Some(t))) => r matches Some((j, Some(u))) && j == i && *u == t,
            },
    {
        let mut at = x;
        let mut left: usize = self.vars.len();
        loop
            invariant
                followed(self@, x, self@.vars.len()) == followed(self@, at, left as nat),
            decreases left,
        {
            if at >= self.vars.len() {
                return None;
            }
            match &self.vars[at] {
                Vif::Value(t) => {
                    return Some((at, Some(*t)));
                },
                Vif::Free => {
                    return Some((at, None));
                },
                Vif::Index(y) => {
                    if left == 0 {
                        return None;
                    }
                    at = *y;
                    left -= 1;
                },
            }
        }
    }

    /// The index of the variable `name`, which is registered if it is new.
    fn to_index(&mut self, input: &String) -> (r: usize)
        ensures
            (final(self)@, r) == registered(old(self)@, input@),
    {
        let ghost names = views(self.names@);
        let mut i: usize = self.names.len();
        assert(names.take(i as int) =~= names);
        while i > 0
            invariant
                i <= self.names.len(),
                names == views(self.names@),
                find_last(names, input@) == find_last(names.take(i as int), input@),
            decreases i,
        {
            i -= 1;
            assert(names.take(i + 1).drop_last() =~= names.take(i as int));
            if self.names[i] == *input {
                return i;
            }
        }
        let x = self.vars.len();
        self.names.push(input.clone());
        self.vars.push(Vif::Free);
        assert(views(self.names@) =~= views(old(self).names@).push(input@));
        assert(views(self.vars@) =~= views(old(self).vars@).push(Bound::Free));
        x
    }
}

} // verus!
