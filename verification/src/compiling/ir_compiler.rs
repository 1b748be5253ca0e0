use vstd::prelude::*;
use crate::eval::data::{Op, OpV, RuntimeData, views};
use crate::parsing::ir_parser::{Expr, Lit, Proc as PProc, ProcV as PProcV, Stmt, StmtV, Top, Type};
use crate::eval::data::{Proc, ProcV};
use super::lowering::{
    add_sigs, arity, body_slots, compiled, CompileErrorV, Ctx, dest, Dynamic, find_last, Held, held,
    known_closures, label_of, lemma_find_last, lit_op, LOpV, lower_body, lower_dynamic, lower_named,
    lower_plain, lower_proc, lower_procs, lower_set, lower_stmt, lower_unary, Named, param_slots,
    Plain, Primitive, primitive_code, primitive_op, primitive_proc, primitive_sig, primitive_sigs,
    primitive_table, PrimOp, proc_of, procs_of, resolve, resolve_all, Sig, sig_names, sig_of,
    slot_for, slot_names, slot_of, Slots, slots_for, slots_of, Unary,
};
use super::laws::{
    lemma_add_sigs, lemma_lowered_proc, lemma_primitive_well_formed, proc_ok, program_ok,
    signatures, well_formed,
};

verus! {

/// Why a program was refused. Each error names the procedure in which it was
/// found; those about a call name caller and callee.
#[derive(Debug, PartialEq)]
pub enum CompileError {
    DupFunName { name: String },
    ReuseParamName { proc: String, param: String },
    AccessMissingLocal { proc: String, local: String },
    AccessMissingProc { caller_proc: String, callee_proc: String },
    AccessMissingLabel { proc: String, label: String },
    ProcCallArityMismatch { caller_proc: String, callee_proc: String },
    TypeMismatch { proc: String, expected: Type, found: Type },
}

impl View for CompileError {
    type V = CompileErrorV;

    open spec fn view(&self) -> CompileErrorV {
        match self {
            CompileError::DupFunName { name } => CompileErrorV::DupFunName { name: name@ },
            CompileError::ReuseParamName { proc, param } => CompileErrorV::ReuseParamName {
                proc: proc@,
                param: param@,
            },
            CompileError::AccessMissingLocal { proc, local } => CompileErrorV::AccessMissingLocal {
                proc: proc@,
                local: local@,
            },
            CompileError::AccessMissingProc {
                caller_proc,
                callee_proc,
            } => CompileErrorV::AccessMissingProc {
                caller_proc: caller_proc@,
                callee_proc: callee_proc@,
            },
            CompileError::AccessMissingLabel { proc, label } => CompileErrorV::AccessMissingLabel {
                proc: proc@,
                label: label@,
            },
            CompileError::ProcCallArityMismatch {
                caller_proc,
                callee_proc,
            } => CompileErrorV::ProcCallArityMismatch {
                caller_proc: caller_proc@,
                callee_proc: callee_proc@,
            },
            CompileError::TypeMismatch { proc, expected, found } => CompileErrorV::TypeMismatch {
                proc: proc@,
                expected: *expected,
                found: *found,
            },
        }
    }
}

/// The signature of a procedure.
pub struct Signature {
    pub name: String,
    pub params: Vec<Type>,
    pub ret: Type,
}

impl View for Signature {
    type V = Sig;

    open spec fn view(&self) -> Sig {
        Sig { name: self.name@, params: self.params@, ret: self.ret }
    }
}

/// An instruction before labels are resolved.
pub enum LOp {
    Op(Op),
    Label(String),
    Branch { label: String, var: String },
    Jump(String),
}

impl View for LOp {
    type V = LOpV;

    open spec fn view(&self) -> LOpV {
        match self {
            LOp::Op(op) => LOpV::Op(op@),
            LOp::Label(l) => LOpV::Label(l@),
            LOp::Branch { label, var } => LOpV::Branch { label: label@, var: var@ },
            LOp::Jump(l) => LOpV::Jump(l@),
        }
    }
}

/// Mathematical model of what is known of the closure in a slot.
pub open spec fn known_one(k: Option<(String, usize)>) -> Option<(Seq<char>, nat)> {
    match k {
        Some((g, n)) => Some((g@, n as nat)),
        None => None,
    }
}

/// Mathematical model of what is known of the closures in the slots.
pub open spec fn known_view(known: Seq<Option<(String, usize)>>) -> Seq<
    Option<(Seq<char>, nat)>,
> {
    known.map_values(|k: Option<(String, usize)>| known_one(k))
}

/// What the lowering of a procedure's statements refers to.
pub struct Context<'a> {
    pub name: &'a String,
    pub ret: Type,
    pub slots: &'a Vec<(String, Type)>,
    /// For each slot, the closure that it is known to hold: the callee's
    /// name and the number of captured locals.
    pub known: &'a Vec<Option<(String, usize)>>,
    pub sigs: &'a Vec<Signature>,
}

impl<'a> View for Context<'a> {
    type V = Ctx;

    open spec fn view(&self) -> Ctx {
        Ctx {
            name: self.name@,
            ret: self.ret,
            slots: views(self.slots@),
            known: known_view(self.known@),
            sigs: views(self.sigs@),
        }
    }
}

/// Whether a result and its model say the same.
pub open spec fn same<T: View, E: View>(r: Result<T, E>, m: Result<T::V, E::V>) -> bool {
    match r {
        Ok(x) => m == Ok::<T::V, E::V>(x@),
        Err(e) => m == Err::<T::V, E::V>(e@),
    }
}

/// As `same`, for a result that is a list.
pub open spec fn same_list<T: View, E: View>(r: Result<Vec<T>, E>, m: Result<Seq<T::V>, E::V>) -> bool {
    match r {
        Ok(x) => m == Ok::<Seq<T::V>, E::V>(views(x@)),
        Err(e) => m == Err::<Seq<T::V>, E::V>(e@),
    }
}

fn find_slot(slots: &Vec<(String, Type)>, name: &String) -> (r: Option<usize>)
    ensures
        match r {
            Some(i) => slot_of(views(slots@), name@) == Some(i as int) && i < slots.len(),
            None => slot_of(views(slots@), name@) is None,
        },
{
    let ghost s = slot_names(views(slots@));
    let mut i: usize = slots.len();
    assert(s.take(i as int) =~= s);
    while i > 0
        invariant
            i <= slots.len(),
            s == slot_names(views(slots@)),
            find_last(s, name@) == find_last(s.take(i as int), name@),
        decreases i,
    {
        i -= 1;
        assert(s.take(i + 1).drop_last() =~= s.take(i as int));
        if slots[i].0 == *name {
            return Some(i);
        }
    }
    None
}

fn find_proc(sigs: &Vec<Signature>, name: &String) -> (r: Option<usize>)
    ensures
        match r {
            Some(i) => proc_of(views(sigs@), name@) == Some(i as int) && i < sigs.len(),
            None => proc_of(views(sigs@), name@) is None,
        },
{
    let ghost s = sig_names(views(sigs@));
    let mut i: usize = sigs.len();
    assert(s.take(i as int) =~= s);
    while i > 0
        invariant
            i <= sigs.len(),
            s == sig_names(views(sigs@)),
            find_last(s, name@) == find_last(s.take(i as int), name@),
        decreases i,
    {
        i -= 1;
        assert(s.take(i + 1).drop_last() =~= s.take(i as int));
        if sigs[i].name == *name {
            return Some(i);
        }
    }
    None
}

fn find_label(ops: &Vec<LOp>, name: &String) -> (r: Option<usize>)
    ensures
        match r {
            Some(i) => label_of(views(ops@), name@) == Some(i as int) && i < ops.len(),
            None => label_of(views(ops@), name@) is None,
        },
{
    let ghost s = views(ops@);
    let mut i: usize = ops.len();
    assert(s.take(i as int) =~= s);
    while i > 0
        invariant
            i <= ops.len(),
            s == views(ops@),
            find_last(s, LOpV::Label(name@)) == find_last(s.take(i as int), LOpV::Label(name@)),
        decreases i,
    {
        i -= 1;
        assert(s.take(i + 1).drop_last() =~= s.take(i as int));
        let found = match &ops[i] {
            LOp::Label(l) => *l == *name,
            _ => false,
        };
        if found {
            return Some(i);
        }
    }
    None
}

/// The slot of `local`, which must exist and, if a type is expected, have
/// that declared type.
fn access_slot(c: &Context, local: &String, expected: Option<Type>) -> (r: Result<
    usize,
    CompileError,
>)
    ensures
        match r {
            Ok(i) => slot_for(c@, local@, expected) == Ok::<usize, CompileErrorV>(i) && i
                < c.slots.len(),
            Err(e) => slot_for(c@, local@, expected) == Err::<usize, CompileErrorV>(e@),
        },
{
    match find_slot(c.slots, local) {
        None => Err(
            CompileError::AccessMissingLocal { proc: c.name.clone(), local: local.clone() },
        ),
        Some(i) => match expected {
            Some(t) => {
                if c.slots[i].1 == t {
                    Ok(i)
                } else {
                    Err(
                        CompileError::TypeMismatch {
                            proc: c.name.clone(),
                            expected: t,
                            found: c.slots[i].1,
                        },
                    )
                }
            },
            None => Ok(i),
        },
    }
}

/// The slot of the local `local` of procedure `proc_name`, whose slots are
/// `l_map`: the local must have a slot, declared with `expected_type`.
pub fn access(
    l_map: &Vec<(String, Type)>,
    local: &String,
    proc_name: &String,
    expected_type: &Type,
) -> (r: Result<usize, CompileError>)
    ensures
        match slot_of(views(l_map@), local@) {
            None => r matches Err(e) && e@ == (CompileErrorV::AccessMissingLocal {
                proc: proc_name@,
                local: local@,
            }),
            Some(i) => if views(l_map@)[i].1 == *expected_type {
                r matches Ok(s) && s == i
            } else {
                r matches Err(e) && e@ == (CompileErrorV::TypeMismatch {
                    proc: proc_name@,
                    expected: *expected_type,
                    found: views(l_map@)[i].1,
                })
            },
        },
{
    let sigs: Vec<Signature> = Vec::new();
    let known: Vec<Option<(String, usize)>> = Vec::new();
    let c = Context {
        name: proc_name,
        ret: *expected_type,
        slots: l_map,
        known: &known,
        sigs: &sigs,
    };
    proof {
        lemma_find_last(slot_names(views(l_map@)), local@);
    }
    access_slot(&c, local, Some(*expected_type))
}

/// A failure on a prefix of the locals is the failure on all of them.
proof fn lemma_slots_for_fails(c: Ctx, locals: Seq<Seq<char>>, types: Option<Seq<Type>>, n: int)
    requires
        0 <= n <= locals.len(),
        slots_for(c, locals.take(n), types) is Err,
    ensures
        slots_for(c, locals, types) == slots_for(c, locals.take(n), types),
    decreases locals.len() - n,
{
    if n < locals.len() {
        assert(locals.take(n + 1).drop_last() =~= locals.take(n));
        lemma_slots_for_fails(c, locals, types, n + 1);
    } else {
        assert(locals.take(n) =~= locals);
    }
}

fn access_all(c: &Context, locals: &Vec<String>, types: Option<&Vec<Type>>) -> (r: Result<
    Vec<usize>,
    CompileError,
>)
    requires
        types matches Some(ts) ==> locals.len() <= ts.len(),
    ensures
        match r {
            Ok(v) => slots_for(c@, views(locals@), type_list(types)) == Ok::<
                Seq<usize>,
                CompileErrorV,
            >(v@) && forall|j: int| 0 <= j < v.len() ==> v[j] < c.slots.len(),
            Err(e) => slots_for(c@, views(locals@), type_list(types)) == Err::<
                Seq<usize>,
                CompileErrorV,
            >(e@),
        },
{
    let ghost names = views(locals@);
    let mut out: Vec<usize> = Vec::new();
    let mut i: usize = 0;
    assert(names.take(0) =~= Seq::empty());
    while i < locals.len()
        invariant
            i <= locals.len(),
            names == views(locals@),
            types matches Some(ts) ==> locals.len() <= ts.len(),
            slots_for(c@, names.take(i as int), type_list(types)) == Ok::<
                Seq<usize>,
                CompileErrorV,
            >(out@),
            forall|j: int| 0 <= j < out.len() ==> out[j] < c.slots.len(),
        decreases locals.len() - i,
    {
        let expected = match types {
            Some(ts) => Some(ts[i]),
            None => None,
        };
        assert(names.take(i + 1).drop_last() =~= names.take(i as int));
        match access_slot(c, &locals[i], expected) {
            Err(e) => {
                proof {
                    lemma_slots_for_fails(c@, names, type_list(types), i + 1);
                }
                return Err(e);
            },
            Ok(s) => {
                out.push(s);
            },
        }
        i += 1;
    }
    assert(names.take(locals.len() as int) =~= names);
    Ok(out)
}

/// Mathematical model of an optional list of types.
pub open spec fn type_list(types: Option<&Vec<Type>>) -> Option<Seq<Type>> {
    match types {
        Some(ts) => Some(ts@),
        None => None,
    }
}

fn dest_slot(c: &Context, var: &String, ttype: Type, rt: Option<Type>) -> (r: Result<
    usize,
    CompileError,
>)
    ensures
        match r {
            Ok(i) => dest(c@, var@, ttype, rt) == Ok::<usize, CompileErrorV>(i) && i
                < c.slots.len(),
            Err(e) => dest(c@, var@, ttype, rt) == Err::<usize, CompileErrorV>(e@),
        },
{
    match rt {
        Some(t) => {
            if t != ttype {
                return Err(
                    CompileError::TypeMismatch { proc: c.name.clone(), expected: t, found: ttype },
                );
            }
        },
        None => {},
    }
    access_slot(c, var, Some(ttype))
}

/// The two instructions `op; SetLocalReturn(d)`.
fn pair(op: Op, d: usize) -> (r: Vec<LOp>)
    ensures
        views(r@) == seq![LOpV::Op(op@), LOpV::Op(crate::eval::data::OpV::SetLocalReturn(d))],
{
    let mut r: Vec<LOp> = Vec::new();
    r.push(LOp::Op(op));
    r.push(LOp::Op(Op::SetLocalReturn(d)));
    assert(views(r@) =~= seq![
        LOpV::Op(op@),
        LOpV::Op(crate::eval::data::OpV::SetLocalReturn(d)),
    ]);
    r
}

/// The single instruction `op`.
fn single(op: LOp) -> (r: Vec<LOp>)
    ensures
        views(r@) == seq![op@],
{
    let mut r: Vec<LOp> = Vec::new();
    r.push(op);
    assert(views(r@) =~= seq![op@]);
    r
}

fn lower_named_expr(
    c: &Context,
    var: &String,
    ttype: Type,
    name: &String,
    params: &Vec<String>,
    k: Named,
) -> (r: Result<Vec<LOp>, CompileError>)
    ensures
        same_list(r, lower_named(c@, var@, ttype, name@, views(params@), k)),
{
    let p = match find_proc(c.sigs, name) {
        None => {
            return Err(
                CompileError::AccessMissingProc {
                    caller_proc: c.name.clone(),
                    callee_proc: name.clone(),
                },
            );
        },
        Some(p) => p,
    };
    let callee = &c.sigs[p];
    let rt = match k {
        Named::Call => callee.ret,
        Named::Coroutine => Type::Coroutine,
        Named::Closure => Type::Closure,
    };
    let d = dest_slot(c, var, ttype, Some(rt))?;
    let partial = match k {
        Named::Closure => true,
        _ => false,
    };
    if params.len() > callee.params.len() || (!partial && params.len() != callee.params.len()) {
        return Err(
            CompileError::ProcCallArityMismatch {
                caller_proc: c.name.clone(),
                callee_proc: name.clone(),
            },
        );
    }
    let args = access_all(c, params, Some(&callee.params))?;
    let op = match k {
        Named::Call => Op::Call(p, args),
        Named::Coroutine => Op::Coroutine { proc_id: p, params: args },
        Named::Closure => Op::Closure { proc_id: p, env: args },
    };
    Ok(pair(op, d))
}

fn lower_dynamic_expr(
    c: &Context,
    var: &String,
    ttype: Type,
    name: &String,
    params: &Vec<String>,
    k: Dynamic,
) -> (r: Result<Vec<LOp>, CompileError>)
    ensures
        same_list(r, lower_dynamic(c@, var@, ttype, name@, views(params@), k)),
{
    let want = match k {
        Dynamic::DynCall => Type::Closure,
        Dynamic::DynCoroutine => Type::Closure,
        Dynamic::Cons => Type::Symbol,
    };
    let rt = match k {
        Dynamic::DynCall => None,
        Dynamic::DynCoroutine => Some(Type::Coroutine),
        Dynamic::Cons => Some(Type::Ref),
    };
    let l = access_slot(c, name, Some(want))?;
    let callee = if k != Dynamic::Cons && l < c.known.len() {
        match &c.known[l] {
            Some((g, n)) => Some((g, *n)),
            None => None,
        }
    } else {
        None
    };
    let (d, args) = match callee {
        None => {
            let d = dest_slot(c, var, ttype, rt)?;
            let args = access_all(c, params, None)?;
            (d, args)
        },
        Some((g, n)) => {
            let p = match find_proc(c.sigs, g) {
                None => {
                    return Err(
                        CompileError::AccessMissingProc {
                            caller_proc: c.name.clone(),
                            callee_proc: g.clone(),
                        },
                    );
                },
                Some(p) => p,
            };
            let sig = &c.sigs[p];
            let rt = if k == Dynamic::DynCall {
                Some(sig.ret)
            } else {
                rt
            };
            let d = dest_slot(c, var, ttype, rt)?;
            if n > sig.params.len() || params.len() != sig.params.len() - n {
                return Err(
                    CompileError::ProcCallArityMismatch {
                        caller_proc: c.name.clone(),
                        callee_proc: g.clone(),
                    },
                );
            }
            let rest = types_from(&sig.params, n);
            let args = access_all(c, params, Some(&rest))?;
            (d, args)
        },
    };
    let op = match k {
        Dynamic::DynCall => Op::DynCall(l, args),
        Dynamic::DynCoroutine => Op::DynCoroutine { local: l, params: args },
        Dynamic::Cons => Op::Cons { sym_var: l, params: args },
    };
    Ok(pair(op, d))
}

/// The types from index `n` on.
fn types_from(types: &Vec<Type>, n: usize) -> (r: Vec<Type>)
    requires
        n <= types.len(),
    ensures
        r@ == types@.skip(n as int),
{
    let mut r: Vec<Type> = Vec::new();
    let mut i: usize = n;
    while i < types.len()
        invariant
            n <= i <= types.len(),
            r@ == types@.subrange(n as int, i as int),
        decreases types.len() - i,
    {
        r.push(types[i]);
        assert(r@ =~= types@.subrange(n as int, i + 1));
        i += 1;
    }
    assert(r@ =~= types@.skip(n as int));
    r
}

/// What the statements of a procedure tell of the closure that a variable
/// holds; see `Held`.
pub enum Holds {
    Unset,
    Known(String, usize),
    Unknown,
}

impl View for Holds {
    type V = Held;

    open spec fn view(&self) -> Held {
        match self {
            Holds::Unset => Held::Unset,
            Holds::Known(g, n) => Held::Known(g@, *n as nat),
            Holds::Unknown => Held::Unknown,
        }
    }
}

/// What `body` tells of the closure that `var` holds.
fn holds(body: &Vec<Stmt>, var: &String) -> (r: Holds)
    ensures
        r@ == held(views(body@), var@),
{
    let ghost stmts = views(body@);
    let mut h = Holds::Unset;
    let mut i: usize = 0;
    assert(stmts.take(0) =~= Seq::empty());
    while i < body.len()
        invariant
            i <= body.len(),
            stmts == views(body@),
            h@ == held(stmts.take(i as int), var@),
        decreases body.len() - i,
    {
        assert(stmts.take(i + 1).drop_last() =~= stmts.take(i as int));
        match &body[i] {
            Stmt::SetLocal { var: v, ttype, val } => {
                if *v == *var {
                    h = match val {
                        Expr::Closure { name, params } => match h {
                            Holds::Unset => Holds::Known(name.clone(), params.len()),
                            Holds::Known(g, n) => {
                                if g == *name && n == params.len() {
                                    Holds::Known(g, n)
                                } else {
                                    Holds::Unknown
                                }
                            },
                            Holds::Unknown => Holds::Unknown,
                        },
                        _ => Holds::Unknown,
                    };
                }
            },
            _ => {},
        }
        i += 1;
    }
    assert(stmts.take(body.len() as int) =~= stmts);
    h
}

/// For each slot, the closure that it is known to hold.
fn known_table(params: usize, body: &Vec<Stmt>, slots: &Vec<(String, Type)>) -> (r: Vec<
    Option<(String, usize)>,
>)
    ensures
        known_view(r@) == known_closures(params as nat, views(body@), views(slots@)),
{
    let mut r: Vec<Option<(String, usize)>> = Vec::new();
    let mut i: usize = 0;
    while i < slots.len()
        invariant
            i <= slots.len(),
            r.len() == i,
            forall|j: int|
                0 <= j < i ==> known_one(#[trigger] r[j]) == known_closures(
                    params as nat,
                    views(body@),
                    views(slots@),
                )[j],
        decreases slots.len() - i,
    {
        let k = if i >= params {
            match holds(body, &slots[i].0) {
                Holds::Known(g, n) => Some((g, n)),
                _ => None,
            }
        } else {
            None
        };
        r.push(k);
        i += 1;
    }
    assert(known_view(r@) =~= known_closures(params as nat, views(body@), views(slots@)));
    r
}

fn lower_unary_expr(c: &Context, var: &String, ttype: Type, operand: &String, k: Unary) -> (r:
    Result<Vec<LOp>, CompileError>)
    ensures
        same_list(r, lower_unary(c@, var@, ttype, operand@, k)),
{
    let want = match k {
        Unary::Resume => Some(Type::Coroutine),
        Unary::Length => Some(Type::Ref),
        Unary::Type => Some(Type::Ref),
        Unary::Slot(_) => Some(Type::Ref),
        Unary::IsNil => None,
        Unary::ToString => None,
        Unary::Concat(_) => Some(Type::String),
    };
    let rt = match k {
        Unary::Resume => None,
        Unary::Length => Some(Type::Int),
        Unary::Type => Some(Type::Symbol),
        Unary::Slot(_) => None,
        Unary::IsNil => Some(Type::Bool),
        Unary::ToString => Some(Type::String),
        Unary::Concat(_) => Some(Type::String),
    };
    let l = access_slot(c, operand, want)?;
    let d = dest_slot(c, var, ttype, rt)?;
    let op = match k {
        Unary::Resume => Op::Resume(l),
        Unary::Length => Op::GetLength(l),
        Unary::Type => Op::GetType(l),
        Unary::Slot(index) => Op::GetSlot { local: l, index },
        Unary::IsNil => Op::IsNil(l),
        Unary::ToString => Op::ToString(l),
        Unary::Concat(first) => Op::Concat(first, l),
    };
    Ok(pair(op, d))
}

fn lower_lit(d: usize, l: &Lit) -> (r: Op)
    ensures
        r@ == lit_op(d, l@),
{
    match l {
        Lit::Int(n) => Op::SetLocalData(d, RuntimeData::Int(*n)),
        Lit::Float(t) => Op::SetLocalFloat(d, t.clone()),
        Lit::Bool(b) => Op::SetLocalData(d, RuntimeData::Bool(*b)),
        Lit::ConsType(t) => Op::SetLocalData(d, RuntimeData::Symbol(t.clone())),
        Lit::String(t) => Op::SetLocalData(d, RuntimeData::String(t.clone())),
    }
}

fn lower_set_stmt(c: &Context, var: &String, ttype: Type, val: &Expr) -> (r: Result<
    Vec<LOp>,
    CompileError,
>)
    ensures
        same_list(r, lower_set(c@, var@, ttype, val@)),
{
    match val {
        Expr::Lit(l) => {
            let lt = match l {
                Lit::Int(_) => Type::Int,
                Lit::Float(_) => Type::Float,
                Lit::Bool(_) => Type::Bool,
                Lit::ConsType(_) => Type::Symbol,
                Lit::String(_) => Type::String,
            };
            let d = dest_slot(c, var, ttype, Some(lt))?;
            Ok(single(LOp::Op(lower_lit(d, l))))
        },
        Expr::Var(src) => {
            let s = access_slot(c, src, Some(ttype))?;
            let d = access_slot(c, var, Some(ttype))?;
            Ok(single(LOp::Op(Op::SetLocalVar { src: s, dest: d })))
        },
        Expr::Call { name, params } => lower_named_expr(c, var, ttype, name, params, Named::Call),
        Expr::Coroutine { name, params } => lower_named_expr(
            c,
            var,
            ttype,
            name,
            params,
            Named::Coroutine,
        ),
        Expr::Closure { name, params } => lower_named_expr(
            c,
            var,
            ttype,
            name,
            params,
            Named::Closure,
        ),
        Expr::DynCall { name, params } => lower_dynamic_expr(
            c,
            var,
            ttype,
            name,
            params,
            Dynamic::DynCall,
        ),
        Expr::DynCoroutine { name, params } => lower_dynamic_expr(
            c,
            var,
            ttype,
            name,
            params,
            Dynamic::DynCoroutine,
        ),
        Expr::Cons { name, params } => lower_dynamic_expr(
            c,
            var,
            ttype,
            name,
            params,
            Dynamic::Cons,
        ),
        Expr::Resume(v) => lower_unary_expr(c, var, ttype, v, Unary::Resume),
        Expr::Length(v) => lower_unary_expr(c, var, ttype, v, Unary::Length),
        Expr::Type(v) => lower_unary_expr(c, var, ttype, v, Unary::Type),
        Expr::Slot { var: v, index } => lower_unary_expr(c, var, ttype, v, Unary::Slot(*index)),
        Expr::IsNil(v) => lower_unary_expr(c, var, ttype, v, Unary::IsNil),
        Expr::ToString(v) => lower_unary_expr(c, var, ttype, v, Unary::ToString),
        Expr::Concat(a, b) => {
            let la = access_slot(c, a, Some(Type::String))?;
            lower_unary_expr(c, var, ttype, b, Unary::Concat(la))
        },
    }
}

fn lower_plain_stmt(c: &Context, local: &String, k: Plain) -> (r: Result<Vec<LOp>, CompileError>)
    ensures
        same_list(r, lower_plain(c@, local@, k)),
{
    let want = match k {
        Plain::Return => c.ret,
        Plain::Yield => c.ret,
        Plain::SlotRemove(_) => Type::Ref,
        Plain::Delete => Type::Ref,
    };
    let l = access_slot(c, local, Some(want))?;
    let op = match k {
        Plain::Return => Op::ReturnLocal(l),
        Plain::Yield => Op::Yield(l),
        Plain::SlotRemove(index) => Op::RemoveSlot { local: l, index },
        Plain::Delete => Op::Delete(l),
    };
    Ok(single(LOp::Op(op)))
}

/// The code for one statement, with labels still by name.
pub fn compile_stmt(c: &Context, stmt: &Stmt) -> (r: Result<Vec<LOp>, CompileError>)
    ensures
        same_list(r, lower_stmt(c@, stmt@)),
{
    match stmt {
        Stmt::SetLocal { var, ttype, val } => lower_set_stmt(c, var, *ttype, val),
        Stmt::Jump(l) => Ok(single(LOp::Jump(l.clone()))),
        Stmt::BranchTrue { label, var } => Ok(
            single(LOp::Branch { label: label.clone(), var: var.clone() }),
        ),
        Stmt::Label(l) => Ok(single(LOp::Label(l.clone()))),
        Stmt::Return(v) => lower_plain_stmt(c, v, Plain::Return),
        Stmt::Yield(v) => lower_plain_stmt(c, v, Plain::Yield),
        Stmt::Break => Ok(single(LOp::Op(Op::Break))),
        Stmt::SlotInsert { var, input, index } => {
            let d = access_slot(c, var, Some(Type::Ref))?;
            let s = access_slot(c, input, None)?;
            Ok(single(LOp::Op(Op::InsertSlot { dest: d, src: s, index: *index })))
        },
        Stmt::SlotRemove { var, index } => lower_plain_stmt(c, var, Plain::SlotRemove(*index)),
        Stmt::Delete(v) => lower_plain_stmt(c, v, Plain::Delete),
    }
}

/// A failure on a prefix of the statements is the failure on all of them.
proof fn lemma_lower_body_fails(c: Ctx, body: Seq<crate::parsing::ir_parser::StmtV>, n: int)
    requires
        0 <= n <= body.len(),
        lower_body(c, body.take(n)) is Err,
    ensures
        lower_body(c, body) == lower_body(c, body.take(n)),
    decreases body.len() - n,
{
    if n < body.len() {
        assert(body.take(n + 1).drop_last() =~= body.take(n));
        lemma_lower_body_fails(c, body, n + 1);
    } else {
        assert(body.take(n) =~= body);
    }
}

/// A failure on the first instructions is the failure on all of them.
proof fn lemma_resolve_all_fails(c: Ctx, ops: Seq<LOpV>, n: nat, m: nat)
    requires
        n <= m,
        resolve_all(c, ops, n) is Err,
    ensures
        resolve_all(c, ops, m) == resolve_all(c, ops, n),
    decreases m,
{
    if n < m {
        lemma_resolve_all_fails(c, ops, n, (m - 1) as nat);
    }
}

fn lower_statements(c: &Context, body: &Vec<Stmt>) -> (r: Result<Vec<LOp>, CompileError>)
    ensures
        same_list(r, lower_body(c@, views(body@))),
{
    let ghost stmts = views(body@);
    let mut out: Vec<LOp> = Vec::new();
    let mut i: usize = 0;
    assert(stmts.take(0) =~= Seq::empty());
    assert(views(out@) =~= Seq::empty());
    while i < body.len()
        invariant
            i <= body.len(),
            stmts == views(body@),
            lower_body(c@, stmts.take(i as int)) == Ok::<Seq<LOpV>, CompileErrorV>(views(out@)),
        decreases body.len() - i,
    {
        assert(stmts.take(i + 1).drop_last() =~= stmts.take(i as int));
        match compile_stmt(c, &body[i]) {
            Err(e) => {
                proof {
                    lemma_lower_body_fails(c@, stmts, i + 1);
                }
                return Err(e);
            },
            Ok(more) => {
                let mut more = more;
                let ghost a = out@;
                let ghost b = more@;
                out.append(&mut more);
                assert(views(out@) =~= views(a) + views(b));
            },
        }
        i += 1;
    }
    assert(stmts.take(body.len() as int) =~= stmts);
    Ok(out)
}

fn resolve_op(c: &Context, ops: &Vec<LOp>, i: usize) -> (r: Result<Op, CompileError>)
    requires
        i < ops.len(),
    ensures
        same(r, resolve(c@, views(ops@), ops[i as int]@)),
{
    match &ops[i] {
        LOp::Op(x) => Ok(clone_op(x)),
        LOp::Label(_) => Ok(Op::Nop),
        LOp::Branch { label, var } => {
            match find_label(ops, label) {
                None => Err(
                    CompileError::AccessMissingLabel {
                        proc: c.name.clone(),
                        label: label.clone(),
                    },
                ),
                Some(t) => {
                    let l = access_slot(c, var, Some(Type::Bool))?;
                    Ok(Op::BranchTrue { label: t, local: l })
                },
            }
        },
        LOp::Jump(label) => {
            match find_label(ops, label) {
                None => Err(
                    CompileError::AccessMissingLabel {
                        proc: c.name.clone(),
                        label: label.clone(),
                    },
                ),
                Some(t) => Ok(Op::Jump(t)),
            }
        },
    }
}

fn resolve_labels(c: &Context, ops: &Vec<LOp>) -> (r: Result<Vec<Op>, CompileError>)
    ensures
        same_list(r, resolve_all(c@, views(ops@), ops.len() as nat)),
{
    let mut out: Vec<Op> = Vec::new();
    let mut i: usize = 0;
    assert(views(out@) =~= Seq::empty());
    while i < ops.len()
        invariant
            i <= ops.len(),
            resolve_all(c@, views(ops@), i as nat) == Ok::<Seq<OpV>, CompileErrorV>(views(out@)),
        decreases ops.len() - i,
    {
        match resolve_op(c, ops, i) {
            Err(e) => {
                proof {
                    lemma_resolve_all_fails(c@, views(ops@), (i + 1) as nat, ops.len() as nat);
                }
                return Err(e);
            },
            Ok(op) => {
                let ghost before = out@;
                out.push(op);
                assert(views(out@) =~= views(before).push(op@));
            },
        }
        i += 1;
    }
    Ok(out)
}

/// A copy of an instruction.
pub fn clone_op(op: &Op) -> (r: Op)
    ensures
        r@ == op@,
{
    match op {
        Op::Call(p, a) => Op::Call(*p, a.clone()),
        Op::DynCall(l, a) => Op::DynCall(*l, a.clone()),
        Op::Resume(l) => Op::Resume(*l),
        Op::ReturnLocal(l) => Op::ReturnLocal(*l),
        Op::Jump(i) => Op::Jump(*i),
        Op::BranchTrue { label, local } => Op::BranchTrue { label: *label, local: *local },
        Op::SetLocalData(l, v) => Op::SetLocalData(*l, v.clone()),
        Op::SetLocalFloat(l, t) => Op::SetLocalFloat(*l, t.clone()),
        Op::SetLocalReturn(l) => Op::SetLocalReturn(*l),
        Op::SetLocalVar { src, dest } => Op::SetLocalVar { src: *src, dest: *dest },
        Op::GetLength(l) => Op::GetLength(*l),
        Op::GetType(l) => Op::GetType(*l),
        Op::GetSlot { local, index } => Op::GetSlot { local: *local, index: *index },
        Op::IsNil(l) => Op::IsNil(*l),
        Op::Closure { proc_id, env } => Op::Closure { proc_id: *proc_id, env: env.clone() },
        Op::Cons { sym_var, params } => Op::Cons { sym_var: *sym_var, params: params.clone() },
        Op::Coroutine { proc_id, params } => Op::Coroutine {
            proc_id: *proc_id,
            params: params.clone(),
        },
        Op::DynCoroutine { local, params } => Op::DynCoroutine {
            local: *local,
            params: params.clone(),
        },
        Op::Yield(l) => Op::Yield(*l),
        Op::Break => Op::Break,
        Op::Delete(l) => Op::Delete(*l),
        Op::InsertSlot { dest, src, index } => Op::InsertSlot {
            dest: *dest,
            src: *src,
            index: *index,
        },
        Op::RemoveSlot { local, index } => Op::RemoveSlot { local: *local, index: *index },
        Op::Nop => Op::Nop,
        Op::Add(a, b) => Op::Add(*a, *b),
        Op::Sub(a, b) => Op::Sub(*a, *b),
        Op::Mul(a, b) => Op::Mul(*a, *b),
        Op::Div(a, b) => Op::Div(*a, *b),
        Op::Mod(a, b) => Op::Mod(*a, *b),
        Op::Neg(a) => Op::Neg(*a),
        Op::Eq(a, b) => Op::Eq(*a, *b),
        Op::Gt(a, b) => Op::Gt(*a, *b),
        Op::Lt(a, b) => Op::Lt(*a, *b),
        Op::Not(a) => Op::Not(*a),
        Op::And(a, b) => Op::And(*a, *b),
        Op::Or(a, b) => Op::Or(*a, *b),
        Op::Xor(a, b) => Op::Xor(*a, *b),
        Op::ToString(a) => Op::ToString(*a),
        Op::Concat(a, b) => Op::Concat(*a, *b),
    }
}

/// A failure on a prefix of the parameters is the failure on all of them.
proof fn lemma_param_slots_fails(proc: Seq<char>, params: Slots, n: int)
    requires
        0 <= n <= params.len(),
        param_slots(proc, params.take(n)) is Err,
    ensures
        param_slots(proc, params) == param_slots(proc, params.take(n)),
    decreases params.len() - n,
{
    if n < params.len() {
        assert(params.take(n + 1).drop_last() =~= params.take(n));
        lemma_param_slots_fails(proc, params, n + 1);
    } else {
        assert(params.take(n) =~= params);
    }
}

/// The slots of a procedure: its parameters, then the variables it sets.
fn layout(p: &PProc) -> (r: Result<Vec<(String, Type)>, CompileError>)
    ensures
        same_list(r, slots_of(p@)),
{
    let ghost params = views(p.params@);
    let ghost body = views(p.body@);
    let mut slots: Vec<(String, Type)> = Vec::new();
    let mut i: usize = 0;
    assert(params.take(0) =~= Seq::empty());
    assert(views(slots@) =~= Seq::empty());
    while i < p.params.len()
        invariant
            i <= p.params.len(),
            params == views(p.params@),
            param_slots(p.name@, params.take(i as int)) == Ok::<Slots, CompileErrorV>(
                views(slots@),
            ),
        decreases p.params.len() - i,
    {
        assert(params.take(i + 1).drop_last() =~= params.take(i as int));
        let name = &p.params[i].0;
        match find_slot(&slots, name) {
            Some(_) => {
                proof {
                    lemma_param_slots_fails(p.name@, params, i + 1);
                }
                return Err(
                    CompileError::ReuseParamName { proc: p.name.clone(), param: name.clone() },
                );
            },
            None => {
                let ghost before = slots@;
                let e = (name.clone(), p.params[i].1);
                slots.push(e);
                assert(views(slots@) =~= views(before).push(e@));
            },
        }
        i += 1;
    }
    assert(params.take(p.params.len() as int) =~= params);
    let ghost start = views(slots@);
    let mut j: usize = 0;
    assert(body.take(0) =~= Seq::empty());
    while j < p.body.len()
        invariant
            j <= p.body.len(),
            body == views(p.body@),
            views(slots@) == body_slots(start, body.take(j as int)),
        decreases p.body.len() - j,
    {
        assert(body.take(j + 1).drop_last() =~= body.take(j as int));
        match &p.body[j] {
            Stmt::SetLocal { var, ttype, val } => {
                match find_slot(&slots, var) {
                    Some(_) => {},
                    None => {
                        let ghost before = slots@;
                        let e = (var.clone(), *ttype);
                        slots.push(e);
                        assert(views(slots@) =~= views(before).push(e@));
                    },
                }
            },
            _ => {},
        }
        j += 1;
    }
    assert(body.take(p.body.len() as int) =~= body);
    Ok(slots)
}

/// The signature of a parsed procedure.
fn signature(p: &PProc) -> (r: Signature)
    ensures
        r@ == sig_of(p@),
{
    let mut params: Vec<Type> = Vec::new();
    let mut i: usize = 0;
    while i < p.params.len()
        invariant
            i <= p.params.len(),
            params.len() == i,
            forall|j: int| 0 <= j < i ==> params[j] == p.params[j].1,
        decreases p.params.len() - i,
    {
        params.push(p.params[i].1);
        i += 1;
    }
    assert(params@ =~= views(p.params@).map_values(|e: (Seq<char>, Type)| e.1));
    Signature { name: p.name.clone(), params, ret: p.return_type }
}

/// The compiled form of one procedure, given the signatures of all.
pub fn compile_proc(proc: &PProc, sigs: &Vec<Signature>) -> (r: Result<Proc, CompileError>)
    ensures
        same(r, lower_proc(views(sigs@), proc@)),
        r matches Ok(q) ==> proc_ok(views(sigs@), proc@, q@),
{
    reveal(lower_proc);
    let slots = layout(proc)?;
    let known = known_table(proc.params.len(), &proc.body, &slots);
    let c = Context {
        name: &proc.name,
        ret: proc.return_type,
        slots: &slots,
        known: &known,
        sigs,
    };
    let ops = lower_statements(&c, &proc.body)?;
    let instrs = resolve_labels(&c, &ops)?;
    proof {
        vstd::std_specs::vec::axiom_spec_len(sigs);
        lemma_lowered_proc(views(sigs@), proc@);
    }
    Ok(Proc { name: proc.name.clone(), instrs, stack_size: slots.len() })
}

/// The primitive procedures, in the order of their indices.
pub fn primitives() -> (r: Vec<Primitive>)
    ensures
        r@ == primitive_table(),
{
    vec![
        Primitive { name: "add_int", operand: Type::Int, ret: Type::Int, op: PrimOp::Add },
        Primitive { name: "add_float", operand: Type::Float, ret: Type::Float, op: PrimOp::Add },
        Primitive { name: "sub_int", operand: Type::Int, ret: Type::Int, op: PrimOp::Sub },
        Primitive { name: "sub_float", operand: Type::Float, ret: Type::Float, op: PrimOp::Sub },
        Primitive { name: "mul_int", operand: Type::Int, ret: Type::Int, op: PrimOp::Mul },
        Primitive { name: "mul_float", operand: Type::Float, ret: Type::Float, op: PrimOp::Mul },
        Primitive { name: "div_int", operand: Type::Int, ret: Type::Int, op: PrimOp::Div },
        Primitive { name: "div_float", operand: Type::Float, ret: Type::Float, op: PrimOp::Div },
        Primitive { name: "mod_int", operand: Type::Int, ret: Type::Int, op: PrimOp::Mod },
        Primitive { name: "mod_float", operand: Type::Float, ret: Type::Float, op: PrimOp::Mod },
        Primitive { name: "neg_int", operand: Type::Int, ret: Type::Int, op: PrimOp::Neg },
        Primitive { name: "neg_float", operand: Type::Float, ret: Type::Float, op: PrimOp::Neg },
        Primitive { name: "and", operand: Type::Bool, ret: Type::Bool, op: PrimOp::And },
        Primitive { name: "or", operand: Type::Bool, ret: Type::Bool, op: PrimOp::Or },
        Primitive { name: "xor", operand: Type::Bool, ret: Type::Bool, op: PrimOp::Xor },
        Primitive { name: "not", operand: Type::Bool, ret: Type::Bool, op: PrimOp::Not },
        Primitive { name: "gt_int", operand: Type::Int, ret: Type::Bool, op: PrimOp::Gt },
        Primitive { name: "gt_float", operand: Type::Float, ret: Type::Bool, op: PrimOp::Gt },
        Primitive { name: "lt_int", operand: Type::Int, ret: Type::Bool, op: PrimOp::Lt },
        Primitive { name: "lt_float", operand: Type::Float, ret: Type::Bool, op: PrimOp::Lt },
        Primitive { name: "eq_int", operand: Type::Int, ret: Type::Bool, op: PrimOp::Eq },
        Primitive { name: "eq_float", operand: Type::Float, ret: Type::Bool, op: PrimOp::Eq },
        Primitive { name: "eq_bool", operand: Type::Bool, ret: Type::Bool, op: PrimOp::Eq },
        Primitive { name: "eq_symbol", operand: Type::Symbol, ret: Type::Bool, op: PrimOp::Eq },
        Primitive { name: "eq_ref", operand: Type::Ref, ret: Type::Bool, op: PrimOp::Eq },
    ]
}

fn arity_of(op: PrimOp) -> (r: usize)
    ensures
        r == arity(op),
{
    match op {
        PrimOp::Neg => 1,
        PrimOp::Not => 1,
        _ => 2,
    }
}

fn primitive_signature(p: &Primitive) -> (r: Signature)
    ensures
        r@ == primitive_sig(*p),
{
    let mut params: Vec<Type> = Vec::new();
    params.push(p.operand);
    if arity_of(p.op) == 2 {
        params.push(p.operand);
    }
    assert(params@ =~= Seq::new(arity(p.op) as nat, |i: int| p.operand));
    Signature { name: String::from_str(p.name), params, ret: p.ret }
}

fn primitive_body(p: &Primitive) -> (r: Proc)
    ensures
        r@ == primitive_proc(*p),
{
    let k = arity_of(p.op);
    let op = match p.op {
        PrimOp::Add => Op::Add(0, 1),
        PrimOp::Sub => Op::Sub(0, 1),
        PrimOp::Mul => Op::Mul(0, 1),
        PrimOp::Div => Op::Div(0, 1),
        PrimOp::Mod => Op::Mod(0, 1),
        PrimOp::Neg => Op::Neg(0),
        PrimOp::And => Op::And(0, 1),
        PrimOp::Or => Op::Or(0, 1),
        PrimOp::Xor => Op::Xor(0, 1),
        PrimOp::Not => Op::Not(0),
        PrimOp::Gt => Op::Gt(0, 1),
        PrimOp::Lt => Op::Lt(0, 1),
        PrimOp::Eq => Op::Eq(0, 1),
    };
    let mut instrs: Vec<Op> = Vec::new();
    instrs.push(op);
    instrs.push(Op::SetLocalReturn(k));
    instrs.push(Op::ReturnLocal(k));
    assert(views(instrs@) =~= seq![
        primitive_op(p.op),
        OpV::SetLocalReturn(arity(p.op)),
        OpV::ReturnLocal(arity(p.op)),
    ]);
    Proc { name: String::from_str(p.name), instrs, stack_size: k + 1 }
}

/// The signatures and the code of the primitives.
fn primitive_parts() -> (r: (Vec<Signature>, Vec<Proc>))
    ensures
        views(r.0@) == primitive_sigs(),
        views(r.1@) == primitive_code(),
{
    let table = primitives();
    let mut sigs: Vec<Signature> = Vec::new();
    let mut code: Vec<Proc> = Vec::new();
    let mut i: usize = 0;
    while i < table.len()
        invariant
            i <= table.len(),
            sigs.len() == i,
            code.len() == i,
            forall|j: int| 0 <= j < i ==> sigs[j]@ == primitive_sig(table[j]),
            forall|j: int| 0 <= j < i ==> code[j]@ == primitive_proc(table[j]),
        decreases table.len() - i,
    {
        sigs.push(primitive_signature(&table[i]));
        code.push(primitive_body(&table[i]));
        i += 1;
    }
    assert(views(sigs@) =~= primitive_sigs());
    assert(views(code@) =~= primitive_code());
    (sigs, code)
}

/// The procedures among the top-level items, in order.
fn collect_procs(ir: &[Top]) -> (r: Vec<&PProc>)
    ensures
        views(r@) == procs_of(views(ir@)),
{
    let ghost tops = views(ir@);
    let mut ps: Vec<&PProc> = Vec::new();
    let mut i: usize = 0;
    assert(tops.take(0) =~= Seq::empty());
    assert(views(ps@) =~= Seq::empty());
    while i < ir.len()
        invariant
            i <= ir.len(),
            tops == views(ir@),
            views(ps@) == procs_of(tops.take(i as int)),
        decreases ir.len() - i,
    {
        assert(tops.take(i + 1).drop_last() =~= tops.take(i as int));
        match &ir[i] {
            Top::Proc(p) => {
                let ghost before = ps@;
                ps.push(p);
                assert(views(ps@) =~= views(before).push(p@));
            },
            Top::Global(_) => {},
        }
        i += 1;
    }
    assert(tops.take(ir.len() as int) =~= tops);
    ps
}

/// A failure on a prefix of the procedures is the failure on all of them.
proof fn lemma_add_sigs_fails(sigs: Seq<Sig>, procs: Seq<PProcV>, n: int)
    requires
        0 <= n <= procs.len(),
        add_sigs(sigs, procs.take(n)) is Err,
    ensures
        add_sigs(sigs, procs) == add_sigs(sigs, procs.take(n)),
    decreases procs.len() - n,
{
    if n < procs.len() {
        assert(procs.take(n + 1).drop_last() =~= procs.take(n));
        lemma_add_sigs_fails(sigs, procs, n + 1);
    } else {
        assert(procs.take(n) =~= procs);
    }
}

/// A failure on a prefix of the procedures is the failure on all of them.
proof fn lemma_lower_procs_fails(sigs: Seq<Sig>, procs: Seq<PProcV>, n: int)
    requires
        0 <= n <= procs.len(),
        lower_procs(sigs, procs.take(n)) is Err,
    ensures
        lower_procs(sigs, procs) == lower_procs(sigs, procs.take(n)),
    decreases procs.len() - n,
{
    if n < procs.len() {
        assert(procs.take(n + 1).drop_last() =~= procs.take(n));
        lemma_lower_procs_fails(sigs, procs, n + 1);
    } else {
        assert(procs.take(n) =~= procs);
    }
}

/// `base`, followed by the signatures of `ps`.
fn add_signatures(base: Vec<Signature>, ps: &Vec<&PProc>) -> (r: Result<
    Vec<Signature>,
    CompileError,
>)
    ensures
        same_list(r, add_sigs(views(base@), views(ps@))),
{
    let ghost procs = views(ps@);
    let ghost start = views(base@);
    let mut sigs = base;
    let mut i: usize = 0;
    assert(procs.take(0) =~= Seq::empty());
    while i < ps.len()
        invariant
            i <= ps.len(),
            procs == views(ps@),
            start == views(base@),
            add_sigs(start, procs.take(i as int)) == Ok::<Seq<Sig>, CompileErrorV>(views(sigs@)),
        decreases ps.len() - i,
    {
        assert(procs.take(i + 1).drop_last() =~= procs.take(i as int));
        match find_proc(&sigs, &ps[i].name) {
            Some(_) => {
                proof {
                    lemma_add_sigs_fails(start, procs, i + 1);
                }
                return Err(CompileError::DupFunName { name: ps[i].name.clone() });
            },
            None => {
                let ghost before = sigs@;
                let sig = signature(ps[i]);
                sigs.push(sig);
                assert(views(sigs@) =~= views(before).push(sig@));
            },
        }
        i += 1;
    }
    assert(procs.take(ps.len() as int) =~= procs);
    Ok(sigs)
}

/// The compiled forms of `ps`, in order.
fn lower_all(sigs: &Vec<Signature>, ps: &Vec<&PProc>) -> (r: Result<Vec<Proc>, CompileError>)
    ensures
        same_list(r, lower_procs(views(sigs@), views(ps@))),
        r matches Ok(code) ==> code.len() == ps.len() && forall|j: int|
            0 <= j < code.len() ==> proc_ok(views(sigs@), ps[j]@, #[trigger] code[j]@),
{
    let ghost procs = views(ps@);
    let mut out: Vec<Proc> = Vec::new();
    let mut j: usize = 0;
    assert(views(out@) =~= Seq::empty());
    assert(procs.take(0) =~= Seq::empty());
    while j < ps.len()
        invariant
            j <= ps.len(),
            procs == views(ps@),
            lower_procs(views(sigs@), procs.take(j as int)) == Ok::<Seq<ProcV>, CompileErrorV>(
                views(out@),
            ),
            out.len() == j,
            forall|k: int| 0 <= k < out.len() ==> proc_ok(views(sigs@), ps[k]@, #[trigger] out[k]@),
        decreases ps.len() - j,
    {
        assert(procs.take(j + 1).drop_last() =~= procs.take(j as int));
        match compile_proc(ps[j], sigs) {
            Err(e) => {
                proof {
                    lemma_lower_procs_fails(views(sigs@), procs, j + 1);
                }
                return Err(e);
            },
            Ok(p) => {
                let ghost before = out@;
                out.push(p);
                assert(views(out@) =~= views(before).push(p@));
            },
        }
        j += 1;
    }
    assert(procs.take(ps.len() as int) =~= procs);
    Ok(out)
}

/// Lowers a parsed program to the table of compiled procedures: the
/// primitives first, then the program's procedures in source order.
pub fn compile(ir: &[Top]) -> (r: Result<Vec<Proc>, CompileError>)
    ensures
        same_list(r, compiled(views(ir@))),
        r matches Ok(code) ==> program_ok(views(ir@), views(code@)),
{
    let (base, code) = primitive_parts();
    let ps = collect_procs(ir);
    let sigs = add_signatures(base, &ps)?;
    let mut out = lower_all(&sigs, &ps)?;
    let mut code = code;
    let ghost a = code@;
    let ghost b = out@;
    code.append(&mut out);
    assert(views(code@) =~= views(a) + views(b));
    proof {
        let procs = procs_of(views(ir@));
        let all = views(code@);
        lemma_add_sigs(primitive_sigs(), procs);
        assert forall|q: int| 0 <= q < all.len() implies well_formed(#[trigger] all[q]) by {
            if q < primitive_table().len() {
                lemma_primitive_well_formed(primitive_table()[q]);
            } else {
                assert(proc_ok(views(sigs@), ps[q - primitive_table().len()]@, b[q - a.len()]@));
            }
        }
        assert forall|j: int| 0 <= j < procs.len() implies proc_ok(
            signatures(views(ir@)),
            #[trigger] procs[j],
            all[primitive_table().len() + j],
        ) by {
            assert(proc_ok(views(sigs@), ps[j]@, b[j]@));
        }
    }
    Ok(code)
}

/// The index of the procedure called `name`, if there is one.
pub fn find_main(procs: &Vec<Proc>, name: &str) -> (r: Option<usize>)
    ensures
        match r {
            Some(i) => i < procs.len() && procs[i as int].name@ == name@ && forall|j: int|
                0 <= j < i ==> procs[j].name@ != name@,
            None => forall|j: int| 0 <= j < procs.len() ==> procs[j].name@ != name@,
        },
{
    let wanted = String::from_str(name);
    let mut i: usize = 0;
    while i < procs.len()
        invariant
            i <= procs.len(),
            wanted@ == name@,
            forall|j: int| 0 <= j < i ==> procs[j].name@ != name@,
        decreases procs.len() - i,
    {
        if procs[i].name == wanted {
            return Some(i);
        }
        i += 1;
    }
    None
}

} // verus!
