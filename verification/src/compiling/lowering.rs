use vstd::prelude::*;
use crate::eval::data::{OpV, Val};
use crate::parsing::ir_parser::{ExprV, LitV, ProcV, StmtV, TopV, Type};

verus! {

/// Mathematical model of a lowering error.
pub enum CompileErrorV {
    DupFunName { name: Seq<char> },
    ReuseParamName { proc: Seq<char>, param: Seq<char> },
    AccessMissingLocal { proc: Seq<char>, local: Seq<char> },
    AccessMissingProc { caller_proc: Seq<char>, callee_proc: Seq<char> },
    AccessMissingLabel { proc: Seq<char>, label: Seq<char> },
    ProcCallArityMismatch { caller_proc: Seq<char>, callee_proc: Seq<char> },
    TypeMismatch { proc: Seq<char>, expected: Type, found: Type },
}

/// The signature of a procedure: what a call site is checked against.
pub struct Sig {
    pub name: Seq<char>,
    pub params: Seq<Type>,
    pub ret: Type,
}

/// A slot of a frame: the name it stands for and its declared type.
pub type Slots = Seq<(Seq<char>, Type)>;

/// The last index at which `x` stands in `s`.
pub open spec fn find_last<T>(s: Seq<T>, x: T) -> Option<int>
    decreases s.len(),
{
    if s.len() == 0 {
        None
    } else if s.last() == x {
        Some(s.len() - 1)
    } else {
        find_last(s.drop_last(), x)
    }
}

/// What `find_last` finds is an index at which `x` stands; it finds none
/// only where `x` stands nowhere.
pub proof fn lemma_find_last<T>(s: Seq<T>, x: T)
    ensures
        match find_last(s, x) {
            Some(i) => 0 <= i < s.len() && s[i] == x,
            None => forall|j: int| 0 <= j < s.len() ==> #[trigger] s[j] != x,
        },
    decreases s.len(),
{
    if s.len() > 0 && s.last() != x {
        lemma_find_last(s.drop_last(), x);
        assert forall|j: int| 0 <= j < s.len() && find_last(s, x) is None implies #[trigger] s[j]
            != x by {
            if j < s.len() - 1 {
                assert(s[j] == s.drop_last()[j]);
            }
        }
    }
}

/// The names that the slots stand for.
pub open spec fn slot_names(slots: Slots) -> Seq<Seq<char>> {
    slots.map_values(|e: (Seq<char>, Type)| e.0)
}

/// The names of the procedures.
pub open spec fn sig_names(sigs: Seq<Sig>) -> Seq<Seq<char>> {
    sigs.map_values(|s: Sig| s.name)
}

/// The slot that stands for `name`.
pub open spec fn slot_of(slots: Slots, name: Seq<char>) -> Option<int> {
    find_last(slot_names(slots), name)
}

/// The index of the procedure called `name`.
pub open spec fn proc_of(sigs: Seq<Sig>, name: Seq<char>) -> Option<int> {
    find_last(sig_names(sigs), name)
}

/// The slots of the parameters, in order; a name that occurs twice is
/// refused.
pub open spec fn param_slots(proc: Seq<char>, params: Slots) -> Result<Slots, CompileErrorV>
    decreases params.len(),
{
    if params.len() == 0 {
        Ok(Seq::empty())
    } else {
        match param_slots(proc, params.drop_last()) {
            Err(e) => Err(e),
            Ok(slots) => if slot_of(slots, params.last().0) is Some {
                Err(CompileErrorV::ReuseParamName { proc, param: params.last().0 })
            } else {
                Ok(slots.push(params.last()))
            },
        }
    }
}

/// `slots`, followed by a slot for each variable that `body` sets and that
/// has none yet, in the order in which they are first set, each with the
/// type of its first `set`.
pub open spec fn body_slots(slots: Slots, body: Seq<StmtV>) -> Slots
    decreases body.len(),
{
    if body.len() == 0 {
        slots
    } else {
        let before = body_slots(slots, body.drop_last());
        match body.last() {
            StmtV::SetLocal { var, ttype, val } => if slot_of(before, var) is Some {
                before
            } else {
                before.push((var, ttype))
            },
            _ => before,
        }
    }
}

/// What the statements of a procedure tell of the closure that a variable
/// holds.
pub enum Held {
    /// No statement sets the variable.
    Unset,
    /// Every statement that sets the variable sets it to a closure of this
    /// procedure with this many captured locals.
    Known(Seq<char>, nat),
    /// The statements that set the variable disagree, or one of them sets
    /// it to something else than a new closure.
    Unknown,
}

/// What `body` tells of the closure that `var` holds.
pub open spec fn held(body: Seq<StmtV>, var: Seq<char>) -> Held
    decreases body.len(),
{
    if body.len() == 0 {
        Held::Unset
    } else {
        let before = held(body.drop_last(), var);
        match body.last() {
            StmtV::SetLocal { var: v, ttype, val } => if v != var {
                before
            } else {
                match val {
                    ExprV::Closure { name, params } => match before {
                        Held::Unset => Held::Known(name, params.len()),
                        Held::Known(g, n) => if g == name && n == params.len() {
                            before
                        } else {
                            Held::Unknown
                        },
                        Held::Unknown => Held::Unknown,
                    },
                    _ => Held::Unknown,
                }
            },
            _ => before,
        }
    }
}

/// For each slot, the closure that it is known to hold: the callee's name
/// and the number of captured locals. It is known of a variable that is no
/// parameter and that the body sets to closures of one procedure with one
/// number of captured locals only.
pub open spec fn known_closures(params: nat, body: Seq<StmtV>, slots: Slots) -> Seq<
    Option<(Seq<char>, nat)>,
> {
    Seq::new(
        slots.len(),
        |i: int|
            if i >= params {
                match held(body, slots[i].0) {
                    Held::Known(g, n) => Some((g, n)),
                    _ => None,
                }
            } else {
                None
            },
    )
}

/// What the lowering of a procedure's statements refers to.
pub struct Ctx {
    /// The procedure's name.
    pub name: Seq<char>,
    /// Its return type.
    pub ret: Type,
    pub slots: Slots,
    /// For each slot, the closure that it is known to hold.
    pub known: Seq<Option<(Seq<char>, nat)>>,
    /// The signatures of all procedures, primitives first.
    pub sigs: Seq<Sig>,
}

/// The context in which the statements of `p` are lowered.
pub open spec fn context(sigs: Seq<Sig>, p: ProcV, slots: Slots) -> Ctx {
    Ctx {
        name: p.name,
        ret: p.return_type,
        slots,
        known: known_closures(p.params.len(), p.body, slots),
        sigs,
    }
}

/// The slot of `local`, which must exist and, if a type is expected, have
/// that declared type.
pub open spec fn slot_for(c: Ctx, local: Seq<char>, expected: Option<Type>) -> Result<
    usize,
    CompileErrorV,
> {
    match slot_of(c.slots, local) {
        None => Err(CompileErrorV::AccessMissingLocal { proc: c.name, local }),
        Some(i) => match expected {
            Some(t) => if c.slots[i].1 == t {
                Ok(i as usize)
            } else {
                Err(CompileErrorV::TypeMismatch { proc: c.name, expected: t, found: c.slots[i].1 })
            },
            None => Ok(i as usize),
        },
    }
}

/// The slots of `locals`, in order; where `types` is given, the i-th local
/// must have the i-th type. The first local that fails is reported.
pub open spec fn slots_for(c: Ctx, locals: Seq<Seq<char>>, types: Option<Seq<Type>>) -> Result<
    Seq<usize>,
    CompileErrorV,
>
    decreases locals.len(),
{
    if locals.len() == 0 {
        Ok(Seq::empty())
    } else {
        match slots_for(c, locals.drop_last(), types) {
            Err(e) => Err(e),
            Ok(slots) => match slot_for(
                c,
                locals.last(),
                match types {
                    Some(ts) => Some(ts[locals.len() - 1]),
                    None => None,
                },
            ) {
                Err(e) => Err(e),
                Ok(s) => Ok(slots.push(s)),
            },
        }
    }
}

/// An instruction before labels are resolved.
pub enum LOpV {
    Op(OpV),
    Label(Seq<char>),
    Branch { label: Seq<char>, var: Seq<char> },
    Jump(Seq<char>),
}

/// The destination slot of `set var : ttype = ..`, where the right-hand
/// side has the static type `rt`, if it has one: that type must be `ttype`,
/// and `var` must be declared with `ttype`.
pub open spec fn dest(c: Ctx, var: Seq<char>, ttype: Type, rt: Option<Type>) -> Result<
    usize,
    CompileErrorV,
> {
    match rt {
        Some(t) => if t != ttype {
            Err(CompileErrorV::TypeMismatch { proc: c.name, expected: t, found: ttype })
        } else {
            slot_for(c, var, Some(ttype))
        },
        None => slot_for(c, var, Some(ttype)),
    }
}

/// A producing instruction and the write of its result to `var`.
pub open spec fn produce_into(c: Ctx, var: Seq<char>, ttype: Type, rt: Option<Type>, op: OpV) -> Result<
    Seq<LOpV>,
    CompileErrorV,
> {
    match dest(c, var, ttype, rt) {
        Err(e) => Err(e),
        Ok(d) => Ok(seq![LOpV::Op(op), LOpV::Op(OpV::SetLocalReturn(d))]),
    }
}

/// The static type of a literal.
pub open spec fn lit_type(l: LitV) -> Type {
    match l {
        LitV::Int(_) => Type::Int,
        LitV::Float(_) => Type::Float,
        LitV::Bool(_) => Type::Bool,
        LitV::ConsType(_) => Type::Symbol,
        LitV::String(_) => Type::String,
    }
}

/// The instruction that writes a literal to a slot.
pub open spec fn lit_op(d: usize, l: LitV) -> OpV {
    match l {
        LitV::Int(n) => OpV::SetLocalData(d, Val::Int(n)),
        LitV::Float(t) => OpV::SetLocalFloat(d, t),
        LitV::Bool(b) => OpV::SetLocalData(d, Val::Bool(b)),
        LitV::ConsType(t) => OpV::SetLocalData(d, Val::Symbol(t)),
        LitV::String(t) => OpV::SetLocalData(d, Val::String(t)),
    }
}

/// An instruction with a callee that is known by name.
#[derive(Clone, Copy, Debug, PartialEq, Eq, Structural)]
pub enum Named {
    Call,
    Coroutine,
    Closure,
}

/// The static type of what an instruction with a named callee produces.
pub open spec fn named_type(k: Named, callee: Sig) -> Type {
    match k {
        Named::Call => callee.ret,
        Named::Coroutine => Type::Coroutine,
        Named::Closure => Type::Closure,
    }
}

/// The instruction for `call`, `coroutine` and `closure` of procedure `p`.
pub open spec fn named_op(k: Named, p: usize, args: Seq<usize>) -> OpV {
    match k {
        Named::Call => OpV::Call(p, args),
        Named::Coroutine => OpV::Coroutine { proc_id: p, params: args },
        Named::Closure => OpV::Closure { proc_id: p, env: args },
    }
}

/// The code for `call`, `coroutine` and `closure`. The callee must exist.
/// A closure may capture fewer locals than the callee has parameters; the
/// others must give as many. Each local must have the declared type of the
/// parameter at its position.
pub open spec fn lower_named(
    c: Ctx,
    var: Seq<char>,
    ttype: Type,
    name: Seq<char>,
    params: Seq<Seq<char>>,
    k: Named,
) -> Result<Seq<LOpV>, CompileErrorV> {
    match proc_of(c.sigs, name) {
        None => Err(CompileErrorV::AccessMissingProc { caller_proc: c.name, callee_proc: name }),
        Some(p) => match dest(c, var, ttype, Some(named_type(k, c.sigs[p]))) {
            Err(e) => Err(e),
            Ok(d) => if params.len() > c.sigs[p].params.len() || (k != Named::Closure
                && params.len() != c.sigs[p].params.len()) {
                Err(
                    CompileErrorV::ProcCallArityMismatch {
                        caller_proc: c.name,
                        callee_proc: name,
                    },
                )
            } else {
                match slots_for(c, params, Some(c.sigs[p].params)) {
                    Err(e) => Err(e),
                    Ok(args) => Ok(
                        seq![
                            LOpV::Op(named_op(k, p as usize, args)),
                            LOpV::Op(OpV::SetLocalReturn(d)),
                        ],
                    ),
                }
            },
        },
    }
}

/// An instruction that takes a local of a given type and a list of locals
/// of any type.
#[derive(Clone, Copy, Debug, PartialEq, Eq, Structural)]
pub enum Dynamic {
    DynCall,
    DynCoroutine,
    Cons,
}

/// The type that the first local of such an instruction must have.
pub open spec fn dynamic_want(k: Dynamic) -> Type {
    match k {
        Dynamic::DynCall => Type::Closure,
        Dynamic::DynCoroutine => Type::Closure,
        Dynamic::Cons => Type::Symbol,
    }
}

/// The static type of what it produces, if it has one.
pub open spec fn dynamic_type(k: Dynamic) -> Option<Type> {
    match k {
        Dynamic::DynCall => None,
        Dynamic::DynCoroutine => Some(Type::Coroutine),
        Dynamic::Cons => Some(Type::Ref),
    }
}

/// The instruction for `dyn_call`, `dyn_coroutine` and `cons`.
pub open spec fn dynamic_op(k: Dynamic, l: usize, args: Seq<usize>) -> OpV {
    match k {
        Dynamic::DynCall => OpV::DynCall(l, args),
        Dynamic::DynCoroutine => OpV::DynCoroutine { local: l, params: args },
        Dynamic::Cons => OpV::Cons { sym_var: l, params: args },
    }
}

/// The closure that the slot `l` is known to hold, for an instruction
/// that calls one.
pub open spec fn callee_at(c: Ctx, l: usize, k: Dynamic) -> Option<(Seq<char>, nat)> {
    if k != Dynamic::Cons && l < c.known.len() {
        c.known[l as int]
    } else {
        None
    }
}

/// The code for `dyn_call`, `dyn_coroutine` and `cons`: the first local is
/// checked, then the destination, then the list. Where the first local is
/// known to hold a closure of a procedure, that procedure must exist, the
/// list must give the parameters that the closure has not captured, each
/// with the parameter's declared type, and a `dyn_call` produces what the
/// procedure returns.
pub open spec fn lower_dynamic(
    c: Ctx,
    var: Seq<char>,
    ttype: Type,
    name: Seq<char>,
    params: Seq<Seq<char>>,
    k: Dynamic,
) -> Result<Seq<LOpV>, CompileErrorV> {
    match slot_for(c, name, Some(dynamic_want(k))) {
        Err(e) => Err(e),
        Ok(l) => match callee_at(c, l, k) {
            None => match dest(c, var, ttype, dynamic_type(k)) {
                Err(e) => Err(e),
                Ok(d) => match slots_for(c, params, None) {
                    Err(e) => Err(e),
                    Ok(args) => Ok(
                        seq![LOpV::Op(dynamic_op(k, l, args)), LOpV::Op(OpV::SetLocalReturn(d))],
                    ),
                },
            },
            Some((g, n)) => match proc_of(c.sigs, g) {
                None => Err(
                    CompileErrorV::AccessMissingProc { caller_proc: c.name, callee_proc: g },
                ),
                Some(p) => match dest(
                    c,
                    var,
                    ttype,
                    if k == Dynamic::DynCall {
                        Some(c.sigs[p].ret)
                    } else {
                        dynamic_type(k)
                    },
                ) {
                    Err(e) => Err(e),
                    Ok(d) => if n + params.len() != c.sigs[p].params.len() {
                        Err(
                            CompileErrorV::ProcCallArityMismatch {
                                caller_proc: c.name,
                                callee_proc: g,
                            },
                        )
                    } else {
                        match slots_for(c, params, Some(c.sigs[p].params.skip(n as int))) {
                            Err(e) => Err(e),
                            Ok(args) => Ok(
                                seq![
                                    LOpV::Op(dynamic_op(k, l, args)),
                                    LOpV::Op(OpV::SetLocalReturn(d)),
                                ],
                            ),
                        }
                    },
                },
            },
        },
    }
}

/// An instruction that reads one local and produces a value.
#[derive(Clone, Copy, Debug, PartialEq, Eq, Structural)]
pub enum Unary {
    Resume,
    Length,
    Type,
    Slot(usize),
    IsNil,
    ToString,
    /// Concatenation, with the slot of its first operand.
    Concat(usize),
}

/// The type that the local must have, if any.
pub open spec fn unary_want(k: Unary) -> Option<Type> {
    match k {
        Unary::Resume => Some(Type::Coroutine),
        Unary::Length => Some(Type::Ref),
        Unary::Type => Some(Type::Ref),
        Unary::Slot(_) => Some(Type::Ref),
        Unary::IsNil => None,
        Unary::ToString => None,
        Unary::Concat(_) => Some(Type::String),
    }
}

/// The static type of what it produces, if it has one.
pub open spec fn unary_type(k: Unary) -> Option<Type> {
    match k {
        Unary::Resume => None,
        Unary::Length => Some(Type::Int),
        Unary::Type => Some(Type::Symbol),
        Unary::Slot(_) => None,
        Unary::IsNil => Some(Type::Bool),
        Unary::ToString => Some(Type::String),
        Unary::Concat(_) => Some(Type::String),
    }
}

/// The instruction that reads the slot `l`.
pub open spec fn unary_op(k: Unary, l: usize) -> OpV {
    match k {
        Unary::Resume => OpV::Resume(l),
        Unary::Length => OpV::GetLength(l),
        Unary::Type => OpV::GetType(l),
        Unary::Slot(index) => OpV::GetSlot { local: l, index },
        Unary::IsNil => OpV::IsNil(l),
        Unary::ToString => OpV::ToString(l),
        Unary::Concat(first) => OpV::Concat(first, l),
    }
}

/// The code for an instruction that reads one local: the local is checked,
/// then the destination.
pub open spec fn lower_unary(c: Ctx, var: Seq<char>, ttype: Type, operand: Seq<char>, k: Unary) -> Result<
    Seq<LOpV>,
    CompileErrorV,
> {
    match slot_for(c, operand, unary_want(k)) {
        Err(e) => Err(e),
        Ok(l) => produce_into(c, var, ttype, unary_type(k), unary_op(k, l)),
    }
}

/// The code for `set var : ttype = val`.
pub open spec fn lower_set(c: Ctx, var: Seq<char>, ttype: Type, val: ExprV) -> Result<
    Seq<LOpV>,
    CompileErrorV,
> {
    match val {
        ExprV::Lit(l) => match dest(c, var, ttype, Some(lit_type(l))) {
            Err(e) => Err(e),
            Ok(d) => Ok(seq![LOpV::Op(lit_op(d, l))]),
        },
        ExprV::Var(src) => match slot_for(c, src, Some(ttype)) {
            Err(e) => Err(e),
            Ok(s) => match slot_for(c, var, Some(ttype)) {
                Err(e) => Err(e),
                Ok(d) => Ok(seq![LOpV::Op(OpV::SetLocalVar { src: s, dest: d })]),
            },
        },
        ExprV::Call { name, params } => lower_named(c, var, ttype, name, params, Named::Call),
        ExprV::Coroutine { name, params } => lower_named(
            c,
            var,
            ttype,
            name,
            params,
            Named::Coroutine,
        ),
        ExprV::Closure { name, params } => lower_named(c, var, ttype, name, params, Named::Closure),
        ExprV::DynCall { name, params } => lower_dynamic(
            c,
            var,
            ttype,
            name,
            params,
            Dynamic::DynCall,
        ),
        ExprV::DynCoroutine { name, params } => lower_dynamic(
            c,
            var,
            ttype,
            name,
            params,
            Dynamic::DynCoroutine,
        ),
        ExprV::Cons { name, params } => lower_dynamic(c, var, ttype, name, params, Dynamic::Cons),
        ExprV::Resume(v) => lower_unary(c, var, ttype, v, Unary::Resume),
        ExprV::Length(v) => lower_unary(c, var, ttype, v, Unary::Length),
        ExprV::Type(v) => lower_unary(c, var, ttype, v, Unary::Type),
        ExprV::Slot { var: v, index } => lower_unary(c, var, ttype, v, Unary::Slot(index)),
        ExprV::IsNil(v) => lower_unary(c, var, ttype, v, Unary::IsNil),
        ExprV::ToString(v) => lower_unary(c, var, ttype, v, Unary::ToString),
        ExprV::Concat(a, b) => match slot_for(c, a, Some(Type::String)) {
            Err(e) => Err(e),
            Ok(la) => lower_unary(c, var, ttype, b, Unary::Concat(la)),
        },
    }
}

/// A statement that reads one local of a given type.
#[derive(Clone, Copy, Debug, PartialEq, Eq, Structural)]
pub enum Plain {
    Return,
    Yield,
    SlotRemove(usize),
    Delete,
}

/// The type that the local must have: the procedure's return type for
/// `return` and `yield`, `Ref` for the others.
pub open spec fn plain_want(c: Ctx, k: Plain) -> Type {
    match k {
        Plain::Return => c.ret,
        Plain::Yield => c.ret,
        Plain::SlotRemove(_) => Type::Ref,
        Plain::Delete => Type::Ref,
    }
}

/// The instruction for a statement that reads the slot `l`.
pub open spec fn plain_op(k: Plain, l: usize) -> OpV {
    match k {
        Plain::Return => OpV::ReturnLocal(l),
        Plain::Yield => OpV::Yield(l),
        Plain::SlotRemove(index) => OpV::RemoveSlot { local: l, index },
        Plain::Delete => OpV::Delete(l),
    }
}

/// The code for a statement that reads one local of a given type.
pub open spec fn lower_plain(c: Ctx, local: Seq<char>, k: Plain) -> Result<Seq<LOpV>, CompileErrorV> {
    match slot_for(c, local, Some(plain_want(c, k))) {
        Err(e) => Err(e),
        Ok(l) => Ok(seq![LOpV::Op(plain_op(k, l))]),
    }
}

/// The code for a statement.
pub open spec fn lower_stmt(c: Ctx, stmt: StmtV) -> Result<Seq<LOpV>, CompileErrorV> {
    match stmt {
        StmtV::SetLocal { var, ttype, val } => lower_set(c, var, ttype, val),
        StmtV::Jump(l) => Ok(seq![LOpV::Jump(l)]),
        StmtV::BranchTrue { label, var } => Ok(seq![LOpV::Branch { label, var }]),
        StmtV::Label(l) => Ok(seq![LOpV::Label(l)]),
        StmtV::Return(v) => lower_plain(c, v, Plain::Return),
        StmtV::Yield(v) => lower_plain(c, v, Plain::Yield),
        StmtV::Break => Ok(seq![LOpV::Op(OpV::Break)]),
        StmtV::SlotInsert { var, input, index } => match slot_for(c, var, Some(Type::Ref)) {
            Err(e) => Err(e),
            Ok(d) => match slot_for(c, input, None) {
                Err(e) => Err(e),
                Ok(s) => Ok(seq![LOpV::Op(OpV::InsertSlot { dest: d, src: s, index })]),
            },
        },
        StmtV::SlotRemove { var, index } => lower_plain(c, var, Plain::SlotRemove(index)),
        StmtV::Delete(v) => lower_plain(c, v, Plain::Delete),
    }
}

/// The code for a list of statements; the first statement that fails is
/// reported.
pub open spec fn lower_body(c: Ctx, body: Seq<StmtV>) -> Result<Seq<LOpV>, CompileErrorV>
    decreases body.len(),
{
    if body.len() == 0 {
        Ok(Seq::empty())
    } else {
        match lower_body(c, body.drop_last()) {
            Err(e) => Err(e),
            Ok(ops) => match lower_stmt(c, body.last()) {
                Err(e) => Err(e),
                Ok(more) => Ok(ops + more),
            },
        }
    }
}

/// The index of the label `name`: that of its last occurrence.
pub open spec fn label_of(ops: Seq<LOpV>, name: Seq<char>) -> Option<int> {
    find_last(ops, LOpV::Label(name))
}

/// The instruction for `op`, with its label resolved against `ops`. A
/// label becomes a `Nop`; a branch must name a known label and test a
/// `Bool`; a jump must name a known label.
pub open spec fn resolve(c: Ctx, ops: Seq<LOpV>, op: LOpV) -> Result<OpV, CompileErrorV> {
    match op {
        LOpV::Op(x) => Ok(x),
        LOpV::Label(_) => Ok(OpV::Nop),
        LOpV::Branch { label, var } => match label_of(ops, label) {
            None => Err(CompileErrorV::AccessMissingLabel { proc: c.name, label }),
            Some(i) => match slot_for(c, var, Some(Type::Bool)) {
                Err(e) => Err(e),
                Ok(l) => Ok(OpV::BranchTrue { label: i as usize, local: l }),
            },
        },
        LOpV::Jump(label) => match label_of(ops, label) {
            None => Err(CompileErrorV::AccessMissingLabel { proc: c.name, label }),
            Some(i) => Ok(OpV::Jump(i as usize)),
        },
    }
}

/// The first `n` instructions of `ops`, resolved; the first that fails is
/// reported.
pub open spec fn resolve_all(c: Ctx, ops: Seq<LOpV>, n: nat) -> Result<Seq<OpV>, CompileErrorV>
    decreases n,
{
    if n == 0 {
        Ok(Seq::empty())
    } else {
        match resolve_all(c, ops, (n - 1) as nat) {
            Err(e) => Err(e),
            Ok(done) => match resolve(c, ops, ops[n - 1]) {
                Err(e) => Err(e),
                Ok(op) => Ok(done.push(op)),
            },
        }
    }
}

/// The slots of a procedure: its parameters, then the variables it sets.
pub open spec fn slots_of(p: ProcV) -> Result<Slots, CompileErrorV> {
    match param_slots(p.name, p.params) {
        Err(e) => Err(e),
        Ok(slots) => Ok(body_slots(slots, p.body)),
    }
}

/// The signature of a parsed procedure.
pub open spec fn sig_of(p: ProcV) -> Sig {
    Sig { name: p.name, params: p.params.map_values(|e: (Seq<char>, Type)| e.1), ret: p.return_type }
}

/// The compiled form of a procedure, given the signatures of all.
#[verifier::opaque]
pub open spec fn lower_proc(sigs: Seq<Sig>, p: ProcV) -> Result<crate::eval::data::ProcV, CompileErrorV> {
    match slots_of(p) {
        Err(e) => Err(e),
        Ok(slots) => {
            let c = context(sigs, p, slots);
            match lower_body(c, p.body) {
                Err(e) => Err(e),
                Ok(ops) => match resolve_all(c, ops, ops.len()) {
                    Err(e) => Err(e),
                    Ok(instrs) => Ok(
                        crate::eval::data::ProcV {
                            name: p.name,
                            instrs,
                            stack_size: slots.len() as usize,
                        },
                    ),
                },
            }
        },
    }
}

/// The procedures among the top-level items, in order.
pub open spec fn procs_of(ir: Seq<TopV>) -> Seq<ProcV>
    decreases ir.len(),
{
    if ir.len() == 0 {
        Seq::empty()
    } else {
        match ir.last() {
            TopV::Proc(p) => procs_of(ir.drop_last()).push(p),
            TopV::Global(_) => procs_of(ir.drop_last()),
        }
    }
}

/// A primitive operation.
#[derive(Clone, Copy, Debug, PartialEq, Eq, Structural)]
pub enum PrimOp {
    Add,
    Sub,
    Mul,
    Div,
    Mod,
    Neg,
    And,
    Or,
    Xor,
    Not,
    Gt,
    Lt,
    Eq,
}

/// A primitive procedure: its name, the type of its one or two operands,
/// the type of its result, and what it computes.
#[derive(Clone, Copy, Debug)]
pub struct Primitive {
    pub name: &'static str,
    pub operand: Type,
    pub ret: Type,
    pub op: PrimOp,
}

/// The primitive procedures, in the order of their indices.
pub open spec fn primitive_table() -> Seq<Primitive> {
    seq![
        Primitive { name: "add_int", operand: Type::Int, ret: Type::Int, op: PrimOp::Add },
        Primitive { name: "add_float", operand: Type::Float, ret: Type::Float, op: PrimOp::Add },
        Primitive { name: "sub_int", operand: Type::Int, ret: Type::Int, op: PrimOp::Sub },
        Primitive { name: "sub_float", operand: Type::Float, ret: Type::Float, op: PrimOp::Sub },
        Primitive { name: "mul_int", operand: Type::Int, ret: Type::Int, op: PrimOp::Mul },
        Primitive { name: "mul_float", operand: Type::Float, ret: Type::Float, op: PrimOp::Mul },
        Primitive { name: "div_int", operand: Type::Int, ret: Type::Int, op: PrimOp::Div },
        Primitive { name: "div_float", operand: Type::Float, ret: Type::Float, op: PrimOp::Div },
        Primitive { name: "mod_int", operand: Type::Int, ret: Type::Int, op: PrimOp::Mod },
        Primitive { name: "mod_float", operand: Type::Float, ret: Type::Float, op: PrimOp::Mod },
        Primitive { name: "neg_int", operand: Type::Int, ret: Type::Int, op: PrimOp::Neg },
        Primitive { name: "neg_float", operand: Type::Float, ret: Type::Float, op: PrimOp::Neg },
        Primitive { name: "and", operand: Type::Bool, ret: Type::Bool, op: PrimOp::And },
        Primitive { name: "or", operand: Type::Bool, ret: Type::Bool, op: PrimOp::Or },
        Primitive { name: "xor", operand: Type::Bool, ret: Type::Bool, op: PrimOp::Xor },
        Primitive { name: "not", operand: Type::Bool, ret: Type::Bool, op: PrimOp::Not },
        Primitive { name: "gt_int", operand: Type::Int, ret: Type::Bool, op: PrimOp::Gt },
        Primitive { name: "gt_float", operand: Type::Float, ret: Type::Bool, op: PrimOp::Gt },
        Primitive { name: "lt_int", operand: Type::Int, ret: Type::Bool, op: PrimOp::Lt },
        Primitive { name: "lt_float", operand: Type::Float, ret: Type::Bool, op: PrimOp::Lt },
        Primitive { name: "eq_int", operand: Type::Int, ret: Type::Bool, op: PrimOp::Eq },
        Primitive { name: "eq_float", operand: Type::Float, ret: Type::Bool, op: PrimOp::Eq },
        Primitive { name: "eq_bool", operand: Type::Bool, ret: Type::Bool, op: PrimOp::Eq },
        Primitive { name: "eq_symbol", operand: Type::Symbol, ret: Type::Bool, op: PrimOp::Eq },
        Primitive { name: "eq_ref", operand: Type::Ref, ret: Type::Bool, op: PrimOp::Eq },
    ]
}

/// The number of operands of a primitive.
pub open spec fn arity(op: PrimOp) -> usize {
    match op {
        PrimOp::Neg => 1,
        PrimOp::Not => 1,
        _ => 2,
    }
}

/// The instruction of a primitive, on slot 0, or on slots 0 and 1.
pub open spec fn primitive_op(op: PrimOp) -> OpV {
    match op {
        PrimOp::Add => OpV::Add(0, 1),
        PrimOp::Sub => OpV::Sub(0, 1),
        PrimOp::Mul => OpV::Mul(0, 1),
        PrimOp::Div => OpV::Div(0, 1),
        PrimOp::Mod => OpV::Mod(0, 1),
        PrimOp::Neg => OpV::Neg(0),
        PrimOp::And => OpV::And(0, 1),
        PrimOp::Or => OpV::Or(0, 1),
        PrimOp::Xor => OpV::Xor(0, 1),
        PrimOp::Not => OpV::Not(0),
        PrimOp::Gt => OpV::Gt(0, 1),
        PrimOp::Lt => OpV::Lt(0, 1),
        PrimOp::Eq => OpV::Eq(0, 1),
    }
}

/// The signature under which a primitive is called.
pub open spec fn primitive_sig(p: Primitive) -> Sig {
    Sig { name: p.name@, params: Seq::new(arity(p.op) as nat, |i: int| p.operand), ret: p.ret }
}

/// The code of a primitive: its instruction, then the result is written
/// to the slot after the operands and returned from there.
pub open spec fn primitive_proc(p: Primitive) -> crate::eval::data::ProcV {
    crate::eval::data::ProcV {
        name: p.name@,
        instrs: seq![
            primitive_op(p.op),
            OpV::SetLocalReturn(arity(p.op)),
            OpV::ReturnLocal(arity(p.op)),
        ],
        stack_size: (arity(p.op) + 1) as usize,
    }
}

/// The signatures of the primitives.
pub open spec fn primitive_sigs() -> Seq<Sig> {
    primitive_table().map_values(|p: Primitive| primitive_sig(p))
}

/// The code of the primitives.
pub open spec fn primitive_code() -> Seq<crate::eval::data::ProcV> {
    primitive_table().map_values(|p: Primitive| primitive_proc(p))
}

/// The signatures of parsed procedures.
pub open spec fn sigs_of(procs: Seq<ProcV>) -> Seq<Sig> {
    procs.map_values(|p: ProcV| sig_of(p))
}

/// `sigs`, followed by the signatures of `procs`; a procedure whose name
/// is taken, by a primitive or by an earlier procedure, is refused.
pub open spec fn add_sigs(sigs: Seq<Sig>, procs: Seq<ProcV>) -> Result<Seq<Sig>, CompileErrorV>
    decreases procs.len(),
{
    if procs.len() == 0 {
        Ok(sigs)
    } else {
        match add_sigs(sigs, procs.drop_last()) {
            Err(e) => Err(e),
            Ok(s) => if proc_of(s, procs.last().name) is Some {
                Err(CompileErrorV::DupFunName { name: procs.last().name })
            } else {
                Ok(s.push(sig_of(procs.last())))
            },
        }
    }
}

/// The compiled forms of `procs`, in order; the first procedure that fails
/// is reported.
pub open spec fn lower_procs(sigs: Seq<Sig>, procs: Seq<ProcV>) -> Result<
    Seq<crate::eval::data::ProcV>,
    CompileErrorV,
>
    decreases procs.len(),
{
    if procs.len() == 0 {
        Ok(Seq::empty())
    } else {
        match lower_procs(sigs, procs.drop_last()) {
            Err(e) => Err(e),
            Ok(done) => match lower_proc(sigs, procs.last()) {
                Err(e) => Err(e),
                Ok(p) => Ok(done.push(p)),
            },
        }
    }
}

/// The compiled program for the top-level items `ir`: the primitives, then
/// the procedures of `ir` in source order. Globals are not lowered.
pub open spec fn compiled(ir: Seq<TopV>) -> Result<Seq<crate::eval::data::ProcV>, CompileErrorV> {
    match add_sigs(primitive_sigs(), procs_of(ir)) {
        Err(e) => Err(e),
        Ok(sigs) => match lower_procs(sigs, procs_of(ir)) {
            Err(e) => Err(e),
            Ok(code) => Ok(primitive_code() + code),
        },
    }
}

} // verus!
