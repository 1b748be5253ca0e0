use vstd::prelude::*;
use crate::parsing::ir_parser::Type;
use super::data::{ClosureV, FrameV, Op, OpV, Proc, Val, views};
use super::model::{
    advance, answered, Ask, closure_at, Ending, entered, fits, Logic, Numeric, op_call, op_closure,
    op_concat, op_cons, op_coroutine, op_delete, op_dyn_call, op_dyn_coroutine, op_eq,
    op_get_length, op_get_type, op_insert_slot, op_is_nil, op_logic, op_neg, op_not, op_numeric,
    op_remove_slot, op_return, op_set_data, op_set_return, op_set_var, op_to_string, Outcome,
    read_all, run, step, stepped, VmState,
};

verus! {

/// Whether a value is of a type. `Nil` is of none.
pub open spec fn has_type(v: Val, t: Type) -> bool {
    match v {
        Val::Bool(_) => t == Type::Bool,
        Val::Int(_) => t == Type::Int,
        Val::Float(_) => t == Type::Float,
        Val::Symbol(_) => t == Type::Symbol,
        Val::Ref(_) => t == Type::Ref,
        Val::Closure(_) => t == Type::Closure,
        Val::Coroutine(_) => t == Type::Coroutine,
        Val::String(_) => t == Type::String,
        Val::Nil => false,
    }
}

/// Whether a slot of type `t` may hold `v`: a value of that type, or `Nil`.
pub open spec fn fits_type(v: Val, t: Type) -> bool {
    v is Nil || has_type(v, t)
}

/// The declared types of a procedure: those of its slots, and that of what
/// it returns; and for each slot the closure that it is known to hold, if
/// it is known: the callee's index and the number of captured values.
pub struct Typing {
    pub slots: Seq<Type>,
    pub holds: Seq<Option<Made>>,
    pub ret: Type,
}

/// What is known of a closure: the index of its procedure and the number
/// of values that it has captured.
pub struct Made {
    pub callee: usize,
    pub captured: nat,
}

/// The code of procedure `q`.
pub open spec fn code_of(procs: Seq<Proc>, q: int) -> Seq<OpV> {
    views(procs[q].instrs@)
}

/// The closure that slot `l` of procedure `q` is known to hold.
pub open spec fn held_in(t: Seq<Typing>, q: int, l: usize) -> Option<Made> {
    if l < t[q].holds.len() {
        t[q].holds[l as int]
    } else {
        None
    }
}

/// The static type of what an instruction of procedure `q` leaves in the
/// return register, for the instructions that have one: an arithmetic
/// instruction produces what its first operand is declared as, a call
/// through a slot that is known to hold a closure what the closure's
/// procedure returns.
pub open spec fn produced(t: Seq<Typing>, q: int, op: OpV) -> Option<Type> {
    match op {
        OpV::Call(p, _) => if p < t.len() {
            Some(t[p as int].ret)
        } else {
            None
        },
        OpV::DynCall(l, _) => match held_in(t, q, l) {
            Some(c) => if c.callee < t.len() {
                Some(t[c.callee as int].ret)
            } else {
                None
            },
            None => None,
        },
        OpV::GetLength(_) => Some(Type::Int),
        OpV::GetType(_) => Some(Type::Symbol),
        OpV::IsNil(_) => Some(Type::Bool),
        OpV::Closure { proc_id, env } => Some(Type::Closure),
        OpV::Cons { sym_var, params } => Some(Type::Ref),
        OpV::Coroutine { proc_id, params } => Some(Type::Coroutine),
        OpV::DynCoroutine { local, params } => Some(Type::Coroutine),
        OpV::ToString(_) => Some(Type::String),
        OpV::Concat(_, _) => Some(Type::String),
        OpV::Add(a, _) | OpV::Sub(a, _) | OpV::Mul(a, _) | OpV::Div(a, _) | OpV::Mod(a, _) | OpV::Neg(
            a,
        ) => if a < t[q].slots.len() {
            Some(t[q].slots[a as int])
        } else {
            None
        },
        OpV::Eq(_, _) | OpV::Gt(_, _) | OpV::Lt(_, _) | OpV::And(_, _) | OpV::Or(_, _) | OpV::Xor(
            _,
            _,
        ) | OpV::Not(_) => Some(Type::Bool),
        _ => None,
    }
}

/// Whether a jump to `i` lands on no `SetLocalReturn`.
pub open spec fn lands_well(instrs: Seq<OpV>, i: usize) -> bool {
    i >= instrs.len() || !(instrs[i as int] is SetLocalReturn)
}

/// Whether the locals `args` of procedure `q` may fill the slots of
/// procedure `p` from slot `n` on: there are slots enough, each local has
/// the declared type of its slot, and none of the slots filled, nor of
/// those below them, is known to hold a closure.
pub open spec fn fills(t: Seq<Typing>, q: int, p: int, n: nat, args: Seq<usize>) -> bool {
    &&& n + args.len() <= t[p].slots.len()
    &&& forall|j: int|
        0 <= j < args.len() && (#[trigger] args[j]) < t[q].slots.len()
            ==> t[q].slots[args[j] as int] == t[p].slots[n + j]
    &&& forall|j: int| 0 <= j < n + args.len() ==> (#[trigger] t[p].holds[j]) is None
}

/// Whether instruction `k` of procedure `q` is statically typed: what it
/// writes to a slot has the slot's declared type; a slot that is known to
/// hold a closure is written by a `SetLocalReturn` after the `Closure`
/// that makes such a closure only; a `SetLocalReturn` follows an
/// instruction that produces a value of the type of its slot; a
/// `ReturnLocal` returns a slot of the procedure's return type; a `Call`
/// gives the callee's first slots values of their declared types, a
/// `Closure` captures such values, and a `DynCall` goes through a slot
/// that is known to hold a closure and gives the slots after the captured
/// ones values of their declared types; a jump lands on no
/// `SetLocalReturn`. An instruction whose result has no static type
/// (`GetSlot`, `Resume`, a `DynCall` of a closure that is not known) is
/// not statically typed.
pub open spec fn instr_typed(t: Seq<Typing>, q: int, instrs: Seq<OpV>, k: int) -> bool {
    let slots = t[q].slots;
    match instrs[k] {
        OpV::SetLocalData(d, v) => d < slots.len() ==> has_type(v, slots[d as int]) && held_in(
            t,
            q,
            d,
        ) is None,
        OpV::SetLocalFloat(d, _) => d < slots.len() ==> slots[d as int] == Type::Float && held_in(
            t,
            q,
            d,
        ) is None,
        OpV::SetLocalVar { src, dest } => src < slots.len() && dest < slots.len()
            ==> slots[src as int] == slots[dest as int] && held_in(t, q, dest) is None,
        OpV::SetLocalReturn(d) => k >= 1 && (d < slots.len() ==> produced(t, q, instrs[k - 1])
            == Some(slots[d as int]) && (held_in(t, q, d) is Some ==> instrs[k - 1] is Closure
            && held_in(t, q, d) == Some(
            Made {
                callee: instrs[k - 1]->Closure_proc_id,
                captured: instrs[k - 1]->Closure_env.len(),
            },
        ))),
        OpV::ReturnLocal(l) => l < slots.len() ==> slots[l as int] == t[q].ret,
        OpV::Call(p, args) => p < t.len() ==> fills(t, q, p as int, 0, args),
        OpV::Closure { proc_id, env } => proc_id < t.len() && env.len() <= t[proc_id as int].slots.len()
            && forall|j: int|
            0 <= j < env.len() && (#[trigger] env[j]) < slots.len() ==> slots[env[j] as int]
                == t[proc_id as int].slots[j],
        OpV::DynCall(l, args) => held_in(t, q, l) is Some && held_in(t, q, l)->0.callee < t.len()
            && fills(t, q, held_in(t, q, l)->0.callee as int, held_in(t, q, l)->0.captured, args),
        OpV::Jump(i) => lands_well(instrs, i),
        OpV::BranchTrue { label, local } => lands_well(instrs, label),
        OpV::GetSlot { local, index } => false,
        OpV::Resume(_) => false,
        _ => true,
    }
}

/// Whether a program is statically typed under the typings `t`, one for
/// each procedure: each instruction is statically typed, and each frame
/// has as many slots as the procedure's typing declares.
pub open spec fn typed_program(procs: Seq<Proc>, t: Seq<Typing>) -> bool {
    t.len() == procs.len() && (forall|q: int|
        0 <= q < procs.len() ==> (#[trigger] procs[q]).stack_size == t[q].slots.len()
            && t[q].holds.len() == t[q].slots.len()) && forall|q: int, k: int|
        0 <= q < procs.len() && 0 <= k < code_of(procs, q).len() ==> #[trigger] instr_typed(
            t,
            q,
            code_of(procs, q),
            k,
        )
}

/// Whether `v` is a closure of procedure `p` with `n` captured values.
pub open spec fn is_closure_of(closures: Seq<ClosureV>, v: Val, p: usize, n: nat) -> bool {
    v is Closure && v->Closure_0 < closures.len() && closures[v->Closure_0 as int].proc_id == p
        && closures[v->Closure_0 as int].env.len() == n
}

/// Whether a closure has captured values that the first slots of its
/// procedure may hold.
pub open spec fn closure_typed(t: Seq<Typing>, c: ClosureV) -> bool {
    c.proc_id < t.len() && c.env.len() <= t[c.proc_id as int].slots.len() && forall|j: int|
        0 <= j < c.env.len() ==> fits_type(#[trigger] c.env[j], t[c.proc_id as int].slots[j])
}

/// Whether every closure of the table is well typed.
pub open spec fn closures_typed(t: Seq<Typing>, closures: Seq<ClosureV>) -> bool {
    forall|h: int| 0 <= h < closures.len() ==> closure_typed(t, #[trigger] closures[h])
}

/// Whether the table `b` has every closure of the table `a` at its place.
pub open spec fn grown(a: Seq<ClosureV>, b: Seq<ClosureV>) -> bool {
    a.len() <= b.len() && forall|h: int| 0 <= h < a.len() ==> a[h] == #[trigger] b[h]
}

/// Whether a frame holds, in each slot, a value that the slot may hold: a
/// value of the slot's type or `Nil`, and, where the slot is known to hold
/// a closure, such a closure or `Nil`.
pub open spec fn frame_typed(t: Seq<Typing>, closures: Seq<ClosureV>, f: FrameV) -> bool {
    f.proc_id < t.len() && f.locals.len() == t[f.proc_id as int].slots.len() && f.locals.len()
        == t[f.proc_id as int].holds.len() && forall|j: int|
        0 <= j < f.locals.len() ==> fits_type(#[trigger] f.locals[j], t[f.proc_id as int].slots[j])
            && (t[f.proc_id as int].holds[j] is Some ==> f.locals[j] is Nil || is_closure_of(
            closures,
            f.locals[j],
            t[f.proc_id as int].holds[j]->0.callee,
            t[f.proc_id as int].holds[j]->0.captured,
        ))
}

/// The procedure that the saved frame `i` called.
pub open spec fn callee_of(s: VmState, i: int) -> usize {
    if i + 1 < s.frames.len() {
        s.frames[i + 1].proc_id
    } else {
        s.current.proc_id
    }
}

/// Whether the instruction `op` of procedure `q` calls procedure `callee`.
pub open spec fn calls(t: Seq<Typing>, q: int, op: OpV, callee: usize) -> bool {
    match op {
        OpV::Call(p, _) => p == callee,
        OpV::DynCall(l, _) => held_in(t, q, l) is Some && held_in(t, q, l)->0.callee == callee,
        _ => false,
    }
}

/// Whether a saved frame stands just after a call of procedure `callee`.
pub open spec fn saved_ok(procs: Seq<Proc>, t: Seq<Typing>, f: FrameV, callee: usize) -> bool {
    f.proc_id < procs.len() && 1 <= f.ip <= code_of(procs, f.proc_id as int).len() && calls(
        t,
        f.proc_id as int,
        code_of(procs, f.proc_id as int)[f.ip - 1],
        callee,
    )
}

/// Whether the return register holds what the current instruction may
/// write, if that is a `SetLocalReturn`.
pub open spec fn ret_typed(procs: Seq<Proc>, t: Seq<Typing>, s: VmState) -> bool {
    s.current.proc_id < procs.len() && s.current.ip < code_of(
        procs,
        s.current.proc_id as int,
    ).len() && code_of(procs, s.current.proc_id as int)[s.current.ip as int] is SetLocalReturn
        && code_of(procs, s.current.proc_id as int)[s.current.ip as int]->SetLocalReturn_0
        < s.current.locals.len() ==> s.ret is Some && ret_fits(
        t,
        s,
        code_of(procs, s.current.proc_id as int)[s.current.ip as int]->SetLocalReturn_0,
    )
}

/// Whether the slot `d` of the current frame may hold what the return
/// register holds.
pub open spec fn ret_fits(t: Seq<Typing>, s: VmState, d: usize) -> bool {
    fits_type(s.ret->0, t[s.current.proc_id as int].slots[d as int]) && (held_in(
        t,
        s.current.proc_id as int,
        d,
    ) is Some ==> is_closure_of(
        s.closures,
        s.ret->0,
        held_in(t, s.current.proc_id as int, d)->0.callee,
        held_in(t, s.current.proc_id as int, d)->0.captured,
    ))
}

/// The procedure at the bottom of the call stack.
pub open spec fn bottom(s: VmState) -> usize {
    if s.frames.len() == 0 {
        s.current.proc_id
    } else {
        s.frames[0].proc_id
    }
}

/// Whether a state of a run from procedure `entry` is well typed: no
/// coroutine runs; there are no more closures than the machine can
/// number, and every closure is well typed; every frame holds values
/// that its slots may hold; every saved frame stands just after the call
/// of the frame above it; the return register holds what the current
/// instruction may write; the oldest frame is that of `entry`.
pub open spec fn well_typed(procs: Seq<Proc>, t: Seq<Typing>, entry: usize, s: VmState) -> bool {
    &&& s.running.len() == 0
    &&& s.closures.len() <= usize::MAX
    &&& closures_typed(t, s.closures)
    &&& frame_typed(t, s.closures, s.current)
    &&& forall|i: int|
        0 <= i < s.frames.len() ==> frame_typed(t, s.closures, #[trigger] s.frames[i])
            && saved_ok(procs, t, s.frames[i], callee_of(s, i))
    &&& ret_typed(procs, t, s)
    &&& bottom(s) == entry
}

/// A run begins in a well typed state, if the closures that earlier runs
/// have left are well typed.
pub proof fn lemma_entered_well_typed(procs: Seq<Proc>, t: Seq<Typing>, entry: usize, s: VmState)
    requires
        typed_program(procs, t),
        entry < procs.len(),
        s.closures.len() <= usize::MAX,
        closures_typed(t, s.closures),
    ensures
        well_typed(procs, t, entry, entered(procs, s, entry)),
{
    let e = entered(procs, s, entry);
    assert(procs[entry as int].stack_size == t[entry as int].slots.len());
    if 0 < code_of(procs, entry as int).len() {
        assert(instr_typed(t, entry as int, code_of(procs, entry as int), 0));
    }
}

/// The values of slots that hold fitting values fit the types of the
/// slots.
proof fn lemma_read_all_typed(slots: Seq<Type>, locals: Seq<Val>, idx: Seq<usize>)
    requires
        locals.len() == slots.len(),
        forall|j: int| 0 <= j < locals.len() ==> fits_type(#[trigger] locals[j], slots[j]),
    ensures
        read_all(locals, idx) matches Ok(vs) ==> vs.len() == idx.len() && forall|j: int|
            0 <= j < vs.len() ==> (#[trigger] idx[j]) < slots.len() && vs[j] == locals[idx[j] as int]
                && fits_type(vs[j], slots[idx[j] as int]),
    decreases idx.len(),
{
    if idx.len() > 0 {
        lemma_read_all_typed(slots, locals, idx.drop_last());
        if read_all(locals, idx) is Ok {
            let vs = read_all(locals, idx)->Ok_0;
            let init = read_all(locals, idx.drop_last())->Ok_0;
            assert forall|j: int| 0 <= j < vs.len() implies (#[trigger] idx[j]) < slots.len()
                && vs[j] == locals[idx[j] as int] && fits_type(vs[j], slots[idx[j] as int]) by {
                if j < idx.len() - 1 {
                    assert(idx[j] == idx.drop_last()[j]);
                    assert(vs[j] == init[j]);
                }
            }
        }
    }
}

/// The code of a procedure has at most `usize::MAX` instructions.
proof fn lemma_code_fits(procs: Seq<Proc>, q: int)
    requires
        0 <= q < procs.len(),
    ensures
        code_of(procs, q).len() <= usize::MAX,
{
    vstd::std_specs::vec::axiom_spec_len(&procs[q].instrs);
}

/// A frame that is well typed stays so when the table of closures grows.
proof fn lemma_frame_kept(t: Seq<Typing>, a: Seq<ClosureV>, b: Seq<ClosureV>, f: FrameV)
    requires
        frame_typed(t, a, f),
        grown(a, b),
    ensures
        frame_typed(t, b, f),
{
    assert forall|j: int| 0 <= j < f.locals.len() implies fits_type(
        #[trigger] f.locals[j],
        t[f.proc_id as int].slots[j],
    ) && (t[f.proc_id as int].holds[j] is Some ==> f.locals[j] is Nil || is_closure_of(
        b,
        f.locals[j],
        t[f.proc_id as int].holds[j]->0.callee,
        t[f.proc_id as int].holds[j]->0.captured,
    )) by {
        if t[f.proc_id as int].holds[j] is Some && !(f.locals[j] is Nil) {
            let h = f.locals[j]->Closure_0 as int;
            assert(a[h] == b[h]);
        }
    }
}

/// The saved frames of a well typed state stay as they are under a state
/// that saves the same frames and calls from the same procedure, with a
/// table of closures that has grown.
proof fn lemma_frames_kept(procs: Seq<Proc>, t: Seq<Typing>, entry: usize, s: VmState, u: VmState)
    requires
        well_typed(procs, t, entry, s),
        u.frames == s.frames,
        u.current.proc_id == s.current.proc_id,
        grown(s.closures, u.closures),
    ensures
        forall|i: int|
            0 <= i < u.frames.len() ==> frame_typed(t, u.closures, #[trigger] u.frames[i])
                && saved_ok(procs, t, u.frames[i], callee_of(u, i)),
        bottom(u) == entry,
{
    assert forall|i: int| 0 <= i < u.frames.len() implies frame_typed(
        t,
        u.closures,
        #[trigger] u.frames[i],
    ) && saved_ok(procs, t, u.frames[i], callee_of(u, i)) by {
        assert(frame_typed(t, s.closures, s.frames[i]) && saved_ok(
            procs,
            t,
            s.frames[i],
            callee_of(s, i),
        ));
        lemma_frame_kept(t, s.closures, u.closures, s.frames[i]);
    }
}

/// The state after an instruction that goes on to the next one in the
/// same frame is well typed, if the frame still holds fitting values, the
/// closures are still well typed, and the return register holds what the
/// instruction produces.
proof fn lemma_sequel(procs: Seq<Proc>, t: Seq<Typing>, entry: usize, s: VmState, u: VmState)
    requires
        typed_program(procs, t),
        well_typed(procs, t, entry, s),
        s.current.proc_id < procs.len(),
        s.current.ip < code_of(procs, s.current.proc_id as int).len(),
        u.frames == s.frames,
        u.running == s.running,
        u.current.proc_id == s.current.proc_id,
        u.current.ip == s.current.ip + 1,
        grown(s.closures, u.closures),
        u.closures.len() <= usize::MAX,
        closures_typed(t, u.closures),
        frame_typed(t, u.closures, u.current),
        produced(
            t,
            s.current.proc_id as int,
            code_of(procs, s.current.proc_id as int)[s.current.ip as int],
        ) matches Some(ty) ==> u.ret is Some && fits_type(u.ret->0, ty),
        code_of(procs, s.current.proc_id as int)[s.current.ip as int] is Closure ==> u.ret is Some
            && is_closure_of(
            u.closures,
            u.ret->0,
            code_of(procs, s.current.proc_id as int)[s.current.ip as int]->Closure_proc_id,
            code_of(procs, s.current.proc_id as int)[s.current.ip as int]->Closure_env.len(),
        ),
    ensures
        well_typed(procs, t, entry, u),
{
    let q = s.current.proc_id as int;
    let code = code_of(procs, q);
    if u.current.ip < code.len() {
        assert(instr_typed(t, q, code, u.current.ip as int));
    }
    lemma_frames_kept(procs, t, entry, s, u);
}

/// The state after a jump is well typed.
proof fn lemma_jumped(procs: Seq<Proc>, t: Seq<Typing>, entry: usize, s: VmState, u: VmState)
    requires
        typed_program(procs, t),
        well_typed(procs, t, entry, s),
        s.current.proc_id < procs.len(),
        u.frames == s.frames,
        u.running == s.running,
        u.closures == s.closures,
        u.current.proc_id == s.current.proc_id,
        u.current.locals == s.current.locals,
        lands_well(code_of(procs, s.current.proc_id as int), u.current.ip),
    ensures
        well_typed(procs, t, entry, u),
{
    lemma_frames_kept(procs, t, entry, s, u);
}

/// The state after entering procedure `p` with the values `first` in its
/// first slots is well typed, if the instruction calls `p` and the values
/// fit the slots.
proof fn lemma_entered(
    procs: Seq<Proc>,
    t: Seq<Typing>,
    entry: usize,
    s: VmState,
    p: usize,
    first: Seq<Val>,
)
    requires
        typed_program(procs, t),
        well_typed(procs, t, entry, s),
        s.current.proc_id < procs.len(),
        s.current.ip < code_of(procs, s.current.proc_id as int).len(),
        calls(
            t,
            s.current.proc_id as int,
            code_of(procs, s.current.proc_id as int)[s.current.ip as int],
            p,
        ),
        p < procs.len(),
        first.len() <= t[p as int].slots.len(),
        forall|j: int| 0 <= j < first.len() ==> fits_type(#[trigger] first[j], t[p as int].slots[j]),
        forall|j: int| 0 <= j < first.len() ==> (#[trigger] t[p as int].holds[j]) is None,
    ensures
        well_typed(procs, t, entry, super::model::enter(procs, s, p, first)),
{
    let q = s.current.proc_id as int;
    let code = code_of(procs, q);
    let u = super::model::enter(procs, s, p, first);
    lemma_code_fits(procs, q);
    assert(procs[p as int].stack_size == t[p as int].slots.len());
    assert(frame_typed(t, u.closures, u.current)) by {
        assert forall|j: int| 0 <= j < u.current.locals.len() implies fits_type(
            #[trigger] u.current.locals[j],
            t[p as int].slots[j],
        ) && (t[p as int].holds[j] is Some ==> u.current.locals[j] is Nil) by {
            if j < first.len() {
                assert(u.current.locals[j] == first[j]);
                assert(t[p as int].holds[j] is None);
            }
        }
    }
    if 0 < code_of(procs, p as int).len() {
        assert(instr_typed(t, p as int, code_of(procs, p as int), 0));
    }
    assert forall|i: int| 0 <= i < u.frames.len() implies frame_typed(
        t,
        u.closures,
        #[trigger] u.frames[i],
    ) && saved_ok(procs, t, u.frames[i], callee_of(u, i)) by {
        if i < s.frames.len() {
            assert(frame_typed(t, s.closures, s.frames[i]) && saved_ok(
                procs,
                t,
                s.frames[i],
                callee_of(s, i),
            ));
            assert(u.frames[i] == s.frames[i]);
            if i + 1 < s.frames.len() {
                assert(u.frames[i + 1] == s.frames[i + 1]);
            } else {
                assert(u.frames[i + 1] == stepped(s.current));
            }
            assert(callee_of(u, i) == callee_of(s, i));
        } else {
            assert(u.frames[i] == stepped(s.current));
            assert(callee_of(u, i) == p);
            assert(frame_typed(t, s.closures, stepped(s.current)));
            assert(saved_ok(procs, t, stepped(s.current), p));
        }
    }
    if s.frames.len() > 0 {
        assert(u.frames[0] == s.frames[0]);
    }
}

/// The state after a `Call` is well typed.
proof fn lemma_called(
    procs: Seq<Proc>,
    t: Seq<Typing>,
    entry: usize,
    s: VmState,
    p: usize,
    args: Seq<usize>,
)
    requires
        typed_program(procs, t),
        well_typed(procs, t, entry, s),
        s.current.proc_id < procs.len(),
        s.current.ip < code_of(procs, s.current.proc_id as int).len(),
        code_of(procs, s.current.proc_id as int)[s.current.ip as int] == OpV::Call(p, args),
        op_call(procs, s, p, args) is Next,
    ensures
        well_typed(procs, t, entry, op_call(procs, s, p, args)->Next_0),
{
    let q = s.current.proc_id as int;
    let code = code_of(procs, q);
    let vs = read_all(s.current.locals, args)->Ok_0;
    assert(instr_typed(t, q, code, s.current.ip as int));
    lemma_read_all_typed(t[q].slots, s.current.locals, args);
    assert forall|j: int| 0 <= j < vs.len() implies fits_type(
        #[trigger] vs[j],
        t[p as int].slots[j],
    ) by {
        assert(args[j] < t[q].slots.len());
    }
    lemma_entered(procs, t, entry, s, p, vs);
}

/// The state after a `DynCall` is well typed.
proof fn lemma_dyn_called(
    procs: Seq<Proc>,
    t: Seq<Typing>,
    entry: usize,
    s: VmState,
    l: usize,
    args: Seq<usize>,
)
    requires
        typed_program(procs, t),
        well_typed(procs, t, entry, s),
        s.current.proc_id < procs.len(),
        s.current.ip < code_of(procs, s.current.proc_id as int).len(),
        code_of(procs, s.current.proc_id as int)[s.current.ip as int] == OpV::DynCall(l, args),
        op_dyn_call(procs, s, l, args) is Next,
    ensures
        well_typed(procs, t, entry, op_dyn_call(procs, s, l, args)->Next_0),
{
    let q = s.current.proc_id as int;
    let code = code_of(procs, q);
    assert(instr_typed(t, q, code, s.current.ip as int));
    let h = closure_at(s, l)->Ok_0;
    let c = s.closures[h as int];
    let p = c.proc_id;
    let n = c.env.len();
    let vs = read_all(s.current.locals, args)->Ok_0;
    assert(fits_type(s.current.locals[l as int], t[q].slots[l as int]));
    assert(held_in(t, q, l) == Some(Made { callee: p, captured: n }));
    assert(closure_typed(t, c));
    lemma_read_all_typed(t[q].slots, s.current.locals, args);
    let first = c.env + vs;
    assert forall|j: int| 0 <= j < first.len() implies fits_type(
        #[trigger] first[j],
        t[p as int].slots[j],
    ) by {
        if j < n {
            assert(first[j] == c.env[j]);
        } else {
            assert(first[j] == vs[j - n]);
            assert(args[j - n] < t[q].slots.len());
        }
    }
    lemma_entered(procs, t, entry, s, p, first);
}

/// The state after a `ReturnLocal` to a saved frame is well typed, and
/// what the oldest frame returns fits the return type of its procedure.
proof fn lemma_returned(procs: Seq<Proc>, t: Seq<Typing>, entry: usize, s: VmState, l: usize)
    requires
        typed_program(procs, t),
        well_typed(procs, t, entry, s),
        s.current.proc_id < procs.len(),
        s.current.ip < code_of(procs, s.current.proc_id as int).len(),
        code_of(procs, s.current.proc_id as int)[s.current.ip as int] == OpV::ReturnLocal(l),
    ensures
        op_return(s, l) matches Outcome::Next(u) ==> well_typed(procs, t, entry, u),
        op_return(s, l) matches Outcome::Halt(v) ==> fits_type(v, t[entry as int].ret),
{
    let q = s.current.proc_id as int;
    let code = code_of(procs, q);
    assert(instr_typed(t, q, code, s.current.ip as int));
    if op_return(s, l) is Next {
        let u = op_return(s, l)->Next_0;
        let v = s.current.locals[l as int];
        let top = s.frames.len() - 1;
        assert(frame_typed(t, s.closures, s.frames[top]) && saved_ok(
            procs,
            t,
            s.frames[top],
            callee_of(s, top),
        ));
        let f = s.frames[top];
        let caller = code_of(procs, f.proc_id as int);
        if f.ip < caller.len() {
            assert(instr_typed(t, f.proc_id as int, caller, f.ip as int));
        }
        assert forall|i: int| 0 <= i < u.frames.len() implies frame_typed(
            t,
            u.closures,
            #[trigger] u.frames[i],
        ) && saved_ok(procs, t, u.frames[i], callee_of(u, i)) by {
            assert(frame_typed(t, s.closures, s.frames[i]) && saved_ok(
                procs,
                t,
                s.frames[i],
                callee_of(s, i),
            ));
            assert(u.frames[i] == s.frames[i]);
        }
        if s.frames.len() > 1 {
            assert(u.frames[0] == s.frames[0]);
        }
    }
}

/// The instruction of a binary operation on numbers.
pub open spec fn numeric_instr(op: Numeric, a: usize, b: usize) -> OpV {
    match op {
        Numeric::Add => OpV::Add(a, b),
        Numeric::Sub => OpV::Sub(a, b),
        Numeric::Mul => OpV::Mul(a, b),
        Numeric::Div => OpV::Div(a, b),
        Numeric::Mod => OpV::Mod(a, b),
        Numeric::Gt => OpV::Gt(a, b),
        Numeric::Lt => OpV::Lt(a, b),
    }
}

/// The instruction of a binary operation on truth values.
pub open spec fn logic_instr(op: Logic, a: usize, b: usize) -> OpV {
    match op {
        Logic::And => OpV::And(a, b),
        Logic::Or => OpV::Or(a, b),
        Logic::Xor => OpV::Xor(a, b),
    }
}

proof fn lemma_typed_set_data(procs: Seq<Proc>, t: Seq<Typing>, entry: usize, s: VmState, l: usize, v: Val)
    requires
        typed_program(procs, t),
        well_typed(procs, t, entry, s),
        s.current.proc_id < procs.len(),
        s.current.ip < code_of(procs, s.current.proc_id as int).len(),
        code_of(procs, s.current.proc_id as int)[s.current.ip as int] == OpV::SetLocalData(l, v),
    ensures
        op_set_data(s, l, v) matches Outcome::Next(u) ==> u.closures.len() >= s.closures.len() && (
        u.closures.len() <= usize::MAX ==> well_typed(procs, t, entry, u)),
{
    let q = s.current.proc_id as int;
    lemma_code_fits(procs, q);
    assert(instr_typed(t, q, code_of(procs, q), s.current.ip as int));
    if op_set_data(s, l, v) is Next && op_set_data(s, l, v)->Next_0.closures.len() <= usize::MAX {
        let u = op_set_data(s, l, v)->Next_0;
        assert(frame_typed(t, u.closures, u.current)) by {
            assert forall|j: int| 0 <= j < u.current.locals.len() implies fits_type(
                #[trigger] u.current.locals[j],
                t[q].slots[j],
            ) && (t[q].holds[j] is Some ==> u.current.locals[j] is Nil || is_closure_of(
                u.closures,
                u.current.locals[j],
                t[q].holds[j]->0.callee,
                t[q].holds[j]->0.captured,
            )) by {
                assert(fits_type(s.current.locals[j], t[q].slots[j]));
            }
        }
        lemma_sequel(procs, t, entry, s, u);
    }
}

proof fn lemma_typed_set_return(procs: Seq<Proc>, t: Seq<Typing>, entry: usize, s: VmState, l: usize)
    requires
        typed_program(procs, t),
        well_typed(procs, t, entry, s),
        s.current.proc_id < procs.len(),
        s.current.ip < code_of(procs, s.current.proc_id as int).len(),
        code_of(procs, s.current.proc_id as int)[s.current.ip as int] == OpV::SetLocalReturn(l),
    ensures
        op_set_return(s, l) matches Outcome::Next(u) ==> u.closures.len() >= s.closures.len() && (
        u.closures.len() <= usize::MAX ==> well_typed(procs, t, entry, u)),
{
    let q = s.current.proc_id as int;
    lemma_code_fits(procs, q);
    assert(instr_typed(t, q, code_of(procs, q), s.current.ip as int));
    if op_set_return(s, l) is Next && op_set_return(s, l)->Next_0.closures.len() <= usize::MAX {
        let u = op_set_return(s, l)->Next_0;
        assert(frame_typed(t, u.closures, u.current)) by {
            assert forall|j: int| 0 <= j < u.current.locals.len() implies fits_type(
                #[trigger] u.current.locals[j],
                t[q].slots[j],
            ) && (t[q].holds[j] is Some ==> u.current.locals[j] is Nil || is_closure_of(
                u.closures,
                u.current.locals[j],
                t[q].holds[j]->0.callee,
                t[q].holds[j]->0.captured,
            )) by {
                assert(fits_type(s.current.locals[j], t[q].slots[j]));
            }
        }
        lemma_sequel(procs, t, entry, s, u);
    }
}

proof fn lemma_typed_set_var(procs: Seq<Proc>, t: Seq<Typing>, entry: usize, s: VmState, src: usize, dest: usize)
    requires
        typed_program(procs, t),
        well_typed(procs, t, entry, s),
        s.current.proc_id < procs.len(),
        s.current.ip < code_of(procs, s.current.proc_id as int).len(),
        code_of(procs, s.current.proc_id as int)[s.current.ip as int] == (OpV::SetLocalVar { src, dest }),
    ensures
        op_set_var(s, src, dest) matches Outcome::Next(u) ==> u.closures.len() >= s.closures.len() && (
        u.closures.len() <= usize::MAX ==> well_typed(procs, t, entry, u)),
{
    let q = s.current.proc_id as int;
    lemma_code_fits(procs, q);
    assert(instr_typed(t, q, code_of(procs, q), s.current.ip as int));
    if op_set_var(s, src, dest) is Next && op_set_var(s, src, dest)->Next_0.closures.len() <= usize::MAX {
        let u = op_set_var(s, src, dest)->Next_0;
        assert(frame_typed(t, u.closures, u.current)) by {
            assert forall|j: int| 0 <= j < u.current.locals.len() implies fits_type(
                #[trigger] u.current.locals[j],
                t[q].slots[j],
            ) && (t[q].holds[j] is Some ==> u.current.locals[j] is Nil || is_closure_of(
                u.closures,
                u.current.locals[j],
                t[q].holds[j]->0.callee,
                t[q].holds[j]->0.captured,
            )) by {
                assert(fits_type(s.current.locals[j], t[q].slots[j]));
            }
        }
        lemma_sequel(procs, t, entry, s, u);
    }
}

proof fn lemma_typed_get_length(procs: Seq<Proc>, t: Seq<Typing>, entry: usize, s: VmState, l: usize)
    requires
        typed_program(procs, t),
        well_typed(procs, t, entry, s),
        s.current.proc_id < procs.len(),
        s.current.ip < code_of(procs, s.current.proc_id as int).len(),
        code_of(procs, s.current.proc_id as int)[s.current.ip as int] == OpV::GetLength(l),
    ensures
        op_get_length(s, l) matches Outcome::Next(u) ==> u.closures.len() >= s.closures.len() && (
        u.closures.len() <= usize::MAX ==> well_typed(procs, t, entry, u)),
{
    let q = s.current.proc_id as int;
    lemma_code_fits(procs, q);
    assert(instr_typed(t, q, code_of(procs, q), s.current.ip as int));
    if op_get_length(s, l) is Next && op_get_length(s, l)->Next_0.closures.len() <= usize::MAX {
        let u = op_get_length(s, l)->Next_0;
        lemma_sequel(procs, t, entry, s, u);
    }
}

proof fn lemma_typed_get_type(procs: Seq<Proc>, t: Seq<Typing>, entry: usize, s: VmState, l: usize)
    requires
        typed_program(procs, t),
        well_typed(procs, t, entry, s),
        s.current.proc_id < procs.len(),
        s.current.ip < code_of(procs, s.current.proc_id as int).len(),
        code_of(procs, s.current.proc_id as int)[s.current.ip as int] == OpV::GetType(l),
    ensures
        op_get_type(s, l) matches Outcome::Next(u) ==> u.closures.len() >= s.closures.len() && (
        u.closures.len() <= usize::MAX ==> well_typed(procs, t, entry, u)),
{
    let q = s.current.proc_id as int;
    lemma_code_fits(procs, q);
    assert(instr_typed(t, q, code_of(procs, q), s.current.ip as int));
    if op_get_type(s, l) is Next && op_get_type(s, l)->Next_0.closures.len() <= usize::MAX {
        let u = op_get_type(s, l)->Next_0;
        lemma_sequel(procs, t, entry, s, u);
    }
}

proof fn lemma_typed_is_nil(procs: Seq<Proc>, t: Seq<Typing>, entry: usize, s: VmState, l: usize)
    requires
        typed_program(procs, t),
        well_typed(procs, t, entry, s),
        s.current.proc_id < procs.len(),
        s.current.ip < code_of(procs, s.current.proc_id as int).len(),
        code_of(procs, s.current.proc_id as int)[s.current.ip as int] == OpV::IsNil(l),
    ensures
        op_is_nil(s, l) matches Outcome::Next(u) ==> u.closures.len() >= s.closures.len() && (
        u.closures.len() <= usize::MAX ==> well_typed(procs, t, entry, u)),
{
    let q = s.current.proc_id as int;
    lemma_code_fits(procs, q);
    assert(instr_typed(t, q, code_of(procs, q), s.current.ip as int));
    if op_is_nil(s, l) is Next && op_is_nil(s, l)->Next_0.closures.len() <= usize::MAX {
        let u = op_is_nil(s, l)->Next_0;
        lemma_sequel(procs, t, entry, s, u);
    }
}

proof fn lemma_typed_closure(procs: Seq<Proc>, t: Seq<Typing>, entry: usize, s: VmState, proc_id: usize, env: Seq<usize>)
    requires
        typed_program(procs, t),
        well_typed(procs, t, entry, s),
        s.current.proc_id < procs.len(),
        s.current.ip < code_of(procs, s.current.proc_id as int).len(),
        code_of(procs, s.current.proc_id as int)[s.current.ip as int] == (OpV::Closure { proc_id, env }),
    ensures
        op_closure(s, proc_id, env) matches Outcome::Next(u) ==> u.closures.len() >= s.closures.len() && (
        u.closures.len() <= usize::MAX ==> well_typed(procs, t, entry, u)),
{
    let q = s.current.proc_id as int;
    lemma_code_fits(procs, q);
    assert(instr_typed(t, q, code_of(procs, q), s.current.ip as int));
    if op_closure(s, proc_id, env) is Next && op_closure(s, proc_id, env)->Next_0.closures.len() <= usize::MAX {
        let u = op_closure(s, proc_id, env)->Next_0;
        lemma_read_all_typed(t[q].slots, s.current.locals, env);
        let vs = read_all(s.current.locals, env)->Ok_0;
        let c = ClosureV { proc_id, env: vs };
        assert(closure_typed(t, c)) by {
            assert forall|j: int| 0 <= j < vs.len() implies fits_type(
                #[trigger] vs[j],
                t[proc_id as int].slots[j],
            ) by {
                assert(env[j] < t[q].slots.len());
            }
        }
        assert(closures_typed(t, u.closures)) by {
            assert forall|h: int| 0 <= h < u.closures.len() implies closure_typed(
                t,
                #[trigger] u.closures[h],
            ) by {
                if h < s.closures.len() {
                    assert(u.closures[h] == s.closures[h]);
                }
            }
        }
        lemma_frame_kept(t, s.closures, u.closures, s.current);
        lemma_sequel(procs, t, entry, s, u);
    }
}

proof fn lemma_typed_cons(procs: Seq<Proc>, t: Seq<Typing>, entry: usize, s: VmState, sym_var: usize, params: Seq<usize>)
    requires
        typed_program(procs, t),
        well_typed(procs, t, entry, s),
        s.current.proc_id < procs.len(),
        s.current.ip < code_of(procs, s.current.proc_id as int).len(),
        code_of(procs, s.current.proc_id as int)[s.current.ip as int] == (OpV::Cons { sym_var, params }),
    ensures
        op_cons(s, sym_var, params) matches Outcome::Next(u) ==> u.closures.len() >= s.closures.len() && (
        u.closures.len() <= usize::MAX ==> well_typed(procs, t, entry, u)),
{
    let q = s.current.proc_id as int;
    lemma_code_fits(procs, q);
    assert(instr_typed(t, q, code_of(procs, q), s.current.ip as int));
    if op_cons(s, sym_var, params) is Next && op_cons(s, sym_var, params)->Next_0.closures.len() <= usize::MAX {
        let u = op_cons(s, sym_var, params)->Next_0;
        lemma_sequel(procs, t, entry, s, u);
    }
}

proof fn lemma_typed_coroutine(procs: Seq<Proc>, t: Seq<Typing>, entry: usize, s: VmState, proc_id: usize, params: Seq<usize>)
    requires
        typed_program(procs, t),
        well_typed(procs, t, entry, s),
        s.current.proc_id < procs.len(),
        s.current.ip < code_of(procs, s.current.proc_id as int).len(),
        code_of(procs, s.current.proc_id as int)[s.current.ip as int] == (OpV::Coroutine { proc_id, params }),
    ensures
        op_coroutine(s, proc_id, params) matches Outcome::Next(u) ==> u.closures.len() >= s.closures.len() && (
        u.closures.len() <= usize::MAX ==> well_typed(procs, t, entry, u)),
{
    let q = s.current.proc_id as int;
    lemma_code_fits(procs, q);
    assert(instr_typed(t, q, code_of(procs, q), s.current.ip as int));
    if op_coroutine(s, proc_id, params) is Next && op_coroutine(s, proc_id, params)->Next_0.closures.len() <= usize::MAX {
        let u = op_coroutine(s, proc_id, params)->Next_0;
        lemma_sequel(procs, t, entry, s, u);
    }
}

proof fn lemma_typed_dyn_coroutine(procs: Seq<Proc>, t: Seq<Typing>, entry: usize, s: VmState, local: usize, params: Seq<usize>)
    requires
        typed_program(procs, t),
        well_typed(procs, t, entry, s),
        s.current.proc_id < procs.len(),
        s.current.ip < code_of(procs, s.current.proc_id as int).len(),
        code_of(procs, s.current.proc_id as int)[s.current.ip as int] == (OpV::DynCoroutine { local, params }),
    ensures
        op_dyn_coroutine(s, local, params) matches Outcome::Next(u) ==> u.closures.len() >= s.closures.len() && (
        u.closures.len() <= usize::MAX ==> well_typed(procs, t, entry, u)),
{
    let q = s.current.proc_id as int;
    lemma_code_fits(procs, q);
    assert(instr_typed(t, q, code_of(procs, q), s.current.ip as int));
    if op_dyn_coroutine(s, local, params) is Next && op_dyn_coroutine(s, local, params)->Next_0.closures.len() <= usize::MAX {
        let u = op_dyn_coroutine(s, local, params)->Next_0;
        lemma_sequel(procs, t, entry, s, u);
    }
}

proof fn lemma_typed_delete(procs: Seq<Proc>, t: Seq<Typing>, entry: usize, s: VmState, l: usize)
    requires
        typed_program(procs, t),
        well_typed(procs, t, entry, s),
        s.current.proc_id < procs.len(),
        s.current.ip < code_of(procs, s.current.proc_id as int).len(),
        code_of(procs, s.current.proc_id as int)[s.current.ip as int] == OpV::Delete(l),
    ensures
        op_delete(s, l) matches Outcome::Next(u) ==> u.closures.len() >= s.closures.len() && (
        u.closures.len() <= usize::MAX ==> well_typed(procs, t, entry, u)),
{
    let q = s.current.proc_id as int;
    lemma_code_fits(procs, q);
    assert(instr_typed(t, q, code_of(procs, q), s.current.ip as int));
    if op_delete(s, l) is Next && op_delete(s, l)->Next_0.closures.len() <= usize::MAX {
        let u = op_delete(s, l)->Next_0;
        lemma_sequel(procs, t, entry, s, u);
    }
}

proof fn lemma_typed_insert_slot(procs: Seq<Proc>, t: Seq<Typing>, entry: usize, s: VmState, dest: usize, src: usize, index: usize)
    requires
        typed_program(procs, t),
        well_typed(procs, t, entry, s),
        s.current.proc_id < procs.len(),
        s.current.ip < code_of(procs, s.current.proc_id as int).len(),
        code_of(procs, s.current.proc_id as int)[s.current.ip as int] == (OpV::InsertSlot { dest, src, index }),
    ensures
        op_insert_slot(s, dest, src, index) matches Outcome::Next(u) ==> u.closures.len() >= s.closures.len() && (
        u.closures.len() <= usize::MAX ==> well_typed(procs, t, entry, u)),
{
    let q = s.current.proc_id as int;
    lemma_code_fits(procs, q);
    assert(instr_typed(t, q, code_of(procs, q), s.current.ip as int));
    if op_insert_slot(s, dest, src, index) is Next && op_insert_slot(s, dest, src, index)->Next_0.closures.len() <= usize::MAX {
        let u = op_insert_slot(s, dest, src, index)->Next_0;
        lemma_sequel(procs, t, entry, s, u);
    }
}

proof fn lemma_typed_remove_slot(procs: Seq<Proc>, t: Seq<Typing>, entry: usize, s: VmState, local: usize, index: usize)
    requires
        typed_program(procs, t),
        well_typed(procs, t, entry, s),
        s.current.proc_id < procs.len(),
        s.current.ip < code_of(procs, s.current.proc_id as int).len(),
        code_of(procs, s.current.proc_id as int)[s.current.ip as int] == (OpV::RemoveSlot { local, index }),
    ensures
        op_remove_slot(s, local, index) matches Outcome::Next(u) ==> u.closures.len() >= s.closures.len() && (
        u.closures.len() <= usize::MAX ==> well_typed(procs, t, entry, u)),
{
    let q = s.current.proc_id as int;
    lemma_code_fits(procs, q);
    assert(instr_typed(t, q, code_of(procs, q), s.current.ip as int));
    if op_remove_slot(s, local, index) is Next && op_remove_slot(s, local, index)->Next_0.closures.len() <= usize::MAX {
        let u = op_remove_slot(s, local, index)->Next_0;
        lemma_sequel(procs, t, entry, s, u);
    }
}

proof fn lemma_typed_numeric(procs: Seq<Proc>, t: Seq<Typing>, entry: usize, s: VmState, op: Numeric, a: usize, b: usize)
    requires
        typed_program(procs, t),
        well_typed(procs, t, entry, s),
        s.current.proc_id < procs.len(),
        s.current.ip < code_of(procs, s.current.proc_id as int).len(),
        code_of(procs, s.current.proc_id as int)[s.current.ip as int] == numeric_instr(op, a, b),
    ensures
        op_numeric(s, op, a, b) matches Outcome::Next(u) ==> u.closures.len() >= s.closures.len() && (
        u.closures.len() <= usize::MAX ==> well_typed(procs, t, entry, u)),
{
    let q = s.current.proc_id as int;
    lemma_code_fits(procs, q);
    assert(instr_typed(t, q, code_of(procs, q), s.current.ip as int));
    if op_numeric(s, op, a, b) is Next && op_numeric(s, op, a, b)->Next_0.closures.len() <= usize::MAX {
        let u = op_numeric(s, op, a, b)->Next_0;
        assert(fits_type(s.current.locals[a as int], t[q].slots[a as int]));
        lemma_sequel(procs, t, entry, s, u);
    }
}

proof fn lemma_typed_neg(procs: Seq<Proc>, t: Seq<Typing>, entry: usize, s: VmState, a: usize)
    requires
        typed_program(procs, t),
        well_typed(procs, t, entry, s),
        s.current.proc_id < procs.len(),
        s.current.ip < code_of(procs, s.current.proc_id as int).len(),
        code_of(procs, s.current.proc_id as int)[s.current.ip as int] == OpV::Neg(a),
    ensures
        op_neg(s, a) matches Outcome::Next(u) ==> u.closures.len() >= s.closures.len() && (
        u.closures.len() <= usize::MAX ==> well_typed(procs, t, entry, u)),
{
    let q = s.current.proc_id as int;
    lemma_code_fits(procs, q);
    assert(instr_typed(t, q, code_of(procs, q), s.current.ip as int));
    if op_neg(s, a) is Next && op_neg(s, a)->Next_0.closures.len() <= usize::MAX {
        let u = op_neg(s, a)->Next_0;
        assert(fits_type(s.current.locals[a as int], t[q].slots[a as int]));
        lemma_sequel(procs, t, entry, s, u);
    }
}

proof fn lemma_typed_eq(procs: Seq<Proc>, t: Seq<Typing>, entry: usize, s: VmState, a: usize, b: usize)
    requires
        typed_program(procs, t),
        well_typed(procs, t, entry, s),
        s.current.proc_id < procs.len(),
        s.current.ip < code_of(procs, s.current.proc_id as int).len(),
        code_of(procs, s.current.proc_id as int)[s.current.ip as int] == OpV::Eq(a, b),
    ensures
        op_eq(s, a, b) matches Outcome::Next(u) ==> u.closures.len() >= s.closures.len() && (
        u.closures.len() <= usize::MAX ==> well_typed(procs, t, entry, u)),
{
    let q = s.current.proc_id as int;
    lemma_code_fits(procs, q);
    assert(instr_typed(t, q, code_of(procs, q), s.current.ip as int));
    if op_eq(s, a, b) is Next && op_eq(s, a, b)->Next_0.closures.len() <= usize::MAX {
        let u = op_eq(s, a, b)->Next_0;
        lemma_sequel(procs, t, entry, s, u);
    }
}

proof fn lemma_typed_logic(procs: Seq<Proc>, t: Seq<Typing>, entry: usize, s: VmState, op: Logic, a: usize, b: usize)
    requires
        typed_program(procs, t),
        well_typed(procs, t, entry, s),
        s.current.proc_id < procs.len(),
        s.current.ip < code_of(procs, s.current.proc_id as int).len(),
        code_of(procs, s.current.proc_id as int)[s.current.ip as int] == logic_instr(op, a, b),
    ensures
        op_logic(s, op, a, b) matches Outcome::Next(u) ==> u.closures.len() >= s.closures.len() && (
        u.closures.len() <= usize::MAX ==> well_typed(procs, t, entry, u)),
{
    let q = s.current.proc_id as int;
    lemma_code_fits(procs, q);
    assert(instr_typed(t, q, code_of(procs, q), s.current.ip as int));
    if op_logic(s, op, a, b) is Next && op_logic(s, op, a, b)->Next_0.closures.len() <= usize::MAX {
        let u = op_logic(s, op, a, b)->Next_0;
        lemma_sequel(procs, t, entry, s, u);
    }
}

proof fn lemma_typed_not(procs: Seq<Proc>, t: Seq<Typing>, entry: usize, s: VmState, a: usize)
    requires
        typed_program(procs, t),
        well_typed(procs, t, entry, s),
        s.current.proc_id < procs.len(),
        s.current.ip < code_of(procs, s.current.proc_id as int).len(),
        code_of(procs, s.current.proc_id as int)[s.current.ip as int] == OpV::Not(a),
    ensures
        op_not(s, a) matches Outcome::Next(u) ==> u.closures.len() >= s.closures.len() && (
        u.closures.len() <= usize::MAX ==> well_typed(procs, t, entry, u)),
{
    let q = s.current.proc_id as int;
    lemma_code_fits(procs, q);
    assert(instr_typed(t, q, code_of(procs, q), s.current.ip as int));
    if op_not(s, a) is Next && op_not(s, a)->Next_0.closures.len() <= usize::MAX {
        let u = op_not(s, a)->Next_0;
        lemma_sequel(procs, t, entry, s, u);
    }
}

proof fn lemma_typed_to_string(procs: Seq<Proc>, t: Seq<Typing>, entry: usize, s: VmState, a: usize)
    requires
        typed_program(procs, t),
        well_typed(procs, t, entry, s),
        s.current.proc_id < procs.len(),
        s.current.ip < code_of(procs, s.current.proc_id as int).len(),
        code_of(procs, s.current.proc_id as int)[s.current.ip as int] == OpV::ToString(a),
    ensures
        op_to_string(s, a) matches Outcome::Next(u) ==> u.closures.len() >= s.closures.len() && (
        u.closures.len() <= usize::MAX ==> well_typed(procs, t, entry, u)),
{
    let q = s.current.proc_id as int;
    lemma_code_fits(procs, q);
    assert(instr_typed(t, q, code_of(procs, q), s.current.ip as int));
    if op_to_string(s, a) is Next && op_to_string(s, a)->Next_0.closures.len() <= usize::MAX {
        let u = op_to_string(s, a)->Next_0;
        lemma_sequel(procs, t, entry, s, u);
    }
}

proof fn lemma_typed_concat(procs: Seq<Proc>, t: Seq<Typing>, entry: usize, s: VmState, a: usize, b: usize)
    requires
        typed_program(procs, t),
        well_typed(procs, t, entry, s),
        s.current.proc_id < procs.len(),
        s.current.ip < code_of(procs, s.current.proc_id as int).len(),
        code_of(procs, s.current.proc_id as int)[s.current.ip as int] == OpV::Concat(a, b),
    ensures
        op_concat(s, a, b) matches Outcome::Next(u) ==> u.closures.len() >= s.closures.len() && (
        u.closures.len() <= usize::MAX ==> well_typed(procs, t, entry, u)),
{
    let q = s.current.proc_id as int;
    lemma_code_fits(procs, q);
    assert(instr_typed(t, q, code_of(procs, q), s.current.ip as int));
    if op_concat(s, a, b) is Next && op_concat(s, a, b)->Next_0.closures.len() <= usize::MAX {
        let u = op_concat(s, a, b)->Next_0;
        lemma_sequel(procs, t, entry, s, u);
    }
}

/// One instruction keeps a well typed state well typed, as long as there
/// are no more closures than the machine can number, and what the oldest
/// frame returns fits the return type of its procedure.
pub proof fn lemma_step_typed(procs: Seq<Proc>, t: Seq<Typing>, entry: usize, s: VmState)
    requires
        typed_program(procs, t),
        well_typed(procs, t, entry, s),
    ensures
        step(procs, s) matches Outcome::Next(u) ==> u.closures.len() >= s.closures.len() && (
        u.closures.len() <= usize::MAX ==> well_typed(procs, t, entry, u)),
        step(procs, s) matches Outcome::Halt(v) ==> fits_type(v, t[entry as int].ret),
{
    reveal(step);
    if s.current.proc_id < procs.len() && s.current.ip < procs[s.current.proc_id as int].instrs@.len() {
        let q = s.current.proc_id as int;
        let code = code_of(procs, q);
        let op = procs[q].instrs@[s.current.ip as int];
        lemma_code_fits(procs, q);
        assert(instr_typed(t, q, code, s.current.ip as int));
        assert(code[s.current.ip as int] == op@);
        match op {
            Op::Call(p, a) => {
                if step(procs, s) is Next {
                    lemma_called(procs, t, entry, s, p, a@);
                }
            },
            Op::DynCall(l, a) => {
                if step(procs, s) is Next {
                    lemma_dyn_called(procs, t, entry, s, l, a@);
                }
            },
            Op::ReturnLocal(l) => lemma_returned(procs, t, entry, s, l),
            Op::Jump(i) => lemma_jumped(procs, t, entry, s, step(procs, s)->Next_0),
            Op::BranchTrue { label, local } => {
                if step(procs, s) is Next {
                    let u = step(procs, s)->Next_0;
                    if u.current.ip == label {
                        lemma_jumped(procs, t, entry, s, u);
                    } else {
                        lemma_sequel(procs, t, entry, s, u);
                    }
                }
            },
            Op::SetLocalData(l, v) => lemma_typed_set_data(procs, t, entry, s, l, v@),
            Op::SetLocalFloat(l, x) => {},
            Op::SetLocalReturn(l) => lemma_typed_set_return(procs, t, entry, s, l),
            Op::SetLocalVar { src, dest } => lemma_typed_set_var(procs, t, entry, s, src, dest),
            Op::GetLength(l) => lemma_typed_get_length(procs, t, entry, s, l),
            Op::GetType(l) => lemma_typed_get_type(procs, t, entry, s, l),
            Op::IsNil(l) => lemma_typed_is_nil(procs, t, entry, s, l),
            Op::Closure { proc_id, env } => lemma_typed_closure(procs, t, entry, s, proc_id, env@),
            Op::Cons { sym_var, params } => lemma_typed_cons(procs, t, entry, s, sym_var, params@),
            Op::Coroutine { proc_id, params } => lemma_typed_coroutine(
                procs,
                t,
                entry,
                s,
                proc_id,
                params@,
            ),
            Op::DynCoroutine { local, params } => lemma_typed_dyn_coroutine(
                procs,
                t,
                entry,
                s,
                local,
                params@,
            ),
            Op::Delete(l) => lemma_typed_delete(procs, t, entry, s, l),
            Op::InsertSlot { dest, src, index } => lemma_typed_insert_slot(
                procs,
                t,
                entry,
                s,
                dest,
                src,
                index,
            ),
            Op::RemoveSlot { local, index } => lemma_typed_remove_slot(
                procs,
                t,
                entry,
                s,
                local,
                index,
            ),
            Op::Nop => lemma_sequel(procs, t, entry, s, advance(s)),
            Op::Add(a, b) => lemma_typed_numeric(procs, t, entry, s, Numeric::Add, a, b),
            Op::Sub(a, b) => lemma_typed_numeric(procs, t, entry, s, Numeric::Sub, a, b),
            Op::Mul(a, b) => lemma_typed_numeric(procs, t, entry, s, Numeric::Mul, a, b),
            Op::Div(a, b) => lemma_typed_numeric(procs, t, entry, s, Numeric::Div, a, b),
            Op::Mod(a, b) => lemma_typed_numeric(procs, t, entry, s, Numeric::Mod, a, b),
            Op::Gt(a, b) => lemma_typed_numeric(procs, t, entry, s, Numeric::Gt, a, b),
            Op::Lt(a, b) => lemma_typed_numeric(procs, t, entry, s, Numeric::Lt, a, b),
            Op::Neg(a) => lemma_typed_neg(procs, t, entry, s, a),
            Op::Eq(a, b) => lemma_typed_eq(procs, t, entry, s, a, b),
            Op::And(a, b) => lemma_typed_logic(procs, t, entry, s, Logic::And, a, b),
            Op::Or(a, b) => lemma_typed_logic(procs, t, entry, s, Logic::Or, a, b),
            Op::Xor(a, b) => lemma_typed_logic(procs, t, entry, s, Logic::Xor, a, b),
            Op::Not(a) => lemma_typed_not(procs, t, entry, s, a),
            Op::ToString(a) => lemma_typed_to_string(procs, t, entry, s, a),
            Op::Concat(a, b) => lemma_typed_concat(procs, t, entry, s, a, b),
            Op::Yield(l) => {},
            Op::Break => {},
            Op::GetSlot { local, index } => {},
            Op::Resume(l) => {},
        }
    }
}

/// An answer of the host that fits the question keeps a well typed state
/// well typed.
#[verifier::rlimit(60)]
pub proof fn lemma_answer_typed(procs: Seq<Proc>, t: Seq<Typing>, entry: usize, s: VmState, v: Val)
    requires
        typed_program(procs, t),
        well_typed(procs, t, entry, s),
        step(procs, s) is Ask,
        fits(step(procs, s)->Ask_0, v),
    ensures
        answered(procs, s, v) matches Outcome::Next(u) && well_typed(procs, t, entry, u),
{
    reveal(step);
    let q = s.current.proc_id as int;
    let code = code_of(procs, q);
    let op = procs[q].instrs@[s.current.ip as int];
    lemma_code_fits(procs, q);
    assert(instr_typed(t, q, code, s.current.ip as int));
    assert(code[s.current.ip as int] == op@);
    let u = answered(procs, s, v)->Next_0;
    match op {
        Op::SetLocalFloat(l, x) => {
            assert(frame_typed(t, u.closures, u.current)) by {
                assert forall|j: int| 0 <= j < u.current.locals.len() implies fits_type(
                    #[trigger] u.current.locals[j],
                    t[q].slots[j],
                ) && (t[q].holds[j] is Some ==> u.current.locals[j] is Nil || is_closure_of(
                    u.closures,
                    u.current.locals[j],
                    t[q].holds[j]->0.callee,
                    t[q].holds[j]->0.captured,
                )) by {
                    assert(fits_type(s.current.locals[j], t[q].slots[j]));
                }
            }
            lemma_sequel(procs, t, entry, s, u);
        },
        Op::Add(a, b) | Op::Sub(a, b) | Op::Mul(a, b) | Op::Div(a, b) | Op::Mod(a, b) => {
            assert(fits_type(s.current.locals[a as int], t[q].slots[a as int]));
            lemma_sequel(procs, t, entry, s, u);
        },
        Op::Neg(a) => {
            assert(fits_type(s.current.locals[a as int], t[q].slots[a as int]));
            lemma_sequel(procs, t, entry, s, u);
        },
        Op::Gt(a, b) | Op::Lt(a, b) | Op::Eq(a, b) => {
            lemma_sequel(procs, t, entry, s, u);
        },
        Op::ToString(a) => {
            lemma_sequel(procs, t, entry, s, u);
        },
        _ => {},
    }
}

/// A run forgets no closure.
pub proof fn lemma_run_keeps_closures(procs: Seq<Proc>, s: VmState, fuel: nat)
    ensures
        run(procs, s, fuel).0.closures.len() >= s.closures.len(),
    decreases fuel,
{
    if fuel > 0 {
        match step(procs, s) {
            Outcome::Next(u) => {
                lemma_step_keeps_closures(procs, s);
                lemma_run_keeps_closures(procs, u, (fuel - 1) as nat);
            },
            _ => {},
        }
    }
}

/// One instruction forgets no closure.
pub proof fn lemma_step_keeps_closures(procs: Seq<Proc>, s: VmState)
    ensures
        step(procs, s) matches Outcome::Next(u) ==> u.closures.len() >= s.closures.len(),
{
    reveal(step);
}

/// A run keeps a well typed state well typed, and a value that it halts
/// with fits the return type of the procedure it began in, as long as
/// there are no more closures than the machine can number.
pub proof fn lemma_run_typed(
    procs: Seq<Proc>,
    t: Seq<Typing>,
    entry: usize,
    s: VmState,
    fuel: nat,
)
    requires
        typed_program(procs, t),
        well_typed(procs, t, entry, s),
        run(procs, s, fuel).0.closures.len() <= usize::MAX,
    ensures
        well_typed(procs, t, entry, run(procs, s, fuel).0),
        run(procs, s, fuel).1 matches Ending::Halt(v) ==> fits_type(v, t[entry as int].ret),
    decreases fuel,
{
    if fuel > 0 {
        lemma_step_typed(procs, t, entry, s);
        match step(procs, s) {
            Outcome::Next(u) => {
                lemma_run_keeps_closures(procs, u, (fuel - 1) as nat);
                lemma_run_typed(procs, t, entry, u, (fuel - 1) as nat);
            },
            _ => {},
        }
    }
}

} // verus!
