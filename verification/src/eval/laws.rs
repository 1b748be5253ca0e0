use vstd::prelude::*;
use super::data::{CellV, CoV, FrameV, Op, Proc, Val};
use super::model::{
    allocate, cell_at, free_address, op_cons, op_delete, op_resume, Outcome, produce, read_all,
    step, stepped, VmState,
};
use super::vm::lemma_free_address;

verus! {

/// Whether no address below `a` is free.
pub open spec fn full_below(heap: Seq<CellV>, a: int) -> bool {
    forall|j: int| 0 <= j < a && j < heap.len() ==> !(#[trigger] heap[j] is Nil)
}

/// The address of a cell that was freed is the next to be given out, and
/// the new cell takes the freed one's place, where no lower address is
/// free.
pub proof fn lemma_freed_address_is_reused(heap: Seq<CellV>, a: int, cell: CellV)
    requires
        0 <= a < heap.len(),
        full_below(heap, a),
    ensures
        free_address(heap.update(a, CellV::Nil)) == a,
        allocate(heap.update(a, CellV::Nil), cell) == heap.update(a, cell),
{
    let freed = heap.update(a, CellV::Nil);
    lemma_free_address(freed);
    let f = free_address(freed);
    if f < a {
        assert(freed[f] == heap[f]);
    }
    if f > a {
        assert(freed[a] is Nil);
    }
    assert(freed.update(a, cell) =~= heap.update(a, cell));
}

/// `Delete` then `Cons`: where `Delete` of the cell at address `a`
/// succeeds and no lower address is free, a `Cons` that follows and
/// succeeds produces `Ref(a)` and puts its cell at `a`.
pub proof fn lemma_delete_then_cons(
    s: VmState,
    local: usize,
    sym_var: usize,
    params: Seq<usize>,
)
    requires
        op_delete(s, local) is Next,
        full_below(s.heap, cell_at(s, local)->Ok_0 as int),
        op_cons(op_delete(s, local)->Next_0, sym_var, params) is Next,
    ensures
        op_cons(op_delete(s, local)->Next_0, sym_var, params)->Next_0.ret == Some(
            Val::Ref(cell_at(s, local)->Ok_0),
        ),
        op_cons(op_delete(s, local)->Next_0, sym_var, params)->Next_0.heap[cell_at(
            s,
            local,
        )->Ok_0 as int] is Cons,
{
    let a = cell_at(s, local)->Ok_0;
    let t = op_delete(s, local)->Next_0;
    let args = read_all(t.current.locals, params)->Ok_0;
    let name = t.current.locals[sym_var as int]->Symbol_0;
    lemma_freed_address_is_reused(s.heap, a as int, CellV::Cons { name, params: args });
}

/// The state after `n` instructions from `s`, where each of them leads to
/// a next state.
pub open spec fn after(procs: Seq<Proc>, s: VmState, n: nat) -> Option<VmState>
    decreases n,
{
    if n == 0 {
        Some(s)
    } else {
        match after(procs, s, (n - 1) as nat) {
            Some(t) => match step(procs, t) {
                Outcome::Next(u) => Some(u),
                _ => None,
            },
            None => None,
        }
    }
}

/// Whether `t` may follow `s` as to the saved frames: they stay, or the
/// current frame is saved one instruction further, or the youngest saved
/// frame becomes current.
pub open spec fn frames_step(s: VmState, t: VmState) -> bool {
    t.frames == s.frames || t.frames == s.frames.push(stepped(s.current)) || (s.frames.len() > 0
        && t.frames == s.frames.drop_last() && t.current == s.frames.last())
}

/// Whether `t` may follow `s` as to the running coroutines: they stay, or
/// one is entered, or the youngest is left.
pub open spec fn running_step(s: VmState, t: VmState) -> bool {
    t.running == s.running || (t.running.len() == s.running.len() + 1 && t.running.drop_last()
        =~= s.running) || (s.running.len() > 0 && t.running == s.running.drop_last())
}

/// One instruction saves or restores at most one frame, enters or leaves
/// at most one coroutine, and forgets no coroutine.
pub proof fn lemma_step_discipline(procs: Seq<Proc>, s: VmState)
    requires
        step(procs, s) is Next,
    ensures
        frames_step(s, step(procs, s)->Next_0),
        running_step(s, step(procs, s)->Next_0),
        step(procs, s)->Next_0.coroutines.len() >= s.coroutines.len(),
{
    reveal(step);
}

/// Whether the machine stays inside what was entered at `n` saved frames
/// and `r` running coroutines, for `k` instructions from `s`: after each
/// of them no fewer frames are saved and no fewer coroutines run.
pub open spec fn stays_inside(procs: Seq<Proc>, s: VmState, k: nat, n: nat, r: nat) -> bool {
    forall|m: nat| m <= k ==> inside(#[trigger] after(procs, s, m), n, r)
}

/// Whether a state exists, with no fewer than `n` saved frames and `r`
/// running coroutines.
pub open spec fn inside(t: Option<VmState>, n: nat, r: nat) -> bool {
    t is Some && t->0.frames.len() >= n && t->0.running.len() >= r
}

/// While the machine stays inside, the frames that were saved and the
/// coroutines that ran on entry stay as they were, and no coroutine is
/// forgotten.
pub proof fn lemma_stays_inside(procs: Seq<Proc>, s: VmState, k: nat, n: nat, r: nat)
    requires
        stays_inside(procs, s, k, n, r),
    ensures
        after(procs, s, k)->0.frames.take(n as int) == s.frames.take(n as int),
        after(procs, s, k)->0.running.take(r as int) == s.running.take(r as int),
        after(procs, s, k)->0.coroutines.len() >= s.coroutines.len(),
    decreases k,
{
    assert(inside(after(procs, s, 0), n, r));
    if k > 0 {
        let j = (k - 1) as nat;
        assert forall|m: nat| m <= j implies inside(#[trigger] after(procs, s, m), n, r) by {
            assert(m <= k);
        }
        lemma_stays_inside(procs, s, j, n, r);
        assert(inside(after(procs, s, j), n, r));
        assert(inside(after(procs, s, k), n, r));
        let a = after(procs, s, j)->0;
        let b = after(procs, s, k)->0;
        lemma_step_discipline(procs, a);
        assert(b.frames.take(n as int) =~= a.frames.take(n as int));
        assert(b.running.take(r as int) =~= a.running.take(r as int));
    }
}

/// The round trip of a resume that ends in a yield. Let `s` be about to
/// resume a coroutine that has not ended, from the slot `local`. Let the
/// machine, once it has entered the coroutine, execute `k` instructions
/// inside it and then stand, with no more frames saved and no more
/// coroutines running than on entry, at a `Yield` of the slot `l`. Then
/// that `Yield` gives the resumer the value of `l` in the return
/// register, makes the resumer's frame current again, one instruction
/// after its `Resume`, and leaves the coroutine suspended after the
/// `Yield`.
pub proof fn lemma_resume_then_yield(
    procs: Seq<Proc>,
    s: VmState,
    local: usize,
    k: nat,
    l: usize,
)
    requires
        s.current.proc_id < procs.len(),
        s.current.ip < procs[s.current.proc_id as int].instrs.len(),
        procs[s.current.proc_id as int].instrs[s.current.ip as int] == Op::Resume(local),
        local < s.current.locals.len(),
        s.current.locals[local as int] is Coroutine,
        s.current.locals[local as int]->Coroutine_0 < s.coroutines.len(),
        !(s.coroutines[s.current.locals[local as int]->Coroutine_0 as int] is Ended),
        step(procs, s) is Next,
        stays_inside(
            procs,
            step(procs, s)->Next_0,
            k,
            s.frames.len() + 1,
            s.running.len() + 1,
        ),
        ({
            let t = after(procs, step(procs, s)->Next_0, k)->0;
            &&& t.frames.len() == s.frames.len() + 1
            &&& t.running.len() == s.running.len() + 1
            &&& t.current.proc_id < procs.len()
            &&& t.current.ip < procs[t.current.proc_id as int].instrs.len()
            &&& procs[t.current.proc_id as int].instrs[t.current.ip as int] == Op::Yield(l)
            &&& l < t.current.locals.len()
        }),
    ensures
        ({
            let h = s.current.locals[local as int]->Coroutine_0;
            let t = after(procs, step(procs, s)->Next_0, k)->0;
            &&& step(procs, t) matches Outcome::Next(u) && u.ret == Some(
                t.current.locals[l as int],
            ) && u.current == stepped(s.current) && u.frames == s.frames && u.running
                == s.running && u.coroutines[h as int] == CoV::Active(stepped(t.current))
        }),
{
    reveal(step);
    let h = s.current.locals[local as int]->Coroutine_0;
    let e = step(procs, s)->Next_0;
    let n = s.frames.len() + 1;
    let r = s.running.len() + 1;
    lemma_stays_inside(procs, e, k, n, r);
    let t = after(procs, e, k)->0;
    assert(e.frames == s.frames.push(stepped(s.current)));
    assert(e.running == s.running.push(h));
    assert(t.frames =~= e.frames) by {
        assert(t.frames.take(n as int) =~= t.frames);
        assert(e.frames.take(n as int) =~= e.frames);
    }
    assert(t.running =~= e.running) by {
        assert(t.running.take(r as int) =~= t.running);
        assert(e.running.take(r as int) =~= e.running);
    }
    let u = step(procs, t)->Next_0;
    assert(u.frames =~= s.frames);
    assert(u.running =~= s.running);
}

/// The round trip of a resume that ends in a break: as
/// `lemma_resume_then_yield`, where the coroutine stands at a `Break`.
/// The resumer gets `Nil`, and the coroutine has ended.
pub proof fn lemma_resume_then_break(procs: Seq<Proc>, s: VmState, local: usize, k: nat)
    requires
        s.current.proc_id < procs.len(),
        s.current.ip < procs[s.current.proc_id as int].instrs.len(),
        procs[s.current.proc_id as int].instrs[s.current.ip as int] == Op::Resume(local),
        local < s.current.locals.len(),
        s.current.locals[local as int] is Coroutine,
        s.current.locals[local as int]->Coroutine_0 < s.coroutines.len(),
        !(s.coroutines[s.current.locals[local as int]->Coroutine_0 as int] is Ended),
        step(procs, s) is Next,
        stays_inside(
            procs,
            step(procs, s)->Next_0,
            k,
            s.frames.len() + 1,
            s.running.len() + 1,
        ),
        ({
            let t = after(procs, step(procs, s)->Next_0, k)->0;
            &&& t.frames.len() == s.frames.len() + 1
            &&& t.running.len() == s.running.len() + 1
            &&& t.current.proc_id < procs.len()
            &&& t.current.ip < procs[t.current.proc_id as int].instrs.len()
            &&& procs[t.current.proc_id as int].instrs[t.current.ip as int] == Op::Break
        }),
    ensures
        ({
            let h = s.current.locals[local as int]->Coroutine_0;
            let t = after(procs, step(procs, s)->Next_0, k)->0;
            &&& step(procs, t) matches Outcome::Next(u) && u.ret == Some(Val::Nil) && u.current
                == stepped(s.current) && u.frames == s.frames && u.running == s.running
                && u.coroutines[h as int] == CoV::Ended
        }),
{
    reveal(step);
    let h = s.current.locals[local as int]->Coroutine_0;
    let e = step(procs, s)->Next_0;
    let n = s.frames.len() + 1;
    let r = s.running.len() + 1;
    lemma_stays_inside(procs, e, k, n, r);
    let t = after(procs, e, k)->0;
    assert(e.frames == s.frames.push(stepped(s.current)));
    assert(e.running == s.running.push(h));
    assert(t.frames =~= e.frames) by {
        assert(t.frames.take(n as int) =~= t.frames);
        assert(e.frames.take(n as int) =~= e.frames);
    }
    assert(t.running =~= e.running) by {
        assert(t.running.take(r as int) =~= t.running);
        assert(e.running.take(r as int) =~= e.running);
    }
    let u = step(procs, t)->Next_0;
    assert(u.frames =~= s.frames);
    assert(u.running =~= s.running);
}

/// Resuming a suspended coroutine continues it where it yielded: its
/// frame becomes current as it was saved.
pub proof fn lemma_resume_continues(procs: Seq<Proc>, s: VmState, local: usize, frame: FrameV)
    requires
        local < s.current.locals.len(),
        s.current.locals[local as int] is Coroutine,
        s.current.locals[local as int]->Coroutine_0 < s.coroutines.len(),
        s.coroutines[s.current.locals[local as int]->Coroutine_0 as int] == CoV::Active(frame),
    ensures
        op_resume(procs, s, local) matches Outcome::Next(t) && t.current == frame,
{
}

/// Resuming a coroutine that has ended produces `Nil`, and the coroutine
/// stays ended.
pub proof fn lemma_resume_ended(procs: Seq<Proc>, s: VmState, local: usize)
    requires
        local < s.current.locals.len(),
        s.current.locals[local as int] is Coroutine,
        s.current.locals[local as int]->Coroutine_0 < s.coroutines.len(),
        s.coroutines[s.current.locals[local as int]->Coroutine_0 as int] is Ended,
    ensures
        op_resume(procs, s, local) == produce(s, Val::Nil),
        produce(s, Val::Nil)->Next_0.ret == Some(Val::Nil),
        produce(s, Val::Nil)->Next_0.coroutines == s.coroutines,
{
}

/// The instruction that the machine stands at, if it stands at one.
pub open spec fn standing_at(procs: Seq<Proc>, s: VmState) -> Option<Op> {
    if s.current.proc_id < procs.len() && s.current.ip < procs[s.current.proc_id as int].instrs@.len() {
        Some(procs[s.current.proc_id as int].instrs@[s.current.ip as int])
    } else {
        None
    }
}

/// Whether the machine stands at a `Resume` of a slot that holds the
/// coroutine `h`.
pub open spec fn resumes(procs: Seq<Proc>, s: VmState, h: usize) -> bool {
    standing_at(procs, s) matches Some(Op::Resume(local)) && local < s.current.locals.len()
        && s.current.locals[local as int] == Val::Coroutine(h) && h < s.coroutines.len()
}

/// The state that the machine reaches from `s` by its `Resume` and `n`
/// instructions more.
pub open spec fn reached(procs: Seq<Proc>, s: VmState, n: nat) -> VmState {
    after(procs, step(procs, s)->Next_0, n)->0
}

/// Whether the coroutine that is resumed from `s` executes `n`
/// instructions of its own and of what it calls and resumes, and then
/// stands where it was entered: with the frames saved and the coroutines
/// running that its entry left.
pub open spec fn runs_inside(procs: Seq<Proc>, s: VmState, n: nat) -> bool {
    stays_inside(procs, step(procs, s)->Next_0, n, s.frames.len() + 1, s.running.len() + 1)
        && reached(procs, s, n).frames.len() == s.frames.len() + 1 && reached(
        procs,
        s,
        n,
    ).running.len() == s.running.len() + 1
}

/// Whether the coroutine that is resumed from `s` executes `n`
/// instructions and then a `Yield` of a slot that holds `v`.
pub open spec fn yields(procs: Seq<Proc>, s: VmState, n: nat, v: Val) -> bool {
    &&& runs_inside(procs, s, n)
    &&& standing_at(procs, reached(procs, s, n)) matches Some(Op::Yield(l)) && l < reached(
        procs,
        s,
        n,
    ).current.locals.len() && reached(procs, s, n).current.locals[l as int] == v
}

/// Whether the coroutine that is resumed from `s` executes `n`
/// instructions and then a `Break`.
pub open spec fn breaks(procs: Seq<Proc>, s: VmState, n: nat) -> bool {
    runs_inside(procs, s, n) && standing_at(procs, reached(procs, s, n)) == Some(Op::Break)
}

/// The state in which the resumer goes on, after the coroutine that was
/// resumed from `s` has executed `n` instructions and a `Yield` or a
/// `Break`.
pub open spec fn handed(procs: Seq<Proc>, s: VmState, n: nat) -> VmState {
    step(procs, reached(procs, s, n))->Next_0
}

/// Whether the resume from `s` leaves `v` in the return register for the
/// resumer, which goes on one instruction after its `Resume`, with the
/// frames saved and the coroutines running as before.
pub open spec fn resume_leaves(procs: Seq<Proc>, s: VmState, n: nat, v: Val) -> bool {
    step(procs, reached(procs, s, n)) is Next && handed(procs, s, n).ret == Some(v) && handed(
        procs,
        s,
        n,
    ).current == stepped(s.current) && handed(procs, s, n).frames == s.frames && handed(
        procs,
        s,
        n,
    ).running == s.running
}

/// Whether, between the resume `i` and the next, nothing else has resumed
/// or replaced the coroutine `h`: the next resume finds it as resume `i`
/// left it.
pub open spec fn kept(
    procs: Seq<Proc>,
    h: usize,
    at: Seq<VmState>,
    inside: Seq<nat>,
    i: int,
) -> bool {
    at[i + 1].coroutines[h as int] == handed(procs, at[i], inside[i]).coroutines[h as int]
}

proof fn lemma_turns(
    procs: Seq<Proc>,
    h: usize,
    at: Seq<VmState>,
    inside: Seq<nat>,
    values: Seq<Val>,
    i: int,
)
    requires
        at.len() == values.len() + 1,
        inside.len() == at.len(),
        forall|j: int| 0 <= j < at.len() ==> resumes(procs, #[trigger] at[j], h),
        !(at[0].coroutines[h as int] is Ended),
        step(procs, at[0]) is Next,
        forall|j: int|
            0 <= j < values.len() ==> yields(procs, #[trigger] at[j], inside[j], values[j]),
        forall|j: int| 0 <= j < values.len() ==> #[trigger] kept(procs, h, at, inside, j),
        0 <= i <= values.len(),
    ensures
        !(at[i].coroutines[h as int] is Ended),
        step(procs, at[i]) is Next,
        forall|j: int|
            0 <= j < i ==> resume_leaves(procs, #[trigger] at[j], inside[j], values[j]),
    decreases i,
{
    if i > 0 {
        let j = i - 1;
        lemma_turns(procs, h, at, inside, values, j);
        let s = at[j];
        assert(resumes(procs, s, h));
        assert(yields(procs, s, inside[j], values[j]));
        let local = standing_at(procs, s)->0->Resume_0;
        let l = standing_at(procs, reached(procs, s, inside[j]))->0->Yield_0;
        lemma_resume_then_yield(procs, s, local, inside[j], l);
        assert(resume_leaves(procs, s, inside[j], values[j]));
        assert(kept(procs, h, at, inside, j));
        assert(resumes(procs, at[i], h));
        assert(at[i].coroutines[h as int] is Active);
        assert(step(procs, at[i]) is Next) by {
            reveal(step);
        }
    }
}

/// The round trip of a coroutine. Let the machine stand at a `Resume` of
/// the coroutine `h` in each of the states `at`, of which there is one
/// more than there are `values`. Let the coroutine, which has not ended
/// and can be entered at the first of them, execute after each resume but
/// the last some instructions and then a `Yield` of the value at the same
/// place in `values`, and after the last some instructions and then a
/// `Break`. Let nothing else resume or replace the coroutine between two
/// of these resumes. Then each resume but the last leaves the value at its
/// place in the return register for the resumer, the last leaves `Nil`,
/// each time the resumer goes on one instruction after its `Resume`, and
/// the coroutine has ended.
pub proof fn lemma_coroutine_round_trip(
    procs: Seq<Proc>,
    h: usize,
    at: Seq<VmState>,
    inside: Seq<nat>,
    values: Seq<Val>,
)
    requires
        at.len() == values.len() + 1,
        inside.len() == at.len(),
        forall|j: int| 0 <= j < at.len() ==> resumes(procs, #[trigger] at[j], h),
        !(at[0].coroutines[h as int] is Ended),
        step(procs, at[0]) is Next,
        forall|j: int|
            0 <= j < values.len() ==> yields(procs, #[trigger] at[j], inside[j], values[j]),
        breaks(procs, at[values.len() as int], inside[values.len() as int]),
        forall|j: int| 0 <= j < values.len() ==> #[trigger] kept(procs, h, at, inside, j),
    ensures
        forall|j: int|
            0 <= j < values.len() ==> resume_leaves(procs, #[trigger] at[j], inside[j], values[j]),
        resume_leaves(procs, at[values.len() as int], inside[values.len() as int], Val::Nil),
        handed(
            procs,
            at[values.len() as int],
            inside[values.len() as int],
        ).coroutines[h as int] == CoV::Ended,
{
    let k = values.len() as int;
    lemma_turns(procs, h, at, inside, values, k);
    let s = at[k];
    assert(resumes(procs, s, h));
    let local = standing_at(procs, s)->0->Resume_0;
    lemma_resume_then_break(procs, s, local, inside[k]);
}

} // verus!
