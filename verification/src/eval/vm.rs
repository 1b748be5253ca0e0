use vstd::prelude::*;
use super::data::{
    CellV, clone_values, Closure, Coroutine, CoV, Frame, FrameV, Heap, Op, Proc, RuntimeData, Val,
    views,
};
use super::error::{Fault, StackTrace, trace_view, VmError};
use super::model::{
    advance, allocate, answered, Ask, bool_op, call_site, cell_at, closure_at, Ending, enter,
    entered, fill, fits, float_op, FloatOp, free_address, int_op, kind_name, leave, Logic, Numeric,
    op_branch, op_call, op_closure, op_concat, op_cons, op_coroutine, op_delete, op_dyn_call,
    op_dyn_coroutine, op_eq, op_get_length, op_get_slot, op_get_type, op_insert_slot, op_is_nil,
    op_logic, op_neg, op_not, op_numeric, op_remove_slot, op_resume, op_return, op_set_data,
    op_set_return, op_set_var, op_to_string, op_yield, Outcome, proc_name, produce, read_all, run,
    step, stepped, store, text_of, trace_of, unexpected, VmState,
};
use crate::util::{push_decimal, push_int};

verus! {

/// A question of the machine to its host; see `Ask`.
#[derive(Debug, PartialEq)]
pub enum FloatRequest {
    Decode(String),
    Apply(FloatOp, u64, u64),
}

impl View for FloatRequest {
    type V = Ask;

    open spec fn view(&self) -> Ask {
        match self {
            FloatRequest::Decode(t) => Ask::Decode(t@),
            FloatRequest::Apply(op, a, b) => Ask::Apply(*op, *a, *b),
        }
    }
}

/// What one instruction did; see `Outcome`.
#[derive(Debug, PartialEq)]
pub enum Step {
    Continue,
    Halt(RuntimeData),
    Ask(FloatRequest),
}

/// Mathematical model of an optional value.
pub open spec fn opt_view(v: Option<RuntimeData>) -> Option<Val> {
    match v {
        Some(x) => Some(x@),
        None => None,
    }
}

/// Everything of the machine that changes while it runs.
pub struct Machine {
    pub heap: Vec<Heap>,
    pub frames: Vec<Frame>,
    pub current: Frame,
    pub closures: Vec<Closure>,
    pub coroutines: Vec<Coroutine>,
    pub running: Vec<usize>,
    pub ret: Option<RuntimeData>,
}

impl View for Machine {
    type V = VmState;

    open spec fn view(&self) -> VmState {
        VmState {
            frames: views(self.frames@),
            current: self.current@,
            heap: views(self.heap@),
            closures: views(self.closures@),
            coroutines: views(self.coroutines@),
            running: self.running@,
            ret: opt_view(self.ret),
        }
    }
}

/// Whether the result `r` of an instruction, which took the machine from
/// `pre` to `post`, is what `o` says: on anything but `Next` the machine is
/// unchanged, and an error carries the trace of `pre`.
pub open spec fn agrees(
    r: Result<Step, VmError>,
    pre: VmState,
    post: VmState,
    procs: Seq<Proc>,
    o: Outcome,
) -> bool {
    match o {
        Outcome::Next(t) => r matches Ok(Step::Continue) && post == t,
        Outcome::Halt(v) => r matches Ok(Step::Halt(x)) && x@ == v && post == pre,
        Outcome::Ask(q) => r matches Ok(Step::Ask(x)) && x@ == q && post == pre,
        Outcome::Fault(f) => r matches Err(e) && e.fault() == f && post == pre && e.trace()
            == trace_of(procs, pre),
    }
}

/// The name by which a value's type is reported.
pub fn kind(v: &RuntimeData) -> (r: &'static str)
    ensures
        r@ == kind_name(v@),
{
    match v {
        RuntimeData::Bool(_) => "bool",
        RuntimeData::Int(_) => "int",
        RuntimeData::Float(_) => "float",
        RuntimeData::Symbol(_) => "symbol",
        RuntimeData::Ref(_) => "ref",
        RuntimeData::Closure(_) => "closure",
        RuntimeData::Coroutine(_) => "coroutine",
        RuntimeData::String(_) => "string",
        RuntimeData::Nil => "nil",
    }
}

fn read_locals(locals: &Vec<RuntimeData>, idx: &Vec<usize>) -> (r: Result<Vec<RuntimeData>, usize>)
    ensures
        match read_all(views(locals@), idx@) {
            Ok(vs) => r matches Ok(x) && views(x@) == vs,
            Err(e) => r matches Err(i) && e == Fault::AccessMissingLocal(i),
        },
{
    let mut out: Vec<RuntimeData> = Vec::new();
    let mut i: usize = 0;
    assert(idx@.take(0) =~= Seq::empty());
    assert(views(out@) =~= Seq::empty());
    while i < idx.len()
        invariant
            i <= idx.len(),
            read_all(views(locals@), idx@.take(i as int)) == Ok::<Seq<Val>, Fault>(views(out@)),
        decreases idx.len() - i,
    {
        let k = idx[i];
        assert(idx@.take(i + 1).drop_last() =~= idx@.take(i as int));
        if k >= locals.len() {
            proof {
                lemma_read_all_fails(views(locals@), idx@, i + 1);
            }
            return Err(k);
        }
        let ghost before = out@;
        out.push(locals[k].clone());
        assert(views(out@) =~= views(before).push(locals[k as int]@));
        i += 1;
    }
    assert(idx@.take(idx.len() as int) =~= idx@);
    Ok(out)
}

/// A failure on a prefix of the slots is the failure on all of them.
proof fn lemma_read_all_fails(locals: Seq<Val>, idx: Seq<usize>, n: int)
    requires
        0 <= n <= idx.len(),
        read_all(locals, idx.take(n)) is Err,
    ensures
        read_all(locals, idx) == read_all(locals, idx.take(n)),
    decreases idx.len() - n,
{
    if n < idx.len() {
        assert(idx.take(n + 1).drop_last() =~= idx.take(n));
        lemma_read_all_fails(locals, idx, n + 1);
    } else {
        assert(idx.take(n) =~= idx);
    }
}

fn fill_locals(first: Vec<RuntimeData>, size: usize) -> (r: Vec<RuntimeData>)
    ensures
        views(r@) == fill(views(first@), size),
{
    let mut r = first;
    while r.len() < size
        invariant
            first.len() <= r.len(),
            r.len() <= size || r.len() == first.len(),
            forall|j: int| 0 <= j < first.len() ==> r[j]@ == first[j]@,
            forall|j: int| first.len() <= j < r.len() ==> r[j]@ == Val::Nil,
        decreases size - r.len(),
    {
        r.push(RuntimeData::Nil);
    }
    assert(views(r@) =~= fill(views(first@), size));
    r
}

impl Machine {
    fn trace(&self, procs: &Vec<Proc>) -> (t: StackTrace)
        ensures
            trace_view(t@) == trace_of(procs@, self@),
    {
        let mut t: StackTrace = Vec::new();
        let mut i: usize = 0;
        while i < self.frames.len()
            invariant
                i <= self.frames.len(),
                t.len() == i,
                forall|j: int|
                    0 <= j < i ==> (#[trigger] t[j]).0@ == proc_name(procs@, self.frames[j].proc_id)
                        && t[j].1 == call_site(self.frames[j]@),
            decreases self.frames.len() - i,
        {
            let f = &self.frames[i];
            let name = if f.proc_id < procs.len() {
                procs[f.proc_id].name.clone()
            } else {
                String::new()
            };
            let at = if f.ip > 0 {
                f.ip - 1
            } else {
                0
            };
            t.push((name, at));
            i += 1;
        }
        let name = if self.current.proc_id < procs.len() {
            procs[self.current.proc_id].name.clone()
        } else {
            String::new()
        };
        t.push((name, self.current.ip));
        assert(trace_view(t@) =~= trace_of(procs@, self@));
        t
    }

    fn missing_local(&self, procs: &Vec<Proc>, local: usize) -> (r: Result<Step, VmError>)
        ensures
            agrees(r, self@, self@, procs@, Outcome::Fault(Fault::AccessMissingLocal(local))),
    {
        Err(VmError::AccessMissingLocal(local, self.trace(procs)))
    }

    fn unexpected_type(&self, procs: &Vec<Proc>, local: usize, expected: &'static str) -> (r: Result<
        Step,
        VmError,
    >)
        requires
            local < self.current.locals.len(),
        ensures
            agrees(r, self@, self@, procs@, unexpected(self@, local, expected@)),
    {
        Err(
            VmError::LocalUnexpectedType {
                local,
                stack_trace: self.trace(procs),
                expected,
                found: kind(&self.current.locals[local]),
            },
        )
    }

    /// Leaves `v` in the return register and moves to the next instruction.
    fn produce(&mut self, v: RuntimeData) -> (r: Result<Step, VmError>)
        requires
            old(self).current.ip < usize::MAX,
        ensures
            r matches Ok(Step::Continue),
            Outcome::Next(final(self)@) == produce(old(self)@, v@),
    {
        self.ret = Some(v);
        self.current.ip = self.current.ip + 1;
        Ok(Step::Continue)
    }

    /// Writes `v` to a slot and moves to the next instruction.
    fn store(&mut self, slot: usize, v: RuntimeData) -> (r: Result<Step, VmError>)
        requires
            old(self).current.ip < usize::MAX,
            slot < old(self).current.locals.len(),
        ensures
            r matches Ok(Step::Continue),
            Outcome::Next(final(self)@) == store(old(self)@, slot, v@),
    {
        self.current.locals.set(slot, v);
        self.current.ip = self.current.ip + 1;
        assert(views(self.current.locals@) =~= views(old(self).current.locals@).update(
            slot as int,
            v@,
        ));
        Ok(Step::Continue)
    }
}

impl Machine {
    /// Saves the current frame one instruction further and makes a fresh
    /// frame of `proc_id` current.
    fn enter(&mut self, procs: &Vec<Proc>, proc_id: usize, first: Vec<RuntimeData>)
        requires
            old(self).current.ip < usize::MAX,
            proc_id < procs.len(),
        ensures
            final(self)@ == enter(procs@, old(self)@, proc_id, views(first@)),
    {
        let locals = fill_locals(first, procs[proc_id].stack_size);
        self.current.ip = self.current.ip + 1;
        let mut frame = Frame { proc_id, ip: 0, locals };
        std::mem::swap(&mut self.current, &mut frame);
        self.frames.push(frame);
        assert(views(self.frames@) =~= views(old(self).frames@).push(stepped(old(self).current@)));
    }

    fn no_proc(&self, procs: &Vec<Proc>, proc_id: usize) -> (r: Result<Step, VmError>)
        ensures
            agrees(r, self@, self@, procs@, Outcome::Fault(Fault::ProcDoesNotExist(proc_id))),
    {
        Err(VmError::ProcDoesNotExist(proc_id, self.trace(procs)))
    }

    fn call(&mut self, procs: &Vec<Proc>, proc_id: usize, params: &Vec<usize>) -> (r: Result<
        Step,
        VmError,
    >)
        requires
            old(self).current.ip < usize::MAX,
        ensures
            agrees(
                r,
                old(self)@,
                final(self)@,
                procs@,
                op_call(procs@, old(self)@, proc_id, params@),
            ),
    {
        if proc_id >= procs.len() {
            return self.no_proc(procs, proc_id);
        }
        match read_locals(&self.current.locals, params) {
            Err(i) => self.missing_local(procs, i),
            Ok(args) => {
                self.enter(procs, proc_id, args);
                Ok(Step::Continue)
            },
        }
    }

    /// The handle of the closure in a slot, or the error to report.
    fn closure_at(&self, procs: &Vec<Proc>, local: usize) -> (r: Result<
        usize,
        Result<Step, VmError>,
    >)
        ensures
            match closure_at(self@, local) {
                Ok(h) => r == Ok::<usize, Result<Step, VmError>>(h),
                Err(o) => r matches Err(e) && agrees(e, self@, self@, procs@, o),
            },
    {
        if local >= self.current.locals.len() {
            return Err(self.missing_local(procs, local));
        }
        match &self.current.locals[local] {
            RuntimeData::Closure(h) => {
                if *h < self.closures.len() {
                    Ok(*h)
                } else {
                    Err(self.unexpected_type(procs, local, "closure"))
                }
            },
            _ => Err(self.unexpected_type(procs, local, "closure")),
        }
    }

    fn dyn_call(&mut self, procs: &Vec<Proc>, local: usize, params: &Vec<usize>) -> (r: Result<
        Step,
        VmError,
    >)
        requires
            old(self).current.ip < usize::MAX,
        ensures
            agrees(
                r,
                old(self)@,
                final(self)@,
                procs@,
                op_dyn_call(procs@, old(self)@, local, params@),
            ),
    {
        let h = match self.closure_at(procs, local) {
            Err(e) => {
                return e;
            },
            Ok(h) => h,
        };
        let proc_id = self.closures[h].proc_id;
        if proc_id >= procs.len() {
            return self.no_proc(procs, proc_id);
        }
        match read_locals(&self.current.locals, params) {
            Err(i) => self.missing_local(procs, i),
            Ok(args) => {
                let mut first = clone_values(&self.closures[h].env);
                let mut args = args;
                let ghost a = args@;
                let ghost e = first@;
                first.append(&mut args);
                assert(views(first@) =~= views(e) + views(a));
                self.enter(procs, proc_id, first);
                Ok(Step::Continue)
            },
        }
    }

    fn resume(&mut self, procs: &Vec<Proc>, local: usize) -> (r: Result<Step, VmError>)
        requires
            old(self).current.ip < usize::MAX,
        ensures
            agrees(r, old(self)@, final(self)@, procs@, op_resume(procs@, old(self)@, local)),
    {
        if local >= self.current.locals.len() {
            return self.missing_local(procs, local);
        }
        let h = match &self.current.locals[local] {
            RuntimeData::Coroutine(h) => *h,
            _ => {
                return self.unexpected_type(procs, local, "coroutine");
            },
        };
        if h >= self.coroutines.len() {
            return self.unexpected_type(procs, local, "coroutine");
        }
        match &self.coroutines[h] {
            Coroutine::Running => {
                return self.unexpected_type(procs, local, "suspended coroutine");
            },
            Coroutine::Ended => {
                return self.produce(RuntimeData::Nil);
            },
            Coroutine::Start { proc_id, params } => {
                if *proc_id >= procs.len() {
                    return self.no_proc(procs, *proc_id);
                }
            },
            Coroutine::DynStart { closure, params } => {
                if *closure >= self.closures.len() {
                    return self.unexpected_type(procs, local, "coroutine");
                }
                let proc_id = self.closures[*closure].proc_id;
                if proc_id >= procs.len() {
                    return self.no_proc(procs, proc_id);
                }
            },
            Coroutine::Active(_) => {},
        }
        let mut co = Coroutine::Running;
        self.coroutines.set_and_swap(h, &mut co);
        self.running.push(h);
        assert(views(self.coroutines@) =~= views(old(self).coroutines@).update(
            h as int,
            CoV::Running,
        ));
        match co {
            Coroutine::Start { proc_id, params } => {
                self.enter(procs, proc_id, params);
            },
            Coroutine::DynStart { closure, params } => {
                let mut first = clone_values(&self.closures[closure].env);
                let mut params = params;
                let ghost a = params@;
                let ghost e = first@;
                first.append(&mut params);
                assert(views(first@) =~= views(e) + views(a));
                self.enter(procs, self.closures[closure].proc_id, first);
            },
            Coroutine::Active(frame) => {
                self.current.ip = self.current.ip + 1;
                let mut frame = frame;
                std::mem::swap(&mut self.current, &mut frame);
                self.frames.push(frame);
                assert(views(self.frames@) =~= views(old(self).frames@).push(
                    stepped(old(self).current@),
                ));
            },
            _ => {},
        }
        Ok(Step::Continue)
    }

    /// Makes the youngest saved frame current again.
    fn pop_frame(&mut self)
        requires
            old(self).frames.len() > 0,
        ensures
            final(self)@ == (VmState {
                frames: old(self)@.frames.drop_last(),
                current: old(self)@.frames.last(),
                ..old(self)@
            }),
    {
        match self.frames.pop() {
            Some(frame) => {
                self.current = frame;
            },
            None => {},
        }
        assert(views(self.frames@) =~= views(old(self).frames@).drop_last());
    }

    fn return_local(&mut self, procs: &Vec<Proc>, local: usize) -> (r: Result<Step, VmError>)
        ensures
            agrees(r, old(self)@, final(self)@, procs@, op_return(old(self)@, local)),
    {
        if local >= self.current.locals.len() {
            return self.missing_local(procs, local);
        }
        let v = self.current.locals[local].clone();
        if self.frames.len() == 0 {
            return Ok(Step::Halt(v));
        }
        self.pop_frame();
        self.ret = Some(v);
        Ok(Step::Continue)
    }

    /// Leaves the running coroutine in `state`, with `ret` for its resumer.
    fn leave(&mut self, procs: &Vec<Proc>, state: Coroutine, ret: RuntimeData) -> (r: Result<
        Step,
        VmError,
    >)
        ensures
            agrees(r, old(self)@, final(self)@, procs@, leave(old(self)@, state@, ret@)),
    {
        if self.running.len() == 0 || self.frames.len() == 0 {
            return Err(VmError::TopLevelYield(self.current.ip, self.trace(procs)));
        }
        let h = self.running[self.running.len() - 1];
        self.running.pop();
        if h < self.coroutines.len() {
            self.coroutines.set(h, state);
            assert(views(self.coroutines@) =~= views(old(self).coroutines@).update(
                h as int,
                state@,
            ));
        }
        self.pop_frame();
        self.ret = Some(ret);
        assert(self.running@ =~= old(self).running@.drop_last());
        Ok(Step::Continue)
    }

    fn yield_local(&mut self, procs: &Vec<Proc>, local: usize) -> (r: Result<Step, VmError>)
        requires
            old(self).current.ip < usize::MAX,
        ensures
            agrees(r, old(self)@, final(self)@, procs@, op_yield(old(self)@, local)),
    {
        if local >= self.current.locals.len() {
            return self.missing_local(procs, local);
        }
        let v = self.current.locals[local].clone();
        let mut frame = self.current.clone();
        frame.ip = frame.ip + 1;
        self.leave(procs, Coroutine::Active(frame), v)
    }

    fn branch(&mut self, procs: &Vec<Proc>, label: usize, local: usize) -> (r: Result<
        Step,
        VmError,
    >)
        requires
            old(self).current.ip < usize::MAX,
        ensures
            agrees(r, old(self)@, final(self)@, procs@, op_branch(old(self)@, label, local)),
    {
        if local >= self.current.locals.len() {
            return self.missing_local(procs, local);
        }
        match &self.current.locals[local] {
            RuntimeData::Bool(b) => {
                if *b {
                    self.current.ip = label;
                } else {
                    self.current.ip = self.current.ip + 1;
                }
                Ok(Step::Continue)
            },
            _ => self.unexpected_type(procs, local, "bool"),
        }
    }

    fn set_data(&mut self, procs: &Vec<Proc>, slot: usize, v: &RuntimeData) -> (r: Result<
        Step,
        VmError,
    >)
        requires
            old(self).current.ip < usize::MAX,
        ensures
            agrees(r, old(self)@, final(self)@, procs@, op_set_data(old(self)@, slot, v@)),
    {
        if slot >= self.current.locals.len() {
            return self.missing_local(procs, slot);
        }
        self.store(slot, v.clone())
    }

    fn set_return(&mut self, procs: &Vec<Proc>, slot: usize) -> (r: Result<Step, VmError>)
        requires
            old(self).current.ip < usize::MAX,
        ensures
            agrees(r, old(self)@, final(self)@, procs@, op_set_return(old(self)@, slot)),
    {
        let v = match &self.ret {
            None => {
                return Err(VmError::AccessMissingReturn(self.trace(procs)));
            },
            Some(v) => v.clone(),
        };
        if slot >= self.current.locals.len() {
            return self.missing_local(procs, slot);
        }
        self.store(slot, v)
    }

    fn set_var(&mut self, procs: &Vec<Proc>, src: usize, dest: usize) -> (r: Result<
        Step,
        VmError,
    >)
        requires
            old(self).current.ip < usize::MAX,
        ensures
            agrees(r, old(self)@, final(self)@, procs@, op_set_var(old(self)@, src, dest)),
    {
        if src >= self.current.locals.len() {
            return self.missing_local(procs, src);
        }
        if dest >= self.current.locals.len() {
            return self.missing_local(procs, dest);
        }
        let v = self.current.locals[src].clone();
        self.store(dest, v)
    }
}

/// The lowest free address is the first that holds `Nil`.
pub proof fn lemma_free_address(heap: Seq<CellV>)
    ensures
        0 <= free_address(heap) <= heap.len(),
        forall|j: int| 0 <= j < free_address(heap) ==> !(#[trigger] heap[j] is Nil),
        free_address(heap) < heap.len() ==> heap[free_address(heap)] is Nil,
    decreases heap.len(),
{
    if heap.len() > 0 {
        let init = heap.drop_last();
        lemma_free_address(init);
        assert forall|j: int| 0 <= j < free_address(heap) implies !(#[trigger] heap[j] is Nil) by {
            if j < init.len() {
                assert(heap[j] == init[j]);
            }
        }
        if free_address(heap) < init.len() {
            assert(heap[free_address(heap)] == init[free_address(init)]);
        }
    }
}

impl Machine {
    /// Puts `cell` at the lowest free address and returns that address.
    fn allocate(&mut self, cell: Heap) -> (a: usize)
        ensures
            a == free_address(old(self)@.heap),
            final(self)@ == (VmState { heap: allocate(old(self)@.heap, cell@), ..old(self)@ }),
    {
        let mut i: usize = 0;
        while i < self.heap.len() && !matches!(self.heap[i], Heap::Nil)
            invariant
                i <= self.heap.len(),
                forall|j: int| 0 <= j < i ==> !(#[trigger] self@.heap[j] is Nil),
            decreases self.heap.len() - i,
        {
            i += 1;
        }
        proof {
            lemma_free_address(self@.heap);
            let fa = free_address(self@.heap);
            if fa < i {
                assert(self@.heap[fa] is Nil);
            }
            if i < fa {
                assert(!(self@.heap[i as int] is Nil));
            }
        }
        if i < self.heap.len() {
            self.heap.set(i, cell);
            assert(views(self.heap@) =~= views(old(self).heap@).update(i as int, cell@));
        } else {
            self.heap.push(cell);
            assert(views(self.heap@) =~= views(old(self).heap@).push(cell@));
        }
        i
    }

    fn cons(&mut self, procs: &Vec<Proc>, sym_var: usize, params: &Vec<usize>) -> (r: Result<
        Step,
        VmError,
    >)
        requires
            old(self).current.ip < usize::MAX,
        ensures
            agrees(r, old(self)@, final(self)@, procs@, op_cons(old(self)@, sym_var, params@)),
    {
        if sym_var >= self.current.locals.len() {
            return self.missing_local(procs, sym_var);
        }
        match read_locals(&self.current.locals, params) {
            Err(i) => self.missing_local(procs, i),
            Ok(args) => {
                let name = match &self.current.locals[sym_var] {
                    RuntimeData::Symbol(name) => name.clone(),
                    _ => {
                        return self.unexpected_type(procs, sym_var, "symbol");
                    },
                };
                let a = self.allocate(Heap::Cons { name, params: args });
                self.produce(RuntimeData::Ref(a))
            },
        }
    }

    /// The address of the cell that a slot refers to, or the error to report.
    fn cell_at(&self, procs: &Vec<Proc>, local: usize) -> (r: Result<usize, Result<Step, VmError>>)
        ensures
            match cell_at(self@, local) {
                Ok(a) => r == Ok::<usize, Result<Step, VmError>>(a),
                Err(o) => r matches Err(e) && agrees(e, self@, self@, procs@, o),
            },
    {
        if local >= self.current.locals.len() {
            return Err(self.missing_local(procs, local));
        }
        match &self.current.locals[local] {
            RuntimeData::Ref(a) => {
                if *a < self.heap.len() && matches!(self.heap[*a], Heap::Cons { .. }) {
                    Ok(*a)
                } else {
                    Err(Err(VmError::AccessNilHeap(*a, self.trace(procs))))
                }
            },
            _ => Err(self.unexpected_type(procs, local, "ref")),
        }
    }

    fn delete(&mut self, procs: &Vec<Proc>, local: usize) -> (r: Result<Step, VmError>)
        requires
            old(self).current.ip < usize::MAX,
        ensures
            agrees(r, old(self)@, final(self)@, procs@, op_delete(old(self)@, local)),
    {
        let a = match self.cell_at(procs, local) {
            Err(e) => {
                return e;
            },
            Ok(a) => a,
        };
        self.heap.set(a, Heap::Nil);
        assert(views(self.heap@) =~= views(old(self).heap@).update(a as int, CellV::Nil));
        self.current.ip = self.current.ip + 1;
        Ok(Step::Continue)
    }

    fn bad_index(&self, procs: &Vec<Proc>, index: usize) -> (r: Result<Step, VmError>)
        ensures
            agrees(r, self@, self@, procs@, Outcome::Fault(Fault::AccessMissingSlotIndex(index))),
    {
        Err(VmError::AccessMissingSlotIndex(index, self.trace(procs)))
    }

    fn insert_slot(&mut self, procs: &Vec<Proc>, dest: usize, src: usize, index: usize) -> (r:
        Result<Step, VmError>)
        requires
            old(self).current.ip < usize::MAX,
        ensures
            agrees(
                r,
                old(self)@,
                final(self)@,
                procs@,
                op_insert_slot(old(self)@, dest, src, index),
            ),
    {
        let a = match self.cell_at(procs, dest) {
            Err(e) => {
                return e;
            },
            Ok(a) => a,
        };
        if src >= self.current.locals.len() {
            return self.missing_local(procs, src);
        }
        let len = match &self.heap[a] {
            Heap::Cons { name, params } => params.len(),
            Heap::Nil => 0,
        };
        if index > len {
            return self.bad_index(procs, index);
        }
        let v = self.current.locals[src].clone();
        let mut cell = Heap::Nil;
        self.heap.set_and_swap(a, &mut cell);
        match cell {
            Heap::Cons { name, params } => {
                let mut params = params;
                let ghost before = params@;
                params.insert(index, v);
                assert(views(params@) =~= views(before).insert(index as int, v@));
                let cell = Heap::Cons { name, params };
                self.heap.set(a, cell);
                assert(views(self.heap@) =~= views(old(self).heap@).update(a as int, cell@));
            },
            Heap::Nil => {},
        }
        self.current.ip = self.current.ip + 1;
        Ok(Step::Continue)
    }

    fn remove_slot(&mut self, procs: &Vec<Proc>, local: usize, index: usize) -> (r: Result<
        Step,
        VmError,
    >)
        requires
            old(self).current.ip < usize::MAX,
        ensures
            agrees(r, old(self)@, final(self)@, procs@, op_remove_slot(old(self)@, local, index)),
    {
        let a = match self.cell_at(procs, local) {
            Err(e) => {
                return e;
            },
            Ok(a) => a,
        };
        let len = match &self.heap[a] {
            Heap::Cons { name, params } => params.len(),
            Heap::Nil => 0,
        };
        if index >= len {
            return self.bad_index(procs, index);
        }
        let mut cell = Heap::Nil;
        self.heap.set_and_swap(a, &mut cell);
        match cell {
            Heap::Cons { name, params } => {
                let mut params = params;
                let ghost before = params@;
                params.remove(index);
                assert(views(params@) =~= views(before).remove(index as int));
                let cell = Heap::Cons { name, params };
                self.heap.set(a, cell);
                assert(views(self.heap@) =~= views(old(self).heap@).update(a as int, cell@));
            },
            Heap::Nil => {},
        }
        self.current.ip = self.current.ip + 1;
        Ok(Step::Continue)
    }

    fn get_slot(&mut self, procs: &Vec<Proc>, local: usize, index: usize) -> (r: Result<
        Step,
        VmError,
    >)
        requires
            old(self).current.ip < usize::MAX,
        ensures
            agrees(r, old(self)@, final(self)@, procs@, op_get_slot(old(self)@, local, index)),
    {
        let a = match self.cell_at(procs, local) {
            Err(e) => {
                return e;
            },
            Ok(a) => a,
        };
        let v = match &self.heap[a] {
            Heap::Cons { name, params } => {
                if index >= params.len() {
                    return self.bad_index(procs, index);
                }
                params[index].clone()
            },
            Heap::Nil => RuntimeData::Nil,
        };
        self.produce(v)
    }

    fn get_length(&mut self, procs: &Vec<Proc>, local: usize) -> (r: Result<Step, VmError>)
        requires
            old(self).current.ip < usize::MAX,
        ensures
            agrees(r, old(self)@, final(self)@, procs@, op_get_length(old(self)@, local)),
    {
        let a = match self.cell_at(procs, local) {
            Err(e) => {
                return e;
            },
            Ok(a) => a,
        };
        let n = match &self.heap[a] {
            Heap::Cons { name, params } => params.len() as i64,
            Heap::Nil => 0,
        };
        self.produce(RuntimeData::Int(n))
    }

    fn get_type(&mut self, procs: &Vec<Proc>, local: usize) -> (r: Result<Step, VmError>)
        requires
            old(self).current.ip < usize::MAX,
        ensures
            agrees(r, old(self)@, final(self)@, procs@, op_get_type(old(self)@, local)),
    {
        let a = match self.cell_at(procs, local) {
            Err(e) => {
                return e;
            },
            Ok(a) => a,
        };
        let v = match &self.heap[a] {
            Heap::Cons { name, params } => RuntimeData::Symbol(name.clone()),
            Heap::Nil => RuntimeData::Nil,
        };
        self.produce(v)
    }

    fn is_nil(&mut self, procs: &Vec<Proc>, local: usize) -> (r: Result<Step, VmError>)
        requires
            old(self).current.ip < usize::MAX,
        ensures
            agrees(r, old(self)@, final(self)@, procs@, op_is_nil(old(self)@, local)),
    {
        if local >= self.current.locals.len() {
            return self.missing_local(procs, local);
        }
        let b = matches!(self.current.locals[local], RuntimeData::Nil);
        self.produce(RuntimeData::Bool(b))
    }

    fn closure(&mut self, procs: &Vec<Proc>, proc_id: usize, env: &Vec<usize>) -> (r: Result<
        Step,
        VmError,
    >)
        requires
            old(self).current.ip < usize::MAX,
        ensures
            agrees(r, old(self)@, final(self)@, procs@, op_closure(old(self)@, proc_id, env@)),
    {
        match read_locals(&self.current.locals, env) {
            Err(i) => self.missing_local(procs, i),
            Ok(vs) => {
                let h = self.closures.len();
                let c = Closure { proc_id, env: vs };
                self.closures.push(c);
                assert(views(self.closures@) =~= views(old(self).closures@).push(c@));
                self.produce(RuntimeData::Closure(h))
            },
        }
    }

    fn coroutine(&mut self, procs: &Vec<Proc>, proc_id: usize, params: &Vec<usize>) -> (r: Result<
        Step,
        VmError,
    >)
        requires
            old(self).current.ip < usize::MAX,
        ensures
            agrees(
                r,
                old(self)@,
                final(self)@,
                procs@,
                op_coroutine(old(self)@, proc_id, params@),
            ),
    {
        match read_locals(&self.current.locals, params) {
            Err(i) => self.missing_local(procs, i),
            Ok(vs) => {
                let h = self.coroutines.len();
                let c = Coroutine::Start { proc_id, params: vs };
                self.coroutines.push(c);
                assert(views(self.coroutines@) =~= views(old(self).coroutines@).push(c@));
                self.produce(RuntimeData::Coroutine(h))
            },
        }
    }

    fn dyn_coroutine(&mut self, procs: &Vec<Proc>, local: usize, params: &Vec<usize>) -> (r:
        Result<Step, VmError>)
        requires
            old(self).current.ip < usize::MAX,
        ensures
            agrees(
                r,
                old(self)@,
                final(self)@,
                procs@,
                op_dyn_coroutine(old(self)@, local, params@),
            ),
    {
        let closure = match self.closure_at(procs, local) {
            Err(e) => {
                return e;
            },
            Ok(h) => h,
        };
        match read_locals(&self.current.locals, params) {
            Err(i) => self.missing_local(procs, i),
            Ok(vs) => {
                let h = self.coroutines.len();
                let c = Coroutine::DynStart { closure, params: vs };
                self.coroutines.push(c);
                assert(views(self.coroutines@) =~= views(old(self).coroutines@).push(c@));
                self.produce(RuntimeData::Coroutine(h))
            },
        }
    }
}

fn float_op_of(op: Numeric) -> (r: FloatOp)
    ensures
        r == float_op(op),
{
    match op {
        Numeric::Add => FloatOp::Add,
        Numeric::Sub => FloatOp::Sub,
        Numeric::Mul => FloatOp::Mul,
        Numeric::Div => FloatOp::Div,
        Numeric::Mod => FloatOp::Mod,
        Numeric::Gt => FloatOp::Gt,
        Numeric::Lt => FloatOp::Lt,
    }
}

/// Quotient and remainder of natural numbers stay within the dividend
/// and the divisor.
proof fn lemma_div_bounds(x: int, d: int)
    requires
        x >= 0,
        d > 0,
    ensures
        0 <= x / d <= x,
        0 <= x % d < d,
        x % d <= x,
        x == 0 ==> x / d == 0 && x % d == 0,
        x > 0 && d >= 2 ==> x / d < x,
{
    assert(0 <= x / d <= x && 0 <= x % d < d && x % d <= x && (x == 0 ==> x / d == 0 && x % d
        == 0) && (x > 0 && d >= 2 ==> x / d < x)) by (nonlinear_arith)
        requires
            x >= 0,
            d > 0,
    ;
}

fn int_op_of(op: Numeric, a: i64, b: i64) -> (r: Option<RuntimeData>)
    ensures
        opt_view(r) == int_op(op, a, b),
{
    proof {
        if b != 0 {
            let x: int = if a < 0 {
                -(a as int)
            } else {
                a as int
            };
            let d: int = if b < 0 {
                -(b as int)
            } else {
                b as int
            };
            lemma_div_bounds(x, d);
        }
    }
    match op {
        Numeric::Add => Some(RuntimeData::Int(a.wrapping_add(b))),
        Numeric::Sub => Some(RuntimeData::Int(a.wrapping_sub(b))),
        Numeric::Mul => Some(RuntimeData::Int(a.wrapping_mul(b))),
        Numeric::Div => {
            if b == 0 {
                None
            } else {
                match a.checked_div(b) {
                    Some(q) => Some(RuntimeData::Int(q)),
                    None => Some(RuntimeData::Int(i64::MIN)),
                }
            }
        },
        Numeric::Mod => {
            if b == 0 {
                None
            } else {
                match a.checked_rem(b) {
                    Some(q) => Some(RuntimeData::Int(q)),
                    None => Some(RuntimeData::Int(0)),
                }
            }
        },
        Numeric::Gt => Some(RuntimeData::Bool(a > b)),
        Numeric::Lt => Some(RuntimeData::Bool(a < b)),
    }
}

fn bool_op_of(op: Logic, a: bool, b: bool) -> (r: bool)
    ensures
        r == bool_op(op, a, b),
{
    match op {
        Logic::And => a && b,
        Logic::Or => a || b,
        Logic::Xor => a != b,
    }
}

/// The text of a value that is no double.
fn text(v: &RuntimeData) -> (r: String)
    ensures
        r@ == text_of(v@),
{
    match v {
        RuntimeData::Bool(b) => {
            if *b {
                String::from_str("true")
            } else {
                String::from_str("false")
            }
        },
        RuntimeData::Int(n) => {
            let mut t = String::new();
            push_int(&mut t, *n);
            t
        },
        RuntimeData::Float(_) => String::new(),
        RuntimeData::Symbol(t) => t.clone(),
        RuntimeData::Ref(a) => {
            let mut t = String::from_str("ref(");
            push_decimal(&mut t, *a as u64);
            t.append(")");
            t
        },
        RuntimeData::Closure(_) => String::from_str("closure"),
        RuntimeData::Coroutine(_) => String::from_str("coroutine"),
        RuntimeData::String(t) => t.clone(),
        RuntimeData::Nil => String::from_str("nil"),
    }
}

impl Machine {
    fn numeric(&mut self, procs: &Vec<Proc>, op: Numeric, a: usize, b: usize) -> (r: Result<
        Step,
        VmError,
    >)
        requires
            old(self).current.ip < usize::MAX,
        ensures
            agrees(r, old(self)@, final(self)@, procs@, op_numeric(old(self)@, op, a, b)),
    {
        if a >= self.current.locals.len() {
            return self.missing_local(procs, a);
        }
        if b >= self.current.locals.len() {
            return self.missing_local(procs, b);
        }
        match (&self.current.locals[a], &self.current.locals[b]) {
            (RuntimeData::Float(x), RuntimeData::Float(y)) => Ok(
                Step::Ask(FloatRequest::Apply(float_op_of(op), *x, *y)),
            ),
            (RuntimeData::Int(x), RuntimeData::Int(y)) => {
                match int_op_of(op, *x, *y) {
                    Some(v) => self.produce(v),
                    None => self.unexpected_type(procs, b, "nonzero int"),
                }
            },
            (RuntimeData::Int(_), _) => self.unexpected_type(procs, b, "int"),
            (RuntimeData::Float(_), _) => self.unexpected_type(procs, b, "float"),
            _ => self.unexpected_type(procs, a, "number"),
        }
    }

    fn neg(&mut self, procs: &Vec<Proc>, a: usize) -> (r: Result<Step, VmError>)
        requires
            old(self).current.ip < usize::MAX,
        ensures
            agrees(r, old(self)@, final(self)@, procs@, op_neg(old(self)@, a)),
    {
        if a >= self.current.locals.len() {
            return self.missing_local(procs, a);
        }
        match &self.current.locals[a] {
            RuntimeData::Float(x) => Ok(Step::Ask(FloatRequest::Apply(FloatOp::Neg, *x, 0))),
            RuntimeData::Int(x) => {
                let v = RuntimeData::Int(0i64.wrapping_sub(*x));
                self.produce(v)
            },
            _ => self.unexpected_type(procs, a, "number"),
        }
    }

    fn eq(&mut self, procs: &Vec<Proc>, a: usize, b: usize) -> (r: Result<Step, VmError>)
        requires
            old(self).current.ip < usize::MAX,
        ensures
            agrees(r, old(self)@, final(self)@, procs@, op_eq(old(self)@, a, b)),
    {
        if a >= self.current.locals.len() {
            return self.missing_local(procs, a);
        }
        if b >= self.current.locals.len() {
            return self.missing_local(procs, b);
        }
        let same = match (&self.current.locals[a], &self.current.locals[b]) {
            (RuntimeData::Float(x), RuntimeData::Float(y)) => {
                return Ok(Step::Ask(FloatRequest::Apply(FloatOp::Eq, *x, *y)));
            },
            (RuntimeData::Int(x), RuntimeData::Int(y)) => *x == *y,
            (RuntimeData::Bool(x), RuntimeData::Bool(y)) => *x == *y,
            (RuntimeData::Symbol(x), RuntimeData::Symbol(y)) => *x == *y,
            (RuntimeData::String(x), RuntimeData::String(y)) => *x == *y,
            (RuntimeData::Ref(x), RuntimeData::Ref(y)) => *x == *y,
            (RuntimeData::Nil, RuntimeData::Nil) => true,
            (RuntimeData::Closure(_), RuntimeData::Closure(_)) => false,
            (RuntimeData::Coroutine(_), RuntimeData::Coroutine(_)) => false,
            (x, _) => {
                return self.unexpected_type(procs, b, kind(x));
            },
        };
        self.produce(RuntimeData::Bool(same))
    }

    fn logic(&mut self, procs: &Vec<Proc>, op: Logic, a: usize, b: usize) -> (r: Result<
        Step,
        VmError,
    >)
        requires
            old(self).current.ip < usize::MAX,
        ensures
            agrees(r, old(self)@, final(self)@, procs@, op_logic(old(self)@, op, a, b)),
    {
        if a >= self.current.locals.len() {
            return self.missing_local(procs, a);
        }
        if b >= self.current.locals.len() {
            return self.missing_local(procs, b);
        }
        match (&self.current.locals[a], &self.current.locals[b]) {
            (RuntimeData::Bool(x), RuntimeData::Bool(y)) => {
                let v = RuntimeData::Bool(bool_op_of(op, *x, *y));
                self.produce(v)
            },
            (_, RuntimeData::Bool(_)) => self.unexpected_type(procs, a, "bool"),
            _ => self.unexpected_type(procs, b, "bool"),
        }
    }

    fn not(&mut self, procs: &Vec<Proc>, a: usize) -> (r: Result<Step, VmError>)
        requires
            old(self).current.ip < usize::MAX,
        ensures
            agrees(r, old(self)@, final(self)@, procs@, op_not(old(self)@, a)),
    {
        if a >= self.current.locals.len() {
            return self.missing_local(procs, a);
        }
        match &self.current.locals[a] {
            RuntimeData::Bool(x) => {
                let v = RuntimeData::Bool(!*x);
                self.produce(v)
            },
            _ => self.unexpected_type(procs, a, "bool"),
        }
    }

    fn to_text(&mut self, procs: &Vec<Proc>, a: usize) -> (r: Result<Step, VmError>)
        requires
            old(self).current.ip < usize::MAX,
        ensures
            agrees(r, old(self)@, final(self)@, procs@, op_to_string(old(self)@, a)),
    {
        if a >= self.current.locals.len() {
            return self.missing_local(procs, a);
        }
        match &self.current.locals[a] {
            RuntimeData::Float(x) => Ok(Step::Ask(FloatRequest::Apply(FloatOp::ToString, *x, 0))),
            v => {
                let t = RuntimeData::String(text(v));
                self.produce(t)
            },
        }
    }

    fn concat(&mut self, procs: &Vec<Proc>, a: usize, b: usize) -> (r: Result<Step, VmError>)
        requires
            old(self).current.ip < usize::MAX,
        ensures
            agrees(r, old(self)@, final(self)@, procs@, op_concat(old(self)@, a, b)),
    {
        if a >= self.current.locals.len() {
            return self.missing_local(procs, a);
        }
        if b >= self.current.locals.len() {
            return self.missing_local(procs, b);
        }
        match (&self.current.locals[a], &self.current.locals[b]) {
            (RuntimeData::String(x), RuntimeData::String(y)) => {
                let mut t = x.clone();
                t.append(y.as_str());
                self.produce(RuntimeData::String(t))
            },
            (RuntimeData::String(_), _) => self.unexpected_type(procs, b, "string"),
            _ => self.unexpected_type(procs, a, "string"),
        }
    }
}

/// Whether the result `r` of a run is the ending `e`, with an error's trace
/// taken in the state where the run stopped.
pub open spec fn ended(r: Result<Step, VmError>, e: Ending, trace: Seq<(Seq<char>, usize)>) -> bool {
    match e {
        Ending::Halt(v) => r matches Ok(Step::Halt(x)) && x@ == v,
        Ending::Ask(q) => r matches Ok(Step::Ask(x)) && x@ == q,
        Ending::Paused => r matches Ok(Step::Continue),
        Ending::Fault(f) => r matches Err(e) && e.fault() == f && e.trace() == trace,
    }
}

fn fits_answer(q: &FloatRequest, v: &RuntimeData) -> (r: bool)
    ensures
        r == fits(q@, v@),
{
    match q {
        FloatRequest::Decode(_) => matches!(v, RuntimeData::Float(_)),
        FloatRequest::Apply(op, _, _) => match op {
            FloatOp::Eq | FloatOp::Gt | FloatOp::Lt => matches!(v, RuntimeData::Bool(_)),
            FloatOp::ToString => matches!(v, RuntimeData::String(_)),
            _ => matches!(v, RuntimeData::Float(_)),
        },
    }
}

impl Machine {
    /// Executes the current instruction.
    pub fn step(&mut self, procs: &Vec<Proc>) -> (r: Result<Step, VmError>)
        ensures
            agrees(r, old(self)@, final(self)@, procs@, step(procs@, old(self)@)),
    {
        reveal(step);
        if self.current.proc_id >= procs.len() {
            return self.no_proc(procs, self.current.proc_id);
        }
        let code = &procs[self.current.proc_id].instrs;
        if self.current.ip >= code.len() {
            return Err(VmError::InstrPointerOutOfRange(self.current.ip, self.trace(procs)));
        }
        match &code[self.current.ip] {
            Op::Call(p, a) => self.call(procs, *p, a),
            Op::DynCall(l, a) => self.dyn_call(procs, *l, a),
            Op::Resume(l) => self.resume(procs, *l),
            Op::ReturnLocal(l) => self.return_local(procs, *l),
            Op::Jump(i) => {
                self.current.ip = *i;
                Ok(Step::Continue)
            },
            Op::BranchTrue { label, local } => self.branch(procs, *label, *local),
            Op::SetLocalData(l, v) => self.set_data(procs, *l, v),
            Op::SetLocalFloat(l, t) => {
                if *l >= self.current.locals.len() {
                    self.missing_local(procs, *l)
                } else {
                    Ok(Step::Ask(FloatRequest::Decode(t.clone())))
                }
            },
            Op::SetLocalReturn(l) => self.set_return(procs, *l),
            Op::SetLocalVar { src, dest } => self.set_var(procs, *src, *dest),
            Op::GetLength(l) => self.get_length(procs, *l),
            Op::GetType(l) => self.get_type(procs, *l),
            Op::GetSlot { local, index } => self.get_slot(procs, *local, *index),
            Op::IsNil(l) => self.is_nil(procs, *l),
            Op::Closure { proc_id, env } => self.closure(procs, *proc_id, env),
            Op::Cons { sym_var, params } => self.cons(procs, *sym_var, params),
            Op::Coroutine { proc_id, params } => self.coroutine(procs, *proc_id, params),
            Op::DynCoroutine { local, params } => self.dyn_coroutine(procs, *local, params),
            Op::Yield(l) => self.yield_local(procs, *l),
            Op::Break => self.leave(procs, Coroutine::Ended, RuntimeData::Nil),
            Op::Delete(l) => self.delete(procs, *l),
            Op::InsertSlot { dest, src, index } => self.insert_slot(procs, *dest, *src, *index),
            Op::RemoveSlot { local, index } => self.remove_slot(procs, *local, *index),
            Op::Nop => {
                self.current.ip = self.current.ip + 1;
                Ok(Step::Continue)
            },
            Op::Add(a, b) => self.numeric(procs, Numeric::Add, *a, *b),
            Op::Sub(a, b) => self.numeric(procs, Numeric::Sub, *a, *b),
            Op::Mul(a, b) => self.numeric(procs, Numeric::Mul, *a, *b),
            Op::Div(a, b) => self.numeric(procs, Numeric::Div, *a, *b),
            Op::Mod(a, b) => self.numeric(procs, Numeric::Mod, *a, *b),
            Op::Neg(a) => self.neg(procs, *a),
            Op::Eq(a, b) => self.eq(procs, *a, *b),
            Op::Gt(a, b) => self.numeric(procs, Numeric::Gt, *a, *b),
            Op::Lt(a, b) => self.numeric(procs, Numeric::Lt, *a, *b),
            Op::Not(a) => self.not(procs, *a),
            Op::And(a, b) => self.logic(procs, Logic::And, *a, *b),
            Op::Or(a, b) => self.logic(procs, Logic::Or, *a, *b),
            Op::Xor(a, b) => self.logic(procs, Logic::Xor, *a, *b),
            Op::ToString(a) => self.to_text(procs, *a),
            Op::Concat(a, b) => self.concat(procs, *a, *b),
        }
    }

    /// Executes instructions until one halts, asks or fails, or `budget`
    /// of them are done.
    pub fn advance(&mut self, procs: &Vec<Proc>, budget: u64) -> (r: Result<Step, VmError>)
        ensures
            final(self)@ == run(procs@, old(self)@, budget as nat).0,
            ended(
                r,
                run(procs@, old(self)@, budget as nat).1,
                trace_of(procs@, final(self)@),
            ),
    {
        let ghost begin = self@;
        let mut left: u64 = budget;
        while left > 0
            invariant
                begin == old(self)@,
                run(procs@, begin, budget as nat) == run(procs@, self@, left as nat),
            decreases left,
        {
            let r = self.step(procs);
            match r {
                Ok(Step::Continue) => {
                    left = left - 1;
                },
                other => {
                    return other;
                },
            }
        }
        Ok(Step::Continue)
    }
}

impl Machine {
    /// The question that the current instruction asks, if it asks one.
    pub fn pending(&self, procs: &Vec<Proc>) -> (r: Option<FloatRequest>)
        ensures
            match step(procs@, self@) {
                Outcome::Ask(q) => r matches Some(x) && x@ == q,
                _ => r is None,
            },
    {
        reveal(step);
        if self.current.proc_id >= procs.len() {
            return None;
        }
        let code = &procs[self.current.proc_id].instrs;
        if self.current.ip >= code.len() {
            return None;
        }
        let n = self.current.locals.len();
        match &code[self.current.ip] {
            Op::SetLocalFloat(l, t) => {
                if *l < n {
                    Some(FloatRequest::Decode(t.clone()))
                } else {
                    None
                }
            },
            Op::Add(a, b) => self.pending_numeric(Numeric::Add, *a, *b),
            Op::Sub(a, b) => self.pending_numeric(Numeric::Sub, *a, *b),
            Op::Mul(a, b) => self.pending_numeric(Numeric::Mul, *a, *b),
            Op::Div(a, b) => self.pending_numeric(Numeric::Div, *a, *b),
            Op::Mod(a, b) => self.pending_numeric(Numeric::Mod, *a, *b),
            Op::Gt(a, b) => self.pending_numeric(Numeric::Gt, *a, *b),
            Op::Lt(a, b) => self.pending_numeric(Numeric::Lt, *a, *b),
            Op::Eq(a, b) => {
                if *a < n && *b < n {
                    match (&self.current.locals[*a], &self.current.locals[*b]) {
                        (RuntimeData::Float(x), RuntimeData::Float(y)) => Some(
                            FloatRequest::Apply(FloatOp::Eq, *x, *y),
                        ),
                        _ => None,
                    }
                } else {
                    None
                }
            },
            Op::Neg(a) => {
                if *a < n {
                    match &self.current.locals[*a] {
                        RuntimeData::Float(x) => Some(FloatRequest::Apply(FloatOp::Neg, *x, 0)),
                        _ => None,
                    }
                } else {
                    None
                }
            },
            Op::ToString(a) => {
                if *a < n {
                    match &self.current.locals[*a] {
                        RuntimeData::Float(x) => Some(
                            FloatRequest::Apply(FloatOp::ToString, *x, 0),
                        ),
                        _ => None,
                    }
                } else {
                    None
                }
            },
            _ => None,
        }
    }

    fn pending_numeric(&self, op: Numeric, a: usize, b: usize) -> (r: Option<FloatRequest>)
        ensures
            match op_numeric(self@, op, a, b) {
                Outcome::Ask(q) => r matches Some(x) && x@ == q,
                _ => r is None,
            },
    {
        if a < self.current.locals.len() && b < self.current.locals.len() {
            match (&self.current.locals[a], &self.current.locals[b]) {
                (RuntimeData::Float(x), RuntimeData::Float(y)) => Some(
                    FloatRequest::Apply(float_op_of(op), *x, *y),
                ),
                _ => None,
            }
        } else {
            None
        }
    }

    /// Takes the host's answer to the pending question. An answer that
    /// nothing asked for, or of the wrong kind, changes nothing.
    pub fn answer(&mut self, procs: &Vec<Proc>, v: RuntimeData) -> (ok: bool)
        ensures
            match step(procs@, old(self)@) {
                Outcome::Ask(q) => ok == fits(q, v@),
                _ => !ok,
            },
            ok ==> Outcome::Next(final(self)@) == answered(procs@, old(self)@, v@),
            !ok ==> final(self)@ == old(self)@,
    {
        let q = match self.pending(procs) {
            None => {
                return false;
            },
            Some(q) => q,
        };
        if !fits_answer(&q, &v) {
            return false;
        }
        proof {
            reveal(step);
        }
        match &procs[self.current.proc_id].instrs[self.current.ip] {
            Op::SetLocalFloat(slot, _) => {
                let _ = self.store(*slot, v);
            },
            _ => {
                let _ = self.produce(v);
            },
        }
        true
    }
}

/// A virtual machine over a table of compiled procedures. It keeps a heap of
/// tagged cells, a table of closures and a table of coroutines; values refer
/// to them by address and by handle. Operations on doubles are left to the
/// host: see `pending` and `answer`.
pub struct Vm {
    procs: Vec<Proc>,
    state: Machine,
}

impl View for Vm {
    type V = VmState;

    closed spec fn view(&self) -> VmState {
        self.state@
    }
}

/// Whether the result `r` is what a run that ended in `e` returns: the value
/// on a halt, nothing when the run stopped to ask or for want of budget.
pub open spec fn returned(
    r: Result<Option<RuntimeData>, VmError>,
    e: Ending,
    trace: Seq<(Seq<char>, usize)>,
) -> bool {
    match e {
        Ending::Halt(v) => r matches Ok(Some(x)) && x@ == v,
        Ending::Ask(_) => r matches Ok(None),
        Ending::Paused => r matches Ok(None),
        Ending::Fault(f) => r matches Err(e) && e.fault() == f && e.trace() == trace,
    }
}

/// The state of a machine that has not run: empty tables, an empty frame.
pub open spec fn fresh() -> VmState {
    VmState {
        frames: Seq::empty(),
        current: FrameV { proc_id: 0, ip: 0, locals: Seq::empty() },
        heap: Seq::empty(),
        closures: Seq::empty(),
        coroutines: Seq::empty(),
        running: Seq::empty(),
        ret: None,
    }
}

fn unwrap_step(r: Result<Step, VmError>) -> (out: Result<Option<RuntimeData>, VmError>)
    ensures
        forall|e: Ending, t: Seq<(Seq<char>, usize)>| ended(r, e, t) ==> returned(out, e, t),
{
    match r {
        Ok(Step::Halt(v)) => Ok(Some(v)),
        Ok(_) => Ok(None),
        Err(e) => Err(e),
    }
}

impl Vm {
    /// The code that the machine runs.
    pub closed spec fn procs(&self) -> Seq<Proc> {
        self.procs@
    }

    /// A machine for the procedures `procs`, which has not run.
    pub fn new(procs: Vec<Proc>) -> (vm: Vm)
        ensures
            vm.procs() == procs@,
            vm@ == fresh(),
    {
        let state = Machine {
            heap: Vec::new(),
            frames: Vec::new(),
            current: Frame { proc_id: 0, ip: 0, locals: Vec::new() },
            closures: Vec::new(),
            coroutines: Vec::new(),
            running: Vec::new(),
            ret: None,
        };
        assert(state@ =~= fresh()) by {
            assert(state@.frames =~= Seq::empty());
            assert(state@.heap =~= Seq::empty());
            assert(state@.closures =~= Seq::empty());
            assert(state@.coroutines =~= Seq::empty());
            assert(state@.current.locals =~= Seq::empty());
        }
        Vm { procs, state }
    }

    /// The cell at a heap address; nothing beyond the heap's end.
    pub fn cell(&self, address: usize) -> (r: Option<&Heap>)
        ensures
            match r {
                Some(c) => address < self@.heap.len() && c@ == self@.heap[address as int],
                None => address >= self@.heap.len(),
            },
    {
        if address < self.state.heap.len() {
            Some(&self.state.heap[address])
        } else {
            None
        }
    }

    /// The closure with a handle, if there is one.
    pub fn closure(&self, handle: usize) -> (r: Option<&Closure>)
        ensures
            match r {
                Some(c) => handle < self@.closures.len() && c@ == self@.closures[handle as int],
                None => handle >= self@.closures.len(),
            },
    {
        if handle < self.state.closures.len() {
            Some(&self.state.closures[handle])
        } else {
            None
        }
    }

    /// The state of the coroutine with a handle, if there is one.
    pub fn coroutine(&self, handle: usize) -> (r: Option<&Coroutine>)
        ensures
            match r {
                Some(c) => handle < self@.coroutines.len() && c@ == self@.coroutines[handle as int],
                None => handle >= self@.coroutines.len(),
            },
    {
        if handle < self.state.coroutines.len() {
            Some(&self.state.coroutines[handle])
        } else {
            None
        }
    }

    /// Runs procedure `entry` from its first instruction, in a fresh frame.
    /// Heap, closures and coroutines of earlier runs stay. Returns the value
    /// that the procedure returned, or nothing when the machine stopped at
    /// a question to the host or after `u64::MAX` instructions.
    pub fn run(&mut self, entry: usize) -> (r: Result<Option<RuntimeData>, VmError>)
        ensures
            final(self).procs() == old(self).procs(),
            entry >= old(self).procs().len() ==> final(self)@ == old(self)@ && returned(
                r,
                Ending::Fault(Fault::ProcDoesNotExist(entry)),
                trace_of(old(self).procs(), old(self)@),
            ),
            entry < old(self).procs().len() ==> final(self)@ == run(
                old(self).procs(),
                entered(old(self).procs(), old(self)@, entry),
                u64::MAX as nat,
            ).0 && returned(
                r,
                run(
                    old(self).procs(),
                    entered(old(self).procs(), old(self)@, entry),
                    u64::MAX as nat,
                ).1,
                trace_of(old(self).procs(), final(self)@),
            ),
    {
        if entry >= self.procs.len() {
            return Err(VmError::ProcDoesNotExist(entry, self.state.trace(&self.procs)));
        }
        self.state.frames = Vec::new();
        self.state.running = Vec::new();
        self.state.ret = None;
        self.state.current = Frame {
            proc_id: entry,
            ip: 0,
            locals: fill_locals(Vec::new(), self.procs[entry].stack_size),
        };
        assert(self.state@ =~= entered(old(self).procs(), old(self)@, entry)) by {
            assert(self.state@.frames =~= Seq::empty());
            assert(views(Seq::<RuntimeData>::empty()) =~= Seq::empty());
        }
        let r = self.state.advance(&self.procs, u64::MAX);
        unwrap_step(r)
    }

    /// Goes on from where the machine stopped, for at most `budget`
    /// instructions.
    pub fn resume(&mut self, budget: u64) -> (r: Result<Option<RuntimeData>, VmError>)
        ensures
            final(self).procs() == old(self).procs(),
            final(self)@ == run(old(self).procs(), old(self)@, budget as nat).0,
            returned(
                r,
                run(old(self).procs(), old(self)@, budget as nat).1,
                trace_of(old(self).procs(), final(self)@),
            ),
    {
        let r = self.state.advance(&self.procs, budget);
        unwrap_step(r)
    }

    /// Executes one instruction.
    pub fn step(&mut self) -> (r: Result<Step, VmError>)
        ensures
            final(self).procs() == old(self).procs(),
            agrees(r, old(self)@, final(self)@, old(self).procs(), step(old(self).procs(), old(self)@)),
    {
        self.state.step(&self.procs)
    }

    /// The question that the current instruction asks, if it asks one.
    pub fn pending(&self) -> (r: Option<FloatRequest>)
        ensures
            match step(self.procs(), self@) {
                Outcome::Ask(q) => r matches Some(x) && x@ == q,
                _ => r is None,
            },
    {
        self.state.pending(&self.procs)
    }

    /// Takes the host's answer to the pending question: a decoded literal
    /// goes to its slot, any other answer to the return register, and the
    /// machine moves to the next instruction. An answer that nothing asked
    /// for, or of the wrong kind, is refused and changes nothing.
    pub fn answer(&mut self, v: RuntimeData) -> (ok: bool)
        ensures
            final(self).procs() == old(self).procs(),
            match step(old(self).procs(), old(self)@) {
                Outcome::Ask(q) => ok == fits(q, v@),
                _ => !ok,
            },
            ok ==> Outcome::Next(final(self)@) == answered(old(self).procs(), old(self)@, v@),
            !ok ==> final(self)@ == old(self)@,
    {
        self.state.answer(&self.procs, v)
    }
}

} // verus!
