use vstd::prelude::*;
use super::data::{CellV, ClosureV, CoV, FrameV, Op, Proc, Val};
use super::error::Fault;
use crate::util::{decimal, int_text};

verus! {

/// Mathematical model of the machine's state, apart from its code.
pub struct VmState {
    /// The saved frames, oldest first.
    pub frames: Seq<FrameV>,
    pub current: FrameV,
    pub heap: Seq<CellV>,
    pub closures: Seq<ClosureV>,
    pub coroutines: Seq<CoV>,
    /// The handles of the coroutines that were entered and have not yet
    /// yielded or broken, oldest first.
    pub running: Seq<usize>,
    /// The return register.
    pub ret: Option<Val>,
}

/// An operation on doubles.
#[derive(Clone, Copy, Debug, PartialEq, Eq, Structural)]
pub enum FloatOp {
    Add,
    Sub,
    Mul,
    Div,
    Mod,
    Neg,
    Eq,
    Gt,
    Lt,
    ToString,
}

/// What the machine asks of its host: it does no arithmetic on doubles.
pub enum Ask {
    /// The double that a literal with this text denotes.
    Decode(Seq<char>),
    /// The result of an operation on one or two doubles, given by their bits.
    Apply(FloatOp, u64, u64),
}

/// What one instruction does.
pub enum Outcome {
    /// The machine goes on in this state.
    Next(VmState),
    /// The entry procedure returned this value.
    Halt(Val),
    /// The instruction needs an answer from the host.
    Ask(Ask),
    Fault(Fault),
}

/// The name by which a value's type is reported.
pub open spec fn kind_name(v: Val) -> Seq<char> {
    match v {
        Val::Bool(_) => "bool"@,
        Val::Int(_) => "int"@,
        Val::Float(_) => "float"@,
        Val::Symbol(_) => "symbol"@,
        Val::Ref(_) => "ref"@,
        Val::Closure(_) => "closure"@,
        Val::Coroutine(_) => "coroutine"@,
        Val::String(_) => "string"@,
        Val::Nil => "nil"@,
    }
}

/// The fault for a slot that holds a value of the wrong type.
pub open spec fn unexpected(s: VmState, local: usize, expected: Seq<char>) -> Outcome {
    Outcome::Fault(
        Fault::LocalUnexpectedType {
            local,
            expected,
            found: kind_name(s.current.locals[local as int]),
        },
    )
}

/// The frame one instruction further.
pub open spec fn stepped(f: FrameV) -> FrameV {
    FrameV { ip: (f.ip + 1) as usize, ..f }
}

/// The state one instruction further.
pub open spec fn advance(s: VmState) -> VmState {
    VmState { current: stepped(s.current), ..s }
}

/// The state after an instruction that leaves `v` in the return register.
pub open spec fn produce(s: VmState, v: Val) -> Outcome {
    Outcome::Next(VmState { ret: Some(v), ..advance(s) })
}

/// The state after writing `v` to a slot of the current frame.
pub open spec fn store(s: VmState, slot: usize, v: Val) -> Outcome {
    Outcome::Next(
        VmState {
            current: FrameV {
                ip: (s.current.ip + 1) as usize,
                locals: s.current.locals.update(slot as int, v),
                ..s.current
            },
            ..s
        },
    )
}

/// `locals` followed by as many `Nil` as it takes to reach `size` slots.
pub open spec fn fill(locals: Seq<Val>, size: usize) -> Seq<Val> {
    if locals.len() >= size {
        locals
    } else {
        Seq::new(size as nat, |i: int| if i < locals.len() { locals[i] } else { Val::Nil })
    }
}

/// The values of the slots `idx`, in order; the first slot that does not
/// exist is reported.
pub open spec fn read_all(locals: Seq<Val>, idx: Seq<usize>) -> Result<Seq<Val>, Fault>
    decreases idx.len(),
{
    if idx.len() == 0 {
        Ok(Seq::empty())
    } else {
        match read_all(locals, idx.drop_last()) {
            Err(e) => Err(e),
            Ok(vs) => if idx.last() < locals.len() {
                Ok(vs.push(locals[idx.last() as int]))
            } else {
                Err(Fault::AccessMissingLocal(idx.last()))
            },
        }
    }
}

/// Entering a procedure: the caller is saved one instruction further, and a
/// fresh frame with the given first slots becomes current.
pub open spec fn enter(procs: Seq<Proc>, s: VmState, proc_id: usize, first: Seq<Val>) -> VmState {
    VmState {
        frames: s.frames.push(stepped(s.current)),
        current: FrameV {
            proc_id,
            ip: 0,
            locals: fill(first, procs[proc_id as int].stack_size),
        },
        ..s
    }
}

/// `Call`: the callee must exist and the argument slots must exist; the
/// callee is entered with the arguments in its first slots.
pub open spec fn op_call(procs: Seq<Proc>, s: VmState, proc_id: usize, params: Seq<usize>) -> Outcome {
    if proc_id >= procs.len() {
        Outcome::Fault(Fault::ProcDoesNotExist(proc_id))
    } else {
        match read_all(s.current.locals, params) {
            Err(e) => Outcome::Fault(e),
            Ok(args) => Outcome::Next(enter(procs, s, proc_id, args)),
        }
    }
}

/// The closure that a slot holds: the slot must exist and hold the handle of
/// a closure of this machine.
pub open spec fn closure_at(s: VmState, local: usize) -> Result<usize, Outcome> {
    if local >= s.current.locals.len() {
        Err(Outcome::Fault(Fault::AccessMissingLocal(local)))
    } else {
        match s.current.locals[local as int] {
            Val::Closure(h) => if h < s.closures.len() {
                Ok(h)
            } else {
                Err(unexpected(s, local, "closure"@))
            },
            _ => Err(unexpected(s, local, "closure"@)),
        }
    }
}

/// `DynCall`: the slot must hold a closure whose procedure exists; the
/// procedure is entered with the captured values, then the arguments, in
/// its first slots.
pub open spec fn op_dyn_call(procs: Seq<Proc>, s: VmState, local: usize, params: Seq<usize>) -> Outcome {
    match closure_at(s, local) {
        Err(o) => o,
        Ok(h) => {
            let c = s.closures[h as int];
            if c.proc_id >= procs.len() {
                Outcome::Fault(Fault::ProcDoesNotExist(c.proc_id))
            } else {
                match read_all(s.current.locals, params) {
                    Err(e) => Outcome::Fault(e),
                    Ok(args) => Outcome::Next(enter(procs, s, c.proc_id, c.env + args)),
                }
            }
        },
    }
}

/// Entering coroutine `h` in a fresh frame.
pub open spec fn start(procs: Seq<Proc>, s: VmState, h: usize, proc_id: usize, first: Seq<Val>) -> Outcome {
    if proc_id >= procs.len() {
        Outcome::Fault(Fault::ProcDoesNotExist(proc_id))
    } else {
        Outcome::Next(
            VmState {
                coroutines: s.coroutines.update(h as int, CoV::Running),
                running: s.running.push(h),
                ..enter(procs, s, proc_id, first)
            },
        )
    }
}

/// `Resume`: the slot must hold a coroutine. One that has not begun is
/// entered in a fresh frame, one that is suspended in the frame it was
/// suspended with; the resumer is saved and the coroutine runs. One that
/// has ended produces `Nil`. One that runs cannot be resumed.
pub open spec fn op_resume(procs: Seq<Proc>, s: VmState, local: usize) -> Outcome {
    if local >= s.current.locals.len() {
        Outcome::Fault(Fault::AccessMissingLocal(local))
    } else {
        match s.current.locals[local as int] {
            Val::Coroutine(h) => if h >= s.coroutines.len() {
                unexpected(s, local, "coroutine"@)
            } else {
                match s.coroutines[h as int] {
                    CoV::Start { proc_id, params } => start(procs, s, h, proc_id, params),
                    CoV::DynStart { closure, params } => if closure >= s.closures.len() {
                        unexpected(s, local, "coroutine"@)
                    } else {
                        start(
                            procs,
                            s,
                            h,
                            s.closures[closure as int].proc_id,
                            s.closures[closure as int].env + params,
                        )
                    },
                    CoV::Active(frame) => Outcome::Next(
                        VmState {
                            frames: s.frames.push(stepped(s.current)),
                            current: frame,
                            coroutines: s.coroutines.update(h as int, CoV::Running),
                            running: s.running.push(h),
                            ..s
                        },
                    ),
                    CoV::Running => unexpected(s, local, "suspended coroutine"@),
                    CoV::Ended => produce(s, Val::Nil),
                }
            },
            _ => unexpected(s, local, "coroutine"@),
        }
    }
}

/// `ReturnLocal`: the value of the slot is returned: to the host where no
/// frame is saved, else to the youngest saved frame, in the return
/// register.
pub open spec fn op_return(s: VmState, local: usize) -> Outcome {
    if local >= s.current.locals.len() {
        Outcome::Fault(Fault::AccessMissingLocal(local))
    } else if s.frames.len() == 0 {
        Outcome::Halt(s.current.locals[local as int])
    } else {
        Outcome::Next(
            VmState {
                frames: s.frames.drop_last(),
                current: s.frames.last(),
                ret: Some(s.current.locals[local as int]),
                ..s
            },
        )
    }
}

/// Leaving the running coroutine: its new state is written to the
/// coroutine that was resumed, and the resumer goes on with `ret`.
pub open spec fn leave(s: VmState, state: CoV, ret: Val) -> Outcome {
    if s.running.len() == 0 || s.frames.len() == 0 {
        Outcome::Fault(Fault::TopLevelYield(s.current.ip))
    } else {
        let h = s.running.last();
        Outcome::Next(
            VmState {
                frames: s.frames.drop_last(),
                current: s.frames.last(),
                coroutines: if h < s.coroutines.len() {
                    s.coroutines.update(h as int, state)
                } else {
                    s.coroutines
                },
                running: s.running.drop_last(),
                ret: Some(ret),
                ..s
            },
        )
    }
}

/// `Yield`: the running coroutine is suspended after this instruction,
/// and its resumer gets the value of the slot.
pub open spec fn op_yield(s: VmState, local: usize) -> Outcome {
    if local >= s.current.locals.len() {
        Outcome::Fault(Fault::AccessMissingLocal(local))
    } else {
        leave(s, CoV::Active(stepped(s.current)), s.current.locals[local as int])
    }
}

/// `BranchTrue`: the slot must hold a truth value; the machine goes to
/// `label` if it is true, else to the next instruction.
pub open spec fn op_branch(s: VmState, label: usize, local: usize) -> Outcome {
    if local >= s.current.locals.len() {
        Outcome::Fault(Fault::AccessMissingLocal(local))
    } else {
        match s.current.locals[local as int] {
            Val::Bool(b) => Outcome::Next(
                VmState {
                    current: FrameV {
                        ip: if b {
                            label
                        } else {
                            (s.current.ip + 1) as usize
                        },
                        ..s.current
                    },
                    ..s
                },
            ),
            _ => unexpected(s, local, "bool"@),
        }
    }
}

/// `SetLocalData`: the value is written to the slot.
pub open spec fn op_set_data(s: VmState, slot: usize, v: Val) -> Outcome {
    if slot >= s.current.locals.len() {
        Outcome::Fault(Fault::AccessMissingLocal(slot))
    } else {
        store(s, slot, v)
    }
}

/// `SetLocalFloat`: the host is asked for the double that the text
/// denotes.
pub open spec fn op_set_float(s: VmState, slot: usize, text: Seq<char>) -> Outcome {
    if slot >= s.current.locals.len() {
        Outcome::Fault(Fault::AccessMissingLocal(slot))
    } else {
        Outcome::Ask(Ask::Decode(text))
    }
}

/// `SetLocalReturn`: the return register, which must hold a value, is
/// copied to the slot.
pub open spec fn op_set_return(s: VmState, slot: usize) -> Outcome {
    if s.ret is None {
        Outcome::Fault(Fault::AccessMissingReturn)
    } else if slot >= s.current.locals.len() {
        Outcome::Fault(Fault::AccessMissingLocal(slot))
    } else {
        store(s, slot, s.ret->0)
    }
}

/// `SetLocalVar`: the value of `src` is copied to `dest`.
pub open spec fn op_set_var(s: VmState, src: usize, dest: usize) -> Outcome {
    if src >= s.current.locals.len() {
        Outcome::Fault(Fault::AccessMissingLocal(src))
    } else if dest >= s.current.locals.len() {
        Outcome::Fault(Fault::AccessMissingLocal(dest))
    } else {
        store(s, dest, s.current.locals[src as int])
    }
}

/// The lowest free address of the heap: the first that holds `Nil`, or
/// the heap's length when there is none.
pub open spec fn free_address(heap: Seq<CellV>) -> int
    decreases heap.len(),
{
    if heap.len() == 0 {
        0
    } else if free_address(heap.drop_last()) < heap.len() - 1 {
        free_address(heap.drop_last())
    } else if heap.last() is Nil {
        heap.len() - 1
    } else {
        heap.len() as int
    }
}

/// The heap with `cell` at its lowest free address.
pub open spec fn allocate(heap: Seq<CellV>, cell: CellV) -> Seq<CellV> {
    if free_address(heap) < heap.len() {
        heap.update(free_address(heap), cell)
    } else {
        heap.push(cell)
    }
}

/// `Cons`: a cell with the symbol in `sym_var` as its name and the values
/// of `params` as its slots is put at the lowest free address of the
/// heap, and a reference to it is produced.
pub open spec fn op_cons(s: VmState, sym_var: usize, params: Seq<usize>) -> Outcome {
    if sym_var >= s.current.locals.len() {
        Outcome::Fault(Fault::AccessMissingLocal(sym_var))
    } else {
        match read_all(s.current.locals, params) {
            Err(e) => Outcome::Fault(e),
            Ok(args) => match s.current.locals[sym_var as int] {
                Val::Symbol(name) => Outcome::Next(
                    VmState {
                        heap: allocate(s.heap, CellV::Cons { name, params: args }),
                        ret: Some(Val::Ref(free_address(s.heap) as usize)),
                        ..advance(s)
                    },
                ),
                _ => unexpected(s, sym_var, "symbol"@),
            },
        }
    }
}

/// The address of the cell that a slot refers to: the slot must exist and
/// hold a `Ref`, and the address must hold a cell.
pub open spec fn cell_at(s: VmState, local: usize) -> Result<usize, Outcome> {
    if local >= s.current.locals.len() {
        Err(Outcome::Fault(Fault::AccessMissingLocal(local)))
    } else {
        match s.current.locals[local as int] {
            Val::Ref(a) => if a < s.heap.len() && s.heap[a as int] is Cons {
                Ok(a)
            } else {
                Err(Outcome::Fault(Fault::AccessNilHeap(a)))
            },
            _ => Err(unexpected(s, local, "ref"@)),
        }
    }
}

/// `Delete`: the cell that the slot refers to is freed.
pub open spec fn op_delete(s: VmState, local: usize) -> Outcome {
    match cell_at(s, local) {
        Err(o) => o,
        Ok(a) => Outcome::Next(VmState { heap: s.heap.update(a as int, CellV::Nil), ..advance(s) }),
    }
}

/// `InsertSlot`: the value of `src` is inserted before slot `index` of
/// the cell that `dest` refers to; `index` may be the number of its slots.
pub open spec fn op_insert_slot(s: VmState, dest: usize, src: usize, index: usize) -> Outcome {
    match cell_at(s, dest) {
        Err(o) => o,
        Ok(a) => if src >= s.current.locals.len() {
            Outcome::Fault(Fault::AccessMissingLocal(src))
        } else if index > s.heap[a as int]->params.len() {
            Outcome::Fault(Fault::AccessMissingSlotIndex(index))
        } else {
            Outcome::Next(
                VmState {
                    heap: s.heap.update(
                        a as int,
                        CellV::Cons {
                            name: s.heap[a as int]->name,
                            params: s.heap[a as int]->params.insert(
                                index as int,
                                s.current.locals[src as int],
                            ),
                        },
                    ),
                    ..advance(s)
                },
            )
        },
    }
}

/// `RemoveSlot`: slot `index` of the cell that the slot refers to is
/// removed.
pub open spec fn op_remove_slot(s: VmState, local: usize, index: usize) -> Outcome {
    match cell_at(s, local) {
        Err(o) => o,
        Ok(a) => if index >= s.heap[a as int]->params.len() {
            Outcome::Fault(Fault::AccessMissingSlotIndex(index))
        } else {
            Outcome::Next(
                VmState {
                    heap: s.heap.update(
                        a as int,
                        CellV::Cons {
                            name: s.heap[a as int]->name,
                            params: s.heap[a as int]->params.remove(index as int),
                        },
                    ),
                    ..advance(s)
                },
            )
        },
    }
}

/// `GetSlot`: the value in slot `index` of the cell is produced.
pub open spec fn op_get_slot(s: VmState, local: usize, index: usize) -> Outcome {
    match cell_at(s, local) {
        Err(o) => o,
        Ok(a) => if index >= s.heap[a as int]->params.len() {
            Outcome::Fault(Fault::AccessMissingSlotIndex(index))
        } else {
            produce(s, s.heap[a as int]->params[index as int])
        },
    }
}

/// `GetLength`: the number of slots of the cell is produced.
pub open spec fn op_get_length(s: VmState, local: usize) -> Outcome {
    match cell_at(s, local) {
        Err(o) => o,
        Ok(a) => produce(s, Val::Int(s.heap[a as int]->params.len() as i64)),
    }
}

/// `GetType`: the name of the cell is produced.
pub open spec fn op_get_type(s: VmState, local: usize) -> Outcome {
    match cell_at(s, local) {
        Err(o) => o,
        Ok(a) => produce(s, Val::Symbol(s.heap[a as int]->name)),
    }
}

/// `IsNil`: whether the slot holds `Nil` is produced.
pub open spec fn op_is_nil(s: VmState, local: usize) -> Outcome {
    if local >= s.current.locals.len() {
        Outcome::Fault(Fault::AccessMissingLocal(local))
    } else {
        produce(s, Val::Bool(s.current.locals[local as int] is Nil))
    }
}

/// `Closure`: a closure of the procedure with the values of `env` is
/// added to the table of closures, and its handle is produced.
pub open spec fn op_closure(s: VmState, proc_id: usize, env: Seq<usize>) -> Outcome {
    match read_all(s.current.locals, env) {
        Err(e) => Outcome::Fault(e),
        Ok(vs) => Outcome::Next(
            VmState {
                closures: s.closures.push(ClosureV { proc_id, env: vs }),
                ret: Some(Val::Closure(s.closures.len() as usize)),
                ..advance(s)
            },
        ),
    }
}

/// `Coroutine`: a coroutine of the procedure with the values of `params`,
/// not yet begun, is added to the table of coroutines, and its handle is
/// produced.
pub open spec fn op_coroutine(s: VmState, proc_id: usize, params: Seq<usize>) -> Outcome {
    match read_all(s.current.locals, params) {
        Err(e) => Outcome::Fault(e),
        Ok(vs) => Outcome::Next(
            VmState {
                coroutines: s.coroutines.push(CoV::Start { proc_id, params: vs }),
                ret: Some(Val::Coroutine(s.coroutines.len() as usize)),
                ..advance(s)
            },
        ),
    }
}

/// `DynCoroutine`: as `Coroutine`, of the closure that the slot holds.
pub open spec fn op_dyn_coroutine(s: VmState, local: usize, params: Seq<usize>) -> Outcome {
    match closure_at(s, local) {
        Err(o) => o,
        Ok(h) => match read_all(s.current.locals, params) {
            Err(e) => Outcome::Fault(e),
            Ok(vs) => Outcome::Next(
                VmState {
                    coroutines: s.coroutines.push(CoV::DynStart { closure: h, params: vs }),
                    ret: Some(Val::Coroutine(s.coroutines.len() as usize)),
                    ..advance(s)
                },
            ),
        },
    }
}

/// The integer quotient, rounded toward zero.
pub open spec fn quotient(a: int, b: int) -> int {
    if a >= 0 && b > 0 {
        a / b
    } else if a < 0 && b < 0 {
        (-a) / (-b)
    } else if a < 0 {
        -((-a) / b)
    } else {
        -(a / (-b))
    }
}

/// The remainder that goes with `quotient`: that of the magnitudes, with the
/// sign of `a`.
pub open spec fn remainder(a: int, b: int) -> int {
    if a >= 0 && b > 0 {
        a % b
    } else if a < 0 && b < 0 {
        -((-a) % (-b))
    } else if a < 0 {
        -((-a) % b)
    } else {
        a % (-b)
    }
}

/// A binary operation on numbers.
#[derive(Clone, Copy, Debug, PartialEq, Eq, Structural)]
pub enum Numeric {
    Add,
    Sub,
    Mul,
    Div,
    Mod,
    Gt,
    Lt,
}

/// The operation on doubles that is asked for a numeric operation.
pub open spec fn float_op(op: Numeric) -> FloatOp {
    match op {
        Numeric::Add => FloatOp::Add,
        Numeric::Sub => FloatOp::Sub,
        Numeric::Mul => FloatOp::Mul,
        Numeric::Div => FloatOp::Div,
        Numeric::Mod => FloatOp::Mod,
        Numeric::Gt => FloatOp::Gt,
        Numeric::Lt => FloatOp::Lt,
    }
}

/// A numeric operation on two integers: sums, differences, products and
/// quotients wrap around; dividing by zero gives nothing.
pub open spec fn int_op(op: Numeric, a: i64, b: i64) -> Option<Val> {
    match op {
        Numeric::Add => Some(Val::Int(a.wrapping_add(b))),
        Numeric::Sub => Some(Val::Int(a.wrapping_sub(b))),
        Numeric::Mul => Some(Val::Int(a.wrapping_mul(b))),
        Numeric::Div => if b == 0 {
            None
        } else if a == i64::MIN && b == -1 {
            Some(Val::Int(i64::MIN))
        } else {
            Some(Val::Int(quotient(a as int, b as int) as i64))
        },
        Numeric::Mod => if b == 0 {
            None
        } else if a == i64::MIN && b == -1 {
            Some(Val::Int(0))
        } else {
            Some(Val::Int(remainder(a as int, b as int) as i64))
        },
        Numeric::Gt => Some(Val::Bool(a > b)),
        Numeric::Lt => Some(Val::Bool(a < b)),
    }
}

/// A binary operation on numbers: both slots must hold integers, or both
/// doubles. For integers the result is produced, and a division by zero
/// is a fault of the second slot; for doubles the host is asked.
pub open spec fn op_numeric(s: VmState, op: Numeric, a: usize, b: usize) -> Outcome {
    if a >= s.current.locals.len() {
        Outcome::Fault(Fault::AccessMissingLocal(a))
    } else if b >= s.current.locals.len() {
        Outcome::Fault(Fault::AccessMissingLocal(b))
    } else {
        match (s.current.locals[a as int], s.current.locals[b as int]) {
            (Val::Float(x), Val::Float(y)) => Outcome::Ask(Ask::Apply(float_op(op), x, y)),
            (Val::Int(x), Val::Int(y)) => match int_op(op, x, y) {
                Some(v) => produce(s, v),
                None => unexpected(s, b, "nonzero int"@),
            },
            (Val::Int(_), _) => unexpected(s, b, "int"@),
            (Val::Float(_), _) => unexpected(s, b, "float"@),
            _ => unexpected(s, a, "number"@),
        }
    }
}

/// `Neg`: the negative of an integer is produced, wrapping around; for
/// a double the host is asked.
pub open spec fn op_neg(s: VmState, a: usize) -> Outcome {
    if a >= s.current.locals.len() {
        Outcome::Fault(Fault::AccessMissingLocal(a))
    } else {
        match s.current.locals[a as int] {
            Val::Float(x) => Outcome::Ask(Ask::Apply(FloatOp::Neg, x, 0)),
            Val::Int(x) => produce(s, Val::Int(0i64.wrapping_sub(x))),
            _ => unexpected(s, a, "number"@),
        }
    }
}

/// `Eq`: both slots must hold values of one type. Whether they are the
/// same is produced; closures and coroutines are never the same; for
/// doubles the host is asked.
pub open spec fn op_eq(s: VmState, a: usize, b: usize) -> Outcome {
    if a >= s.current.locals.len() {
        Outcome::Fault(Fault::AccessMissingLocal(a))
    } else if b >= s.current.locals.len() {
        Outcome::Fault(Fault::AccessMissingLocal(b))
    } else {
        match (s.current.locals[a as int], s.current.locals[b as int]) {
            (Val::Float(x), Val::Float(y)) => Outcome::Ask(Ask::Apply(FloatOp::Eq, x, y)),
            (Val::Int(x), Val::Int(y)) => produce(s, Val::Bool(x == y)),
            (Val::Bool(x), Val::Bool(y)) => produce(s, Val::Bool(x == y)),
            (Val::Symbol(x), Val::Symbol(y)) => produce(s, Val::Bool(x == y)),
            (Val::String(x), Val::String(y)) => produce(s, Val::Bool(x == y)),
            (Val::Ref(x), Val::Ref(y)) => produce(s, Val::Bool(x == y)),
            (Val::Nil, Val::Nil) => produce(s, Val::Bool(true)),
            (Val::Closure(_), Val::Closure(_)) => produce(s, Val::Bool(false)),
            (Val::Coroutine(_), Val::Coroutine(_)) => produce(s, Val::Bool(false)),
            (x, _) => unexpected(s, b, kind_name(x)),
        }
    }
}

/// A binary operation on truth values.
#[derive(Clone, Copy, Debug, PartialEq, Eq, Structural)]
pub enum Logic {
    And,
    Or,
    Xor,
}

/// The result of a binary operation on truth values.
pub open spec fn bool_op(op: Logic, a: bool, b: bool) -> bool {
    match op {
        Logic::And => a && b,
        Logic::Or => a || b,
        Logic::Xor => a != b,
    }
}

/// A binary operation on truth values: both slots must hold one.
pub open spec fn op_logic(s: VmState, op: Logic, a: usize, b: usize) -> Outcome {
    if a >= s.current.locals.len() {
        Outcome::Fault(Fault::AccessMissingLocal(a))
    } else if b >= s.current.locals.len() {
        Outcome::Fault(Fault::AccessMissingLocal(b))
    } else {
        match (s.current.locals[a as int], s.current.locals[b as int]) {
            (Val::Bool(x), Val::Bool(y)) => produce(s, Val::Bool(bool_op(op, x, y))),
            (_, Val::Bool(_)) => unexpected(s, a, "bool"@),
            _ => unexpected(s, b, "bool"@),
        }
    }
}

/// `Not`: the slot must hold a truth value, whose opposite is produced.
pub open spec fn op_not(s: VmState, a: usize) -> Outcome {
    if a >= s.current.locals.len() {
        Outcome::Fault(Fault::AccessMissingLocal(a))
    } else {
        match s.current.locals[a as int] {
            Val::Bool(x) => produce(s, Val::Bool(!x)),
            _ => unexpected(s, a, "bool"@),
        }
    }
}

/// The text of a value that is no double.
pub open spec fn text_of(v: Val) -> Seq<char> {
    match v {
        Val::Bool(b) => if b {
            "true"@
        } else {
            "false"@
        },
        Val::Int(n) => int_text(n as int),
        Val::Float(_) => Seq::empty(),
        Val::Symbol(t) => t,
        Val::Ref(a) => "ref("@ + decimal(a as nat) + ")"@,
        Val::Closure(_) => "closure"@,
        Val::Coroutine(_) => "coroutine"@,
        Val::String(t) => t,
        Val::Nil => "nil"@,
    }
}

/// `ToString`: the text of the value is produced; for a double the host
/// is asked.
pub open spec fn op_to_string(s: VmState, a: usize) -> Outcome {
    if a >= s.current.locals.len() {
        Outcome::Fault(Fault::AccessMissingLocal(a))
    } else {
        match s.current.locals[a as int] {
            Val::Float(x) => Outcome::Ask(Ask::Apply(FloatOp::ToString, x, 0)),
            v => produce(s, Val::String(text_of(v))),
        }
    }
}

/// `Concat`: both slots must hold strings; the first followed by the
/// second is produced.
pub open spec fn op_concat(s: VmState, a: usize, b: usize) -> Outcome {
    if a >= s.current.locals.len() {
        Outcome::Fault(Fault::AccessMissingLocal(a))
    } else if b >= s.current.locals.len() {
        Outcome::Fault(Fault::AccessMissingLocal(b))
    } else {
        match (s.current.locals[a as int], s.current.locals[b as int]) {
            (Val::String(x), Val::String(y)) => produce(s, Val::String(x + y)),
            (Val::String(_), _) => unexpected(s, b, "string"@),
            _ => unexpected(s, a, "string"@),
        }
    }
}

/// What the instruction `op` does in state `s`.
pub open spec fn exec_op(procs: Seq<Proc>, s: VmState, op: Op) -> Outcome {
    match op {
        Op::Call(p, a) => op_call(procs, s, p, a@),
        Op::DynCall(l, a) => op_dyn_call(procs, s, l, a@),
        Op::Resume(l) => op_resume(procs, s, l),
        Op::ReturnLocal(l) => op_return(s, l),
        Op::Jump(i) => Outcome::Next(VmState { current: FrameV { ip: i, ..s.current }, ..s }),
        Op::BranchTrue { label, local } => op_branch(s, label, local),
        Op::SetLocalData(l, v) => op_set_data(s, l, v@),
        Op::SetLocalFloat(l, t) => op_set_float(s, l, t@),
        Op::SetLocalReturn(l) => op_set_return(s, l),
        Op::SetLocalVar { src, dest } => op_set_var(s, src, dest),
        Op::GetLength(l) => op_get_length(s, l),
        Op::GetType(l) => op_get_type(s, l),
        Op::GetSlot { local, index } => op_get_slot(s, local, index),
        Op::IsNil(l) => op_is_nil(s, l),
        Op::Closure { proc_id, env } => op_closure(s, proc_id, env@),
        Op::Cons { sym_var, params } => op_cons(s, sym_var, params@),
        Op::Coroutine { proc_id, params } => op_coroutine(s, proc_id, params@),
        Op::DynCoroutine { local, params } => op_dyn_coroutine(s, local, params@),
        Op::Yield(l) => op_yield(s, l),
        Op::Break => leave(s, CoV::Ended, Val::Nil),
        Op::Delete(l) => op_delete(s, l),
        Op::InsertSlot { dest, src, index } => op_insert_slot(s, dest, src, index),
        Op::RemoveSlot { local, index } => op_remove_slot(s, local, index),
        Op::Nop => Outcome::Next(advance(s)),
        Op::Add(a, b) => op_numeric(s, Numeric::Add, a, b),
        Op::Sub(a, b) => op_numeric(s, Numeric::Sub, a, b),
        Op::Mul(a, b) => op_numeric(s, Numeric::Mul, a, b),
        Op::Div(a, b) => op_numeric(s, Numeric::Div, a, b),
        Op::Mod(a, b) => op_numeric(s, Numeric::Mod, a, b),
        Op::Neg(a) => op_neg(s, a),
        Op::Eq(a, b) => op_eq(s, a, b),
        Op::Gt(a, b) => op_numeric(s, Numeric::Gt, a, b),
        Op::Lt(a, b) => op_numeric(s, Numeric::Lt, a, b),
        Op::Not(a) => op_not(s, a),
        Op::And(a, b) => op_logic(s, Logic::And, a, b),
        Op::Or(a, b) => op_logic(s, Logic::Or, a, b),
        Op::Xor(a, b) => op_logic(s, Logic::Xor, a, b),
        Op::ToString(a) => op_to_string(s, a),
        Op::Concat(a, b) => op_concat(s, a, b),
    }
}

/// What the machine does next in state `s`: the current frame's procedure
/// and instruction must exist, and that instruction is executed.
#[verifier::opaque]
pub open spec fn step(procs: Seq<Proc>, s: VmState) -> Outcome {
    if s.current.proc_id >= procs.len() {
        Outcome::Fault(Fault::ProcDoesNotExist(s.current.proc_id))
    } else if s.current.ip >= procs[s.current.proc_id as int].instrs.len() {
        Outcome::Fault(Fault::InstrPointerOutOfRange(s.current.ip))
    } else {
        exec_op(procs, s, procs[s.current.proc_id as int].instrs[s.current.ip as int])
    }
}

/// Whether `v` is an answer to `q`: a truth value for a comparison, a
/// string for a text, a double otherwise.
pub open spec fn fits(q: Ask, v: Val) -> bool {
    match q {
        Ask::Decode(_) => v is Float,
        Ask::Apply(op, _, _) => match op {
            FloatOp::Eq | FloatOp::Gt | FloatOp::Lt => v is Bool,
            FloatOp::ToString => v is String,
            _ => v is Float,
        },
    }
}

/// The state after the host answered the pending question with `v`: a
/// decoded literal goes to the instruction's slot, any other answer to the
/// return register.
pub open spec fn answered(procs: Seq<Proc>, s: VmState, v: Val) -> Outcome {
    match step(procs, s) {
        Outcome::Ask(q) => if fits(q, v) {
            match procs[s.current.proc_id as int].instrs[s.current.ip as int] {
                Op::SetLocalFloat(slot, _) => store(s, slot, v),
                _ => produce(s, v),
            }
        } else {
            Outcome::Ask(q)
        },
        o => o,
    }
}

/// The name of a procedure, empty for one that does not exist.
pub open spec fn proc_name(procs: Seq<Proc>, id: usize) -> Seq<char> {
    if id < procs.len() {
        procs[id as int].name@
    } else {
        Seq::empty()
    }
}

/// The instruction that a saved frame was at when it was left.
pub open spec fn call_site(f: FrameV) -> usize {
    if f.ip > 0 {
        (f.ip - 1) as usize
    } else {
        0
    }
}

/// The stack trace in state `s`: each saved frame, oldest first, with the
/// instruction it was left at, then the current frame with its own.
pub open spec fn trace_of(procs: Seq<Proc>, s: VmState) -> Seq<(Seq<char>, usize)> {
    Seq::new(
        s.frames.len() + 1,
        |i: int|
            if i < s.frames.len() {
                (proc_name(procs, s.frames[i].proc_id), call_site(s.frames[i]))
            } else {
                (proc_name(procs, s.current.proc_id), s.current.ip)
            },
    )
}

/// How a run ends.
pub enum Ending {
    /// The entry procedure returned this value.
    Halt(Val),
    /// The next instruction needs an answer from the host.
    Ask(Ask),
    Fault(Fault),
    /// The step budget ran out.
    Paused,
}

/// The state and the ending after at most `fuel` instructions from `s`.
pub open spec fn run(procs: Seq<Proc>, s: VmState, fuel: nat) -> (VmState, Ending)
    decreases fuel,
{
    if fuel == 0 {
        (s, Ending::Paused)
    } else {
        match step(procs, s) {
            Outcome::Next(t) => run(procs, t, (fuel - 1) as nat),
            Outcome::Halt(v) => (s, Ending::Halt(v)),
            Outcome::Ask(q) => (s, Ending::Ask(q)),
            Outcome::Fault(f) => (s, Ending::Fault(f)),
        }
    }
}

/// The state in which a run from procedure `entry` begins: a fresh frame
/// of `Nil` slots, no saved frames, no running coroutine, nothing returned.
pub open spec fn entered(procs: Seq<Proc>, s: VmState, entry: usize) -> VmState {
    VmState {
        frames: Seq::empty(),
        current: FrameV {
            proc_id: entry,
            ip: 0,
            locals: fill(Seq::empty(), procs[entry as int].stack_size),
        },
        running: Seq::empty(),
        ret: None,
        ..s
    }
}

} // verus!
