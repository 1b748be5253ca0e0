use vstd::prelude::*;

verus! {

/// The views of the elements of a sequence, in order.
pub open spec fn views<T: View>(s: Seq<T>) -> Seq<T::V> {
    s.map_values(|t: T| t@)
}

/// Mathematical model of a runtime value.
pub enum Val {
    Bool(bool),
    Int(i64),
    /// A double, by its bit pattern.
    Float(u64),
    Symbol(Seq<char>),
    Ref(usize),
    /// A closure, by its handle in the machine's closure table.
    Closure(usize),
    /// A coroutine, by its handle in the machine's coroutine table.
    Coroutine(usize),
    String(Seq<char>),
    Nil,
}

/// A runtime value. Doubles are carried as bit patterns; closures and
/// coroutines are handles into the tables of the machine that made them.
#[derive(Debug, PartialEq)]
pub enum RuntimeData {
    Bool(bool),
    Int(i64),
    Float(u64),
    Symbol(String),
    Ref(usize),
    Closure(usize),
    Coroutine(usize),
    String(String),
    Nil,
}

impl View for RuntimeData {
    type V = Val;

    open spec fn view(&self) -> Val {
        match self {
            RuntimeData::Bool(b) => Val::Bool(*b),
            RuntimeData::Int(n) => Val::Int(*n),
            RuntimeData::Float(f) => Val::Float(*f),
            RuntimeData::Symbol(s) => Val::Symbol(s@),
            RuntimeData::Ref(a) => Val::Ref(*a),
            RuntimeData::Closure(h) => Val::Closure(*h),
            RuntimeData::Coroutine(h) => Val::Coroutine(*h),
            RuntimeData::String(s) => Val::String(s@),
            RuntimeData::Nil => Val::Nil,
        }
    }
}

impl Clone for RuntimeData {
    fn clone(&self) -> (r: RuntimeData)
        ensures
            r@ == self@,
    {
        match self {
            RuntimeData::Bool(b) => RuntimeData::Bool(*b),
            RuntimeData::Int(n) => RuntimeData::Int(*n),
            RuntimeData::Float(f) => RuntimeData::Float(*f),
            RuntimeData::Symbol(s) => RuntimeData::Symbol(s.clone()),
            RuntimeData::Ref(a) => RuntimeData::Ref(*a),
            RuntimeData::Closure(h) => RuntimeData::Closure(*h),
            RuntimeData::Coroutine(h) => RuntimeData::Coroutine(*h),
            RuntimeData::String(s) => RuntimeData::String(s.clone()),
            RuntimeData::Nil => RuntimeData::Nil,
        }
    }
}

/// Copies a list of values.
pub fn clone_values(v: &Vec<RuntimeData>) -> (r: Vec<RuntimeData>)
    ensures
        views(r@) == views(v@),
{
    let mut r: Vec<RuntimeData> = Vec::new();
    let mut i: usize = 0;
    while i < v.len()
        invariant
            i <= v.len(),
            r.len() == i,
            forall|j: int| 0 <= j < i ==> r[j]@ == v[j]@,
        decreases v.len() - i,
    {
        r.push(v[i].clone());
        i += 1;
    }
    assert(views(r@) =~= views(v@));
    r
}

/// One instruction of the machine. Every `usize` operand is a slot of the
/// current frame, but for procedure ids, cell indices and jump targets.
#[derive(Debug, PartialEq)]
pub enum Op {
    Call(usize, Vec<usize>),
    DynCall(usize, Vec<usize>),
    Resume(usize),
    ReturnLocal(usize),
    Jump(usize),
    BranchTrue { label: usize, local: usize },
    SetLocalData(usize, RuntimeData),
    /// Writes a double given by the text of its literal.
    SetLocalFloat(usize, String),
    SetLocalReturn(usize),
    SetLocalVar { src: usize, dest: usize },
    GetLength(usize),
    GetType(usize),
    GetSlot { local: usize, index: usize },
    IsNil(usize),
    Closure { proc_id: usize, env: Vec<usize> },
    Cons { sym_var: usize, params: Vec<usize> },
    Coroutine { proc_id: usize, params: Vec<usize> },
    DynCoroutine { local: usize, params: Vec<usize> },
    Yield(usize),
    Break,
    Delete(usize),
    InsertSlot { dest: usize, src: usize, index: usize },
    RemoveSlot { local: usize, index: usize },
    Nop,
    Add(usize, usize),
    Sub(usize, usize),
    Mul(usize, usize),
    Div(usize, usize),
    Mod(usize, usize),
    Neg(usize),
    Eq(usize, usize),
    Gt(usize, usize),
    Lt(usize, usize),
    Not(usize),
    And(usize, usize),
    Or(usize, usize),
    Xor(usize, usize),
    ToString(usize),
    Concat(usize, usize),
}

/// Mathematical model of an instruction.
pub enum OpV {
    Call(usize, Seq<usize>),
    DynCall(usize, Seq<usize>),
    Resume(usize),
    ReturnLocal(usize),
    Jump(usize),
    BranchTrue { label: usize, local: usize },
    SetLocalData(usize, Val),
    SetLocalFloat(usize, Seq<char>),
    SetLocalReturn(usize),
    SetLocalVar { src: usize, dest: usize },
    GetLength(usize),
    GetType(usize),
    GetSlot { local: usize, index: usize },
    IsNil(usize),
    Closure { proc_id: usize, env: Seq<usize> },
    Cons { sym_var: usize, params: Seq<usize> },
    Coroutine { proc_id: usize, params: Seq<usize> },
    DynCoroutine { local: usize, params: Seq<usize> },
    Yield(usize),
    Break,
    Delete(usize),
    InsertSlot { dest: usize, src: usize, index: usize },
    RemoveSlot { local: usize, index: usize },
    Nop,
    Add(usize, usize),
    Sub(usize, usize),
    Mul(usize, usize),
    Div(usize, usize),
    Mod(usize, usize),
    Neg(usize),
    Eq(usize, usize),
    Gt(usize, usize),
    Lt(usize, usize),
    Not(usize),
    And(usize, usize),
    Or(usize, usize),
    Xor(usize, usize),
    ToString(usize),
    Concat(usize, usize),
}

impl View for Op {
    type V = OpV;

    open spec fn view(&self) -> OpV {
        match self {
            Op::Call(p, a) => OpV::Call(*p, a@),
            Op::DynCall(l, a) => OpV::DynCall(*l, a@),
            Op::Resume(l) => OpV::Resume(*l),
            Op::ReturnLocal(l) => OpV::ReturnLocal(*l),
            Op::Jump(i) => OpV::Jump(*i),
            Op::BranchTrue { label, local } => OpV::BranchTrue { label: *label, local: *local },
            Op::SetLocalData(l, v) => OpV::SetLocalData(*l, v@),
            Op::SetLocalFloat(l, t) => OpV::SetLocalFloat(*l, t@),
            Op::SetLocalReturn(l) => OpV::SetLocalReturn(*l),
            Op::SetLocalVar { src, dest } => OpV::SetLocalVar { src: *src, dest: *dest },
            Op::GetLength(l) => OpV::GetLength(*l),
            Op::GetType(l) => OpV::GetType(*l),
            Op::GetSlot { local, index } => OpV::GetSlot { local: *local, index: *index },
            Op::IsNil(l) => OpV::IsNil(*l),
            Op::Closure { proc_id, env } => OpV::Closure { proc_id: *proc_id, env: env@ },
            Op::Cons { sym_var, params } => OpV::Cons { sym_var: *sym_var, params: params@ },
            Op::Coroutine { proc_id, params } => OpV::Coroutine {
                proc_id: *proc_id,
                params: params@,
            },
            Op::DynCoroutine { local, params } => OpV::DynCoroutine {
                local: *local,
                params: params@,
            },
            Op::Yield(l) => OpV::Yield(*l),
            Op::Break => OpV::Break,
            Op::Delete(l) => OpV::Delete(*l),
            Op::InsertSlot { dest, src, index } => OpV::InsertSlot {
                dest: *dest,
                src: *src,
                index: *index,
            },
            Op::RemoveSlot { local, index } => OpV::RemoveSlot { local: *local, index: *index },
            Op::Nop => OpV::Nop,
            Op::Add(a, b) => OpV::Add(*a, *b),
            Op::Sub(a, b) => OpV::Sub(*a, *b),
            Op::Mul(a, b) => OpV::Mul(*a, *b),
            Op::Div(a, b) => OpV::Div(*a, *b),
            Op::Mod(a, b) => OpV::Mod(*a, *b),
            Op::Neg(a) => OpV::Neg(*a),
            Op::Eq(a, b) => OpV::Eq(*a, *b),
            Op::Gt(a, b) => OpV::Gt(*a, *b),
            Op::Lt(a, b) => OpV::Lt(*a, *b),
            Op::Not(a) => OpV::Not(*a),
            Op::And(a, b) => OpV::And(*a, *b),
            Op::Or(a, b) => OpV::Or(*a, *b),
            Op::Xor(a, b) => OpV::Xor(*a, *b),
            Op::ToString(a) => OpV::ToString(*a),
            Op::Concat(a, b) => OpV::Concat(*a, *b),
        }
    }
}

/// A compiled procedure: its code and the number of slots its frame needs.
#[derive(Debug, PartialEq)]
pub struct Proc {
    pub name: String,
    pub instrs: Vec<Op>,
    pub stack_size: usize,
}

/// Mathematical model of a compiled procedure.
pub struct ProcV {
    pub name: Seq<char>,
    pub instrs: Seq<OpV>,
    pub stack_size: usize,
}

impl View for Proc {
    type V = ProcV;

    open spec fn view(&self) -> ProcV {
        ProcV { name: self.name@, instrs: views(self.instrs@), stack_size: self.stack_size }
    }
}

/// Mathematical model of a frame.
pub struct FrameV {
    pub proc_id: usize,
    pub ip: usize,
    pub locals: Seq<Val>,
}

/// A call activation: which procedure, where in it, and its slots.
#[derive(Debug, PartialEq)]
pub struct Frame {
    pub proc_id: usize,
    pub ip: usize,
    pub locals: Vec<RuntimeData>,
}

impl View for Frame {
    type V = FrameV;

    open spec fn view(&self) -> FrameV {
        FrameV { proc_id: self.proc_id, ip: self.ip, locals: views(self.locals@) }
    }
}

impl Clone for Frame {
    fn clone(&self) -> (r: Frame)
        ensures
            r@ == self@,
    {
        Frame { proc_id: self.proc_id, ip: self.ip, locals: clone_values(&self.locals) }
    }
}

/// Mathematical model of a coroutine's state.
pub enum CoV {
    Start { proc_id: usize, params: Seq<Val> },
    DynStart { closure: usize, params: Seq<Val> },
    Active(FrameV),
    Running,
    Ended,
}

/// The state of a coroutine. `Running` marks one that has been entered and
/// has neither yielded nor broken since.
#[derive(Debug, PartialEq)]
pub enum Coroutine {
    /// Not yet entered; made from a procedure.
    Start { proc_id: usize, params: Vec<RuntimeData> },
    /// Not yet entered; made from a closure, given by its handle.
    DynStart { closure: usize, params: Vec<RuntimeData> },
    /// Suspended at a yield.
    Active(Frame),
    Running,
    Ended,
}

impl View for Coroutine {
    type V = CoV;

    open spec fn view(&self) -> CoV {
        match self {
            Coroutine::Start { proc_id, params } => CoV::Start {
                proc_id: *proc_id,
                params: views(params@),
            },
            Coroutine::DynStart { closure, params } => CoV::DynStart {
                closure: *closure,
                params: views(params@),
            },
            Coroutine::Active(f) => CoV::Active(f@),
            Coroutine::Running => CoV::Running,
            Coroutine::Ended => CoV::Ended,
        }
    }
}

impl Coroutine {
    /// Whether the coroutine can still produce a value.
    pub fn is_alive(&self) -> (r: bool)
        ensures
            r == !(self@ is Ended),
    {
        match self {
            Coroutine::Ended => false,
            _ => true,
        }
    }
}

/// Mathematical model of a heap cell.
pub enum CellV {
    Cons { name: Seq<char>, params: Seq<Val> },
    Nil,
}

/// What a heap address holds: a tagged cell, or nothing.
#[derive(Debug, PartialEq)]
pub enum Heap {
    Cons { name: String, params: Vec<RuntimeData> },
    Nil,
}

impl View for Heap {
    type V = CellV;

    open spec fn view(&self) -> CellV {
        match self {
            Heap::Cons { name, params } => CellV::Cons { name: name@, params: views(params@) },
            Heap::Nil => CellV::Nil,
        }
    }
}

/// Mathematical model of a closure.
pub struct ClosureV {
    pub proc_id: usize,
    pub env: Seq<Val>,
}

/// A procedure with the values it captured.
#[derive(Debug, PartialEq)]
pub struct Closure {
    pub proc_id: usize,
    pub env: Vec<RuntimeData>,
}

impl View for Closure {
    type V = ClosureV;

    open spec fn view(&self) -> ClosureV {
        ClosureV { proc_id: self.proc_id, env: views(self.env@) }
    }
}

} // verus!
