use vstd::prelude::*;
use crate::util::{decimal, push_decimal};

verus! {

/// For each frame, oldest first: the procedure's name and an instruction index.
pub type StackTrace = Vec<(String, usize)>;

/// What went wrong in the machine, without the trace.
pub enum Fault {
    ProcDoesNotExist(usize),
    InstrPointerOutOfRange(usize),
    AccessMissingReturn,
    AccessMissingLocal(usize),
    LocalUnexpectedType { local: usize, expected: Seq<char>, found: Seq<char> },
    AccessNilHeap(usize),
    AccessMissingSlotIndex(usize),
    TopLevelYield(usize),
}

/// A fatal error of the machine, with the stack trace at the point of failure.
#[derive(Debug, PartialEq)]
pub enum VmError {
    ProcDoesNotExist(usize, StackTrace),
    InstrPointerOutOfRange(usize, StackTrace),
    AccessMissingReturn(StackTrace),
    AccessMissingLocal(usize, StackTrace),
    LocalUnexpectedType {
        local: usize,
        stack_trace: StackTrace,
        expected: &'static str,
        found: &'static str,
    },
    /// The address holds no cell.
    AccessNilHeap(usize, StackTrace),
    /// The index is outside the cell's slots.
    AccessMissingSlotIndex(usize, StackTrace),
    /// A `Yield` or `Break` outside any coroutine, at this instruction.
    TopLevelYield(usize, StackTrace),
}

/// Mathematical model of a stack trace.
pub open spec fn trace_view(t: Seq<(String, usize)>) -> Seq<(Seq<char>, usize)> {
    t.map_values(|e: (String, usize)| (e.0@, e.1))
}

impl VmError {
    /// The kind of the error and its payload.
    pub open spec fn fault(&self) -> Fault {
        match self {
            VmError::ProcDoesNotExist(p, _) => Fault::ProcDoesNotExist(*p),
            VmError::InstrPointerOutOfRange(i, _) => Fault::InstrPointerOutOfRange(*i),
            VmError::AccessMissingReturn(_) => Fault::AccessMissingReturn,
            VmError::AccessMissingLocal(l, _) => Fault::AccessMissingLocal(*l),
            VmError::LocalUnexpectedType { local, stack_trace, expected, found } => {
                Fault::LocalUnexpectedType { local: *local, expected: expected@, found: found@ }
            },
            VmError::AccessNilHeap(a, _) => Fault::AccessNilHeap(*a),
            VmError::AccessMissingSlotIndex(i, _) => Fault::AccessMissingSlotIndex(*i),
            VmError::TopLevelYield(i, _) => Fault::TopLevelYield(*i),
        }
    }

    /// The trace the error carries.
    pub open spec fn trace(&self) -> Seq<(Seq<char>, usize)> {
        match self {
            VmError::ProcDoesNotExist(_, t) => trace_view(t@),
            VmError::InstrPointerOutOfRange(_, t) => trace_view(t@),
            VmError::AccessMissingReturn(t) => trace_view(t@),
            VmError::AccessMissingLocal(_, t) => trace_view(t@),
            VmError::LocalUnexpectedType { local, stack_trace, expected, found } => trace_view(
                stack_trace@,
            ),
            VmError::AccessNilHeap(_, t) => trace_view(t@),
            VmError::AccessMissingSlotIndex(_, t) => trace_view(t@),
            VmError::TopLevelYield(_, t) => trace_view(t@),
        }
    }
}

/// The lines of a trace: for each entry, four spaces, the procedure's
/// name, ` at index `, the instruction index, and a line feed.
pub open spec fn trace_text(t: Seq<(Seq<char>, usize)>) -> Seq<char>
    decreases t.len(),
{
    if t.len() == 0 {
        Seq::empty()
    } else {
        trace_text(t.drop_last()) + "    "@ + t.last().0 + " at index "@ + decimal(t.last().1 as nat)
            + seq!['\n']
    }
}

/// The message for an error: what went wrong, then the trace.
pub open spec fn message(f: Fault, t: Seq<(Seq<char>, usize)>) -> Seq<char> {
    match f {
        Fault::ProcDoesNotExist(p) => "Proc Index "@ + decimal(p as nat) + " does not exist: \n"@
            + trace_text(t),
        Fault::InstrPointerOutOfRange(i) => "Instr Index "@ + decimal(i as nat)
            + " does not exist: \n"@ + trace_text(t),
        Fault::AccessMissingReturn => "Attempting to access missing return: \n"@ + trace_text(t),
        Fault::AccessMissingLocal(l) => "Attempting to access missing local "@ + decimal(l as nat)
            + ": \n"@ + trace_text(t),
        Fault::LocalUnexpectedType { local, expected, found } => "Local "@ + decimal(local as nat)
            + " was unexpected type.  Expected: "@ + expected + ", but found "@ + found + ": \n"@
            + trace_text(t),
        Fault::AccessNilHeap(a) => "Attempting to access nil heap address "@ + decimal(a as nat)
            + ": \n"@ + trace_text(t),
        Fault::AccessMissingSlotIndex(i) => "Attempting to access missing slot index "@ + decimal(
            i as nat,
        ) + ": \n"@ + trace_text(t),
        Fault::TopLevelYield(i) => "Top Level Yield not supported at instruction "@ + decimal(
            i as nat,
        ) + ": \n"@ + trace_text(t),
    }
}

fn push_trace(s: &mut String, t: &StackTrace)
    ensures
        final(s)@ == old(s)@ + trace_text(trace_view(t@)),
{
    let ghost tv = trace_view(t@);
    let mut i: usize = 0;
    assert(tv.take(0) =~= Seq::empty());
    while i < t.len()
        invariant
            i <= t.len(),
            tv == trace_view(t@),
            s@ == old(s)@ + trace_text(tv.take(i as int)),
        decreases t.len() - i,
    {
        assert(tv.take(i + 1).drop_last() =~= tv.take(i as int));
        let ghost before = s@;
        s.append("    ");
        s.append(t[i].0.as_str());
        s.append(" at index ");
        push_decimal(s, t[i].1 as u64);
        s.push('\n');
        assert(s@ =~= old(s)@ + trace_text(tv.take(i + 1)));
        i += 1;
    }
    assert(tv.take(t.len() as int) =~= tv);
}

impl VmError {
    /// The message for the error: what went wrong, then the trace.
    pub fn describe(&self) -> (r: String)
        ensures
            r@ == message(self.fault(), self.trace()),
    {
        match self {
            VmError::ProcDoesNotExist(p, t) => {
                let mut s = String::from_str("Proc Index ");
                push_decimal(&mut s, *p as u64);
                s.append(" does not exist: \n");
                push_trace(&mut s, t);
                s
            },
            VmError::InstrPointerOutOfRange(i, t) => {
                let mut s = String::from_str("Instr Index ");
                push_decimal(&mut s, *i as u64);
                s.append(" does not exist: \n");
                push_trace(&mut s, t);
                s
            },
            VmError::AccessMissingReturn(t) => {
                let mut s = String::from_str("Attempting to access missing return: \n");
                push_trace(&mut s, t);
                s
            },
            VmError::AccessMissingLocal(l, t) => {
                let mut s = String::from_str("Attempting to access missing local ");
                push_decimal(&mut s, *l as u64);
                s.append(": \n");
                push_trace(&mut s, t);
                s
            },
            VmError::LocalUnexpectedType { local, stack_trace, expected, found } => {
                let mut s = String::from_str("Local ");
                push_decimal(&mut s, *local as u64);
                s.append(" was unexpected type.  Expected: ");
                s.append(expected);
                s.append(", but found ");
                s.append(found);
                s.append(": \n");
                push_trace(&mut s, stack_trace);
                s
            },
            VmError::AccessNilHeap(a, t) => {
                let mut s = String::from_str("Attempting to access nil heap address ");
                push_decimal(&mut s, *a as u64);
                s.append(": \n");
                push_trace(&mut s, t);
                s
            },
            VmError::AccessMissingSlotIndex(i, t) => {
                let mut s = String::from_str("Attempting to access missing slot index ");
                push_decimal(&mut s, *i as u64);
                s.append(": \n");
                push_trace(&mut s, t);
                s
            },
            VmError::TopLevelYield(i, t) => {
                let mut s = String::from_str("Top Level Yield not supported at instruction ");
                push_decimal(&mut s, *i as u64);
                s.append(": \n");
                push_trace(&mut s, t);
                s
            },
        }
    }
}

} // verus!
