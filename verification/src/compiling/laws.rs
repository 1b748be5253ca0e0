use vstd::prelude::*;
use crate::eval::data::{OpV, ProcV};
use crate::parsing::ir_parser::{ExprV, ProcV as PProcV, StmtV, TopV, Type};
use super::lowering::{
    add_sigs, body_slots, callee_at, CompileErrorV, context, Ctx, dest, Dynamic, dynamic_type,
    dynamic_want, label_of, lemma_find_last, LOpV, lower_body, lower_dynamic, lower_named,
    lower_proc, lower_procs, lower_set, lower_stmt, lower_unary, Named, named_type, param_slots,
    Primitive, primitive_proc, primitive_sigs, primitive_table, proc_of, procs_of, resolve,
    resolve_all, Sig, sig_names, sigs_of, slot_for, slot_names, slot_of, Slots, slots_for, slots_of,
    Unary, unary_type, unary_want,
};

verus! {

/// The slots that an instruction refers to.
pub open spec fn refs(op: OpV) -> Seq<usize> {
    match op {
        OpV::Call(_, a) => a,
        OpV::DynCall(l, a) => seq![l] + a,
        OpV::Resume(l) => seq![l],
        OpV::ReturnLocal(l) => seq![l],
        OpV::Jump(_) => Seq::empty(),
        OpV::BranchTrue { label, local } => seq![local],
        OpV::SetLocalData(l, _) => seq![l],
        OpV::SetLocalFloat(l, _) => seq![l],
        OpV::SetLocalReturn(l) => seq![l],
        OpV::SetLocalVar { src, dest } => seq![src, dest],
        OpV::GetLength(l) => seq![l],
        OpV::GetType(l) => seq![l],
        OpV::GetSlot { local, index } => seq![local],
        OpV::IsNil(l) => seq![l],
        OpV::Closure { proc_id, env } => env,
        OpV::Cons { sym_var, params } => seq![sym_var] + params,
        OpV::Coroutine { proc_id, params } => params,
        OpV::DynCoroutine { local, params } => seq![local] + params,
        OpV::Yield(l) => seq![l],
        OpV::Break => Seq::empty(),
        OpV::Delete(l) => seq![l],
        OpV::InsertSlot { dest, src, index } => seq![dest, src],
        OpV::RemoveSlot { local, index } => seq![local],
        OpV::Nop => Seq::empty(),
        OpV::Add(a, b) => seq![a, b],
        OpV::Sub(a, b) => seq![a, b],
        OpV::Mul(a, b) => seq![a, b],
        OpV::Div(a, b) => seq![a, b],
        OpV::Mod(a, b) => seq![a, b],
        OpV::Neg(a) => seq![a],
        OpV::Eq(a, b) => seq![a, b],
        OpV::Gt(a, b) => seq![a, b],
        OpV::Lt(a, b) => seq![a, b],
        OpV::Not(a) => seq![a],
        OpV::And(a, b) => seq![a, b],
        OpV::Or(a, b) => seq![a, b],
        OpV::Xor(a, b) => seq![a, b],
        OpV::ToString(a) => seq![a],
        OpV::Concat(a, b) => seq![a, b],
    }
}

/// Whether every slot that the instruction refers to is below `size`.
pub open spec fn in_frame(op: OpV, size: nat) -> bool {
    forall|j: int| 0 <= j < refs(op).len() ==> #[trigger] refs(op)[j] < size
}

/// The instruction that a jump or branch goes to.
pub open spec fn target(op: OpV) -> Option<usize> {
    match op {
        OpV::Jump(i) => Some(i),
        OpV::BranchTrue { label, local } => Some(label),
        _ => None,
    }
}

/// Whether instruction `k` of `instrs` stays in a frame of `size` slots
/// and, if it jumps, goes to a `Nop` of `instrs`.
pub open spec fn instr_ok(instrs: Seq<OpV>, k: int, size: nat) -> bool {
    in_frame(instrs[k], size) && (target(instrs[k]) matches Some(t) ==> t < instrs.len()
        && instrs[t as int] == OpV::Nop)
}

/// Whether every instruction of a compiled procedure refers to slots of
/// its frame only, and every jump and branch goes to a `Nop` of the
/// procedure.
pub open spec fn well_formed(p: ProcV) -> bool {
    forall|k: int| 0 <= k < p.instrs.len() ==> #[trigger] instr_ok(p.instrs, k, p.stack_size as nat)
}

/// Whether the locals `args` have the declared types `types`, one by one.
pub open spec fn typed_as(slots: Slots, args: Seq<usize>, types: Seq<Type>) -> bool {
    args.len() <= types.len() && forall|j: int|
        0 <= j < args.len() ==> (#[trigger] args[j]) < slots.len() && slots[args[j] as int].1
            == types[j]
}

/// Whether the locals `args` give the parameters that a closure of
/// procedure `g` with `n` captured locals has not captured, each with the
/// parameter's declared type.
pub open spec fn completes(slots: Slots, sigs: Seq<Sig>, g: Seq<char>, n: nat, args: Seq<usize>) -> bool {
    proc_of(sigs, g) is Some && n + args.len() == sigs[proc_of(sigs, g)->0].params.len()
        && typed_as(slots, args, sigs[proc_of(sigs, g)->0].params.skip(n as int))
}

/// Whether an instruction with a callee agrees with the callee's
/// signature: the callee exists; a call and a coroutine give as many
/// locals as it has parameters, a closure captures no more; each local has
/// the declared type of the parameter at its position. A call or a
/// coroutine through a slot that is known to hold a closure gives the
/// parameters that the closure has not captured.
pub open spec fn call_ok(c: Ctx, op: OpV) -> bool {
    let slots = c.slots;
    let sigs = c.sigs;
    match op {
        OpV::Call(p, args) => p < sigs.len() && args.len() == sigs[p as int].params.len()
            && typed_as(slots, args, sigs[p as int].params),
        OpV::Coroutine { proc_id, params } => proc_id < sigs.len() && params.len()
            == sigs[proc_id as int].params.len() && typed_as(
            slots,
            params,
            sigs[proc_id as int].params,
        ),
        OpV::Closure { proc_id, env } => proc_id < sigs.len() && typed_as(
            slots,
            env,
            sigs[proc_id as int].params,
        ),
        OpV::DynCall(l, args) => callee_at(c, l, Dynamic::DynCall) matches Some((g, n))
            ==> completes(slots, sigs, g, n, args),
        OpV::DynCoroutine { local, params } => callee_at(
            c,
            local,
            Dynamic::DynCoroutine,
        ) matches Some((g, n)) ==> completes(slots, sigs, g, n, params),
        _ => true,
    }
}

/// What holds of an instruction before labels are resolved.
pub open spec fn lop_ok(c: Ctx, op: LOpV) -> bool {
    match op {
        LOpV::Op(x) => in_frame(x, c.slots.len()) && target(x) is None && call_ok(c, x),
        _ => true,
    }
}

/// A slot that is found is a slot of the frame, stands for the local, and
/// has the type that was expected.
pub proof fn lemma_slot_for(c: Ctx, local: Seq<char>, expected: Option<Type>)
    requires
        c.slots.len() <= usize::MAX,
    ensures
        slot_for(c, local, expected) matches Ok(i) ==> i < c.slots.len() && c.slots[i as int].0
            == local && (expected matches Some(t) ==> c.slots[i as int].1 == t),
{
    lemma_find_last(slot_names(c.slots), local);
}

/// As `lemma_slot_for`, for a list of locals.
pub proof fn lemma_slots_for(c: Ctx, locals: Seq<Seq<char>>, types: Option<Seq<Type>>)
    requires
        c.slots.len() <= usize::MAX,
    ensures
        slots_for(c, locals, types) matches Ok(v) ==> v.len() == locals.len() && (forall|j: int|
            0 <= j < v.len() ==> (#[trigger] v[j]) < c.slots.len()) && (types matches Some(ts)
            ==> forall|j: int| 0 <= j < v.len() ==> c.slots[(#[trigger] v[j]) as int].1 == ts[j]),
    decreases locals.len(),
{
    if locals.len() > 0 {
        lemma_slots_for(c, locals.drop_last(), types);
        lemma_slot_for(
            c,
            locals.last(),
            match types {
                Some(ts) => Some(ts[locals.len() - 1]),
                None => None,
            },
        );
    }
}

/// The destination of a `set` is a slot of the frame.
pub proof fn lemma_dest(c: Ctx, var: Seq<char>, ttype: Type, rt: Option<Type>)
    requires
        c.slots.len() <= usize::MAX,
    ensures
        dest(c, var, ttype, rt) matches Ok(i) ==> i < c.slots.len(),
{
    lemma_slot_for(c, var, Some(ttype));
}

proof fn lemma_lower_named(
    c: Ctx,
    var: Seq<char>,
    ttype: Type,
    name: Seq<char>,
    params: Seq<Seq<char>>,
    k: Named,
)
    requires
        c.slots.len() <= usize::MAX,
        c.sigs.len() <= usize::MAX,
    ensures
        lower_named(c, var, ttype, name, params, k) matches Ok(ops) ==> forall|i: int|
            0 <= i < ops.len() ==> lop_ok(c, #[trigger] ops[i]),
{
    lemma_find_last(sig_names(c.sigs), name);
    if proc_of(c.sigs, name) is Some {
        let p = proc_of(c.sigs, name)->0;
        lemma_dest(c, var, ttype, Some(named_type(k, c.sigs[p])));
        lemma_slots_for(c, params, Some(c.sigs[p].params));
    }
}

proof fn lemma_lower_dynamic(
    c: Ctx,
    var: Seq<char>,
    ttype: Type,
    name: Seq<char>,
    params: Seq<Seq<char>>,
    k: Dynamic,
)
    requires
        c.slots.len() <= usize::MAX,
    ensures
        lower_dynamic(c, var, ttype, name, params, k) matches Ok(ops) ==> forall|i: int|
            0 <= i < ops.len() ==> lop_ok(c, #[trigger] ops[i]),
{
    lemma_slot_for(c, name, Some(dynamic_want(k)));
    lemma_dest(c, var, ttype, dynamic_type(k));
    lemma_slots_for(c, params, None);
    if slot_for(c, name, Some(dynamic_want(k))) is Ok {
        let l = slot_for(c, name, Some(dynamic_want(k)))->Ok_0;
        if callee_at(c, l, k) is Some {
            let (g, n) = callee_at(c, l, k)->0;
            lemma_find_last(sig_names(c.sigs), g);
            if proc_of(c.sigs, g) is Some {
                let p = proc_of(c.sigs, g)->0;
                lemma_dest(c, var, ttype, Some(c.sigs[p].ret));
                lemma_slots_for(c, params, Some(c.sigs[p].params.skip(n as int)));
            }
        }
    }
}

proof fn lemma_lower_unary(c: Ctx, var: Seq<char>, ttype: Type, operand: Seq<char>, k: Unary)
    requires
        c.slots.len() <= usize::MAX,
        k matches Unary::Concat(first) ==> first < c.slots.len(),
    ensures
        lower_unary(c, var, ttype, operand, k) matches Ok(ops) ==> forall|i: int|
            0 <= i < ops.len() ==> lop_ok(c, #[trigger] ops[i]),
{
    lemma_slot_for(c, operand, unary_want(k));
    lemma_dest(c, var, ttype, unary_type(k));
}

proof fn lemma_lower_set(c: Ctx, var: Seq<char>, ttype: Type, val: ExprV)
    requires
        c.slots.len() <= usize::MAX,
        c.sigs.len() <= usize::MAX,
    ensures
        lower_set(c, var, ttype, val) matches Ok(ops) ==> forall|i: int|
            0 <= i < ops.len() ==> lop_ok(c, #[trigger] ops[i]),
{
    match val {
        ExprV::Lit(l) => {
            lemma_dest(c, var, ttype, Some(super::lowering::lit_type(l)));
        },
        ExprV::Var(src) => {
            lemma_slot_for(c, src, Some(ttype));
            lemma_slot_for(c, var, Some(ttype));
        },
        ExprV::Call { name, params } => lemma_lower_named(c, var, ttype, name, params, Named::Call),
        ExprV::Coroutine { name, params } => lemma_lower_named(
            c,
            var,
            ttype,
            name,
            params,
            Named::Coroutine,
        ),
        ExprV::Closure { name, params } => lemma_lower_named(
            c,
            var,
            ttype,
            name,
            params,
            Named::Closure,
        ),
        ExprV::DynCall { name, params } => lemma_lower_dynamic(
            c,
            var,
            ttype,
            name,
            params,
            Dynamic::DynCall,
        ),
        ExprV::DynCoroutine { name, params } => lemma_lower_dynamic(
            c,
            var,
            ttype,
            name,
            params,
            Dynamic::DynCoroutine,
        ),
        ExprV::Cons { name, params } => lemma_lower_dynamic(
            c,
            var,
            ttype,
            name,
            params,
            Dynamic::Cons,
        ),
        ExprV::Resume(v) => lemma_lower_unary(c, var, ttype, v, Unary::Resume),
        ExprV::Length(v) => lemma_lower_unary(c, var, ttype, v, Unary::Length),
        ExprV::Type(v) => lemma_lower_unary(c, var, ttype, v, Unary::Type),
        ExprV::Slot { var: v, index } => lemma_lower_unary(c, var, ttype, v, Unary::Slot(index)),
        ExprV::IsNil(v) => lemma_lower_unary(c, var, ttype, v, Unary::IsNil),
        ExprV::ToString(v) => lemma_lower_unary(c, var, ttype, v, Unary::ToString),
        ExprV::Concat(a, b) => {
            lemma_slot_for(c, a, Some(Type::String));
            if slot_for(c, a, Some(Type::String)) is Ok {
                lemma_lower_unary(
                    c,
                    var,
                    ttype,
                    b,
                    Unary::Concat(slot_for(c, a, Some(Type::String))->Ok_0),
                );
            }
        },
    }
}

/// The code for a statement refers to slots of the frame only, and its
/// calls agree with the signatures of their callees.
pub proof fn lemma_lower_stmt(c: Ctx, stmt: StmtV)
    requires
        c.slots.len() <= usize::MAX,
        c.sigs.len() <= usize::MAX,
    ensures
        lower_stmt(c, stmt) matches Ok(ops) ==> forall|i: int|
            0 <= i < ops.len() ==> lop_ok(c, #[trigger] ops[i]),
{
    match stmt {
        StmtV::SetLocal { var, ttype, val } => lemma_lower_set(c, var, ttype, val),
        StmtV::Return(v) => lemma_slot_for(c, v, Some(c.ret)),
        StmtV::Yield(v) => lemma_slot_for(c, v, Some(c.ret)),
        StmtV::SlotInsert { var, input, index } => {
            lemma_slot_for(c, var, Some(Type::Ref));
            lemma_slot_for(c, input, None);
        },
        StmtV::SlotRemove { var, index } => lemma_slot_for(c, var, Some(Type::Ref)),
        StmtV::Delete(v) => lemma_slot_for(c, v, Some(Type::Ref)),
        _ => {},
    }
}

/// As `lemma_lower_stmt`, for a list of statements.
pub proof fn lemma_lower_body(c: Ctx, body: Seq<StmtV>)
    requires
        c.slots.len() <= usize::MAX,
        c.sigs.len() <= usize::MAX,
    ensures
        lower_body(c, body) matches Ok(ops) ==> forall|i: int|
            0 <= i < ops.len() ==> lop_ok(c, #[trigger] ops[i]),
    decreases body.len(),
{
    if body.len() > 0 {
        lemma_lower_body(c, body.drop_last());
        lemma_lower_stmt(c, body.last());
    }
}

/// Resolving goes instruction by instruction.
pub proof fn lemma_resolve_all(c: Ctx, ops: Seq<LOpV>, n: nat)
    requires
        n <= ops.len(),
    ensures
        resolve_all(c, ops, n) matches Ok(instrs) ==> instrs.len() == n && forall|k: int|
            0 <= k < n ==> resolve(c, ops, ops[k]) == Ok::<OpV, CompileErrorV>(
                #[trigger] instrs[k],
            ),
    decreases n,
{
    if n > 0 {
        lemma_resolve_all(c, ops, (n - 1) as nat);
    }
}

/// Whether instruction `k` was resolved as its label says: a label has
/// become a `Nop`, a jump or branch goes to the index at which the label
/// that it names stands.
pub open spec fn label_resolved(ops: Seq<LOpV>, instrs: Seq<OpV>, k: int) -> bool {
    match ops[k] {
        LOpV::Jump(l) => label_of(ops, l) is Some && ops[label_of(ops, l)->0] == LOpV::Label(l)
            && instrs[k] == OpV::Jump(label_of(ops, l)->0 as usize),
        LOpV::Branch { label, var } => label_of(ops, label) is Some && ops[label_of(
            ops,
            label,
        )->0] == LOpV::Label(label) && target(instrs[k]) == Some(
            label_of(ops, label)->0 as usize,
        ),
        LOpV::Label(_) => instrs[k] == OpV::Nop,
        LOpV::Op(x) => instrs[k] == x,
    }
}

/// Resolved code is well formed: a label has become a `Nop`, a jump or
/// branch goes to the `Nop` of the label that it names.
pub proof fn lemma_resolved(c: Ctx, ops: Seq<LOpV>)
    requires
        c.slots.len() <= usize::MAX,
        ops.len() <= usize::MAX,
        forall|i: int| 0 <= i < ops.len() ==> lop_ok(c, #[trigger] ops[i]),
    ensures
        resolve_all(c, ops, ops.len()) matches Ok(instrs) ==> instrs.len() == ops.len() && (forall|
            k: int,
        |
            0 <= k < instrs.len() ==> #[trigger] instr_ok(instrs, k, c.slots.len()) && call_ok(
                c,
                instrs[k],
            )) && (forall|k: int| 0 <= k < ops.len() ==> #[trigger] label_resolved(ops, instrs, k)),
{
    lemma_resolve_all(c, ops, ops.len());
    if resolve_all(c, ops, ops.len()) is Ok {
        let instrs = resolve_all(c, ops, ops.len())->Ok_0;
        assert forall|k: int| 0 <= k < instrs.len() implies #[trigger] instr_ok(
            instrs,
            k,
            c.slots.len(),
        ) && call_ok(c, instrs[k]) by {
            assert(lop_ok(c, ops[k]));
            assert(resolve(c, ops, ops[k]) == Ok::<OpV, CompileErrorV>(instrs[k]));
            match ops[k] {
                LOpV::Op(x) => {},
                LOpV::Label(_) => {},
                LOpV::Branch { label, var } => {
                    lemma_find_last(ops, LOpV::Label(label));
                    lemma_slot_for(c, var, Some(Type::Bool));
                    let t = label_of(ops, label)->0;
                    assert(resolve(c, ops, ops[t]) == Ok::<OpV, CompileErrorV>(instrs[t]));
                },
                LOpV::Jump(label) => {
                    lemma_find_last(ops, LOpV::Label(label));
                    let t = label_of(ops, label)->0;
                    assert(resolve(c, ops, ops[t]) == Ok::<OpV, CompileErrorV>(instrs[t]));
                },
            }
        }
        assert forall|k: int| 0 <= k < ops.len() implies #[trigger] label_resolved(
            ops,
            instrs,
            k,
        ) by {
            assert(resolve(c, ops, ops[k]) == Ok::<OpV, CompileErrorV>(instrs[k]));
            match ops[k] {
                LOpV::Branch { label, var } => {
                    lemma_find_last(ops, LOpV::Label(label));
                },
                LOpV::Jump(label) => {
                    lemma_find_last(ops, LOpV::Label(label));
                },
                _ => {},
            }
        }
    }
}

/// Whether the compiled procedure `q` is a sound form of the parsed
/// procedure `p`, given the signatures `sigs` of all procedures: its frame
/// has one slot for each parameter and variable of `p`; each of its
/// instructions refers to slots of that frame only; each jump and branch
/// goes to a `Nop` of `q`; each call, closure and coroutine names a
/// procedure that exists, with arguments of the number and the declared
/// types that the procedure's signature asks for.
pub open spec fn proc_ok(sigs: Seq<Sig>, p: PProcV, q: ProcV) -> bool {
    slots_of(p) is Ok && q.stack_size == slots_of(p)->Ok_0.len() && q.name == p.name
        && well_formed(q) && (forall|k: int|
        0 <= k < q.instrs.len() ==> call_ok(
            context(sigs, p, slots_of(p)->Ok_0),
            #[trigger] q.instrs[k],
        ))
}

/// A procedure that was lowered without error is sound, and its labels
/// are resolved as they stand in its code.
pub proof fn lemma_lowered_proc(sigs: Seq<Sig>, p: PProcV)
    requires
        lower_proc(sigs, p) is Ok,
        sigs.len() <= usize::MAX,
        slots_of(p)->Ok_0.len() <= usize::MAX,
        lower_body(
            context(sigs, p, slots_of(p)->Ok_0),
            p.body,
        )->Ok_0.len() <= usize::MAX,
    ensures
        proc_ok(sigs, p, lower_proc(sigs, p)->Ok_0),
        forall|k: int|
            0 <= k < lower_proc(sigs, p)->Ok_0.instrs.len() ==> #[trigger] label_resolved(
                lower_body(
                    context(sigs, p, slots_of(p)->Ok_0),
                    p.body,
                )->Ok_0,
                lower_proc(sigs, p)->Ok_0.instrs,
                k,
            ),
{
    reveal(lower_proc);
    let c = context(sigs, p, slots_of(p)->Ok_0);
    lemma_lower_body(c, p.body);
    lemma_resolved(c, lower_body(c, p.body)->Ok_0);
    let q = lower_proc(sigs, p)->Ok_0;
    assert forall|k: int| 0 <= k < q.instrs.len() implies #[trigger] instr_ok(
        q.instrs,
        k,
        q.stack_size as nat,
    ) by {
        assert(instr_ok(q.instrs, k, c.slots.len()));
    }
    assert forall|k: int| 0 <= k < q.instrs.len() implies call_ok(c, #[trigger] q.instrs[k]) by {
        assert(instr_ok(q.instrs, k, c.slots.len()));
    }
}

/// The signatures of a program's procedures: those of the primitives,
/// then those of its own procedures in source order.
pub open spec fn signatures(ir: Seq<TopV>) -> Seq<Sig> {
    primitive_sigs() + sigs_of(procs_of(ir))
}

/// Whether the compiled program `code` is a sound form of the parsed
/// program `ir`: the primitives stand first, the program's procedures
/// follow in source order, and each is sound.
pub open spec fn program_ok(ir: Seq<TopV>, code: Seq<ProcV>) -> bool {
    code.len() == primitive_table().len() + procs_of(ir).len() && (forall|q: int|
        0 <= q < primitive_table().len() ==> #[trigger] code[q] == primitive_proc(
            primitive_table()[q],
        )) && (forall|q: int| 0 <= q < code.len() ==> well_formed(#[trigger] code[q])) && (forall|
        j: int,
    |
        0 <= j < procs_of(ir).len() ==> proc_ok(
            signatures(ir),
            #[trigger] procs_of(ir)[j],
            code[primitive_table().len() + j],
        ))
}

/// The code of a primitive is well formed.
pub proof fn lemma_primitive_well_formed(p: Primitive)
    ensures
        well_formed(primitive_proc(p)),
{
    let q = primitive_proc(p);
    assert forall|k: int| 0 <= k < q.instrs.len() implies #[trigger] instr_ok(
        q.instrs,
        k,
        q.stack_size as nat,
    ) by {
        if k == 0 {
        } else if k == 1 {
        } else {
        }
    }
}

/// Signatures are added in order.
pub proof fn lemma_add_sigs(base: Seq<Sig>, procs: Seq<PProcV>)
    ensures
        add_sigs(base, procs) matches Ok(s) ==> s == base + sigs_of(procs),
    decreases procs.len(),
{
    if procs.len() > 0 {
        lemma_add_sigs(base, procs.drop_last());
        if add_sigs(base, procs) is Ok {
            assert(add_sigs(base, procs)->Ok_0 =~= base + sigs_of(procs));
        }
    } else {
        assert(base =~= base + sigs_of(procs));
    }
}

/// Procedures are lowered one by one.
pub proof fn lemma_lower_procs(sigs: Seq<Sig>, procs: Seq<PProcV>)
    ensures
        lower_procs(sigs, procs) matches Ok(code) ==> code.len() == procs.len() && forall|j: int|
            0 <= j < procs.len() ==> lower_proc(sigs, procs[j]) == Ok::<ProcV, CompileErrorV>(
                #[trigger] code[j],
            ),
    decreases procs.len(),
{
    if procs.len() > 0 {
        lemma_lower_procs(sigs, procs.drop_last());
    }
}

/// The highest of the slots `s`, or -1 where there is none.
pub open spec fn max_of(s: Seq<usize>) -> int
    decreases s.len(),
{
    if s.len() == 0 {
        -1
    } else if max_of(s.drop_last()) >= s.last() {
        max_of(s.drop_last())
    } else {
        s.last() as int
    }
}

/// The highest slot that the instructions refer to, or -1 where they
/// refer to none.
pub open spec fn max_ref(instrs: Seq<OpV>) -> int
    decreases instrs.len(),
{
    if instrs.len() == 0 {
        -1
    } else if max_ref(instrs.drop_last()) >= max_of(refs(instrs.last())) {
        max_ref(instrs.drop_last())
    } else {
        max_of(refs(instrs.last()))
    }
}

/// Whether instruction `k` refers to slot `slot`.
pub open spec fn refers_to(instrs: Seq<OpV>, k: int, slot: int) -> bool {
    0 <= k < instrs.len() && exists|j: int|
        0 <= j < refs(instrs[k]).len() && #[trigger] refs(instrs[k])[j] == slot
}

proof fn lemma_max_of(s: Seq<usize>)
    ensures
        forall|j: int| 0 <= j < s.len() ==> #[trigger] s[j] <= max_of(s),
        max_of(s) == -1 || exists|j: int| 0 <= j < s.len() && #[trigger] s[j] == max_of(s),
    decreases s.len(),
{
    if s.len() > 0 {
        lemma_max_of(s.drop_last());
        assert forall|j: int| 0 <= j < s.len() implies #[trigger] s[j] <= max_of(s) by {
            if j < s.len() - 1 {
                assert(s[j] == s.drop_last()[j]);
            }
        }
        if max_of(s.drop_last()) >= s.last() {
            if max_of(s) != -1 {
                let j = choose|j: int|
                    0 <= j < s.drop_last().len() && #[trigger] s.drop_last()[j] == max_of(
                        s.drop_last(),
                    );
                assert(s[j] == max_of(s));
            }
        } else {
            assert(s[s.len() - 1] == max_of(s));
        }
    }
}

proof fn lemma_max_ref(instrs: Seq<OpV>)
    ensures
        forall|k: int, j: int|
            0 <= k < instrs.len() && 0 <= j < refs(instrs[k]).len() ==> #[trigger] refs(
                instrs[k],
            )[j] <= max_ref(instrs),
        max_ref(instrs) == -1 || exists|k: int| #[trigger] refers_to(instrs, k, max_ref(instrs)),
    decreases instrs.len(),
{
    if instrs.len() > 0 {
        let init = instrs.drop_last();
        lemma_max_ref(init);
        lemma_max_of(refs(instrs.last()));
        assert forall|k: int, j: int|
            0 <= k < instrs.len() && 0 <= j < refs(instrs[k]).len() implies #[trigger] refs(
            instrs[k],
        )[j] <= max_ref(instrs) by {
            if k < instrs.len() - 1 {
                assert(instrs[k] == init[k]);
            }
        }
        if max_ref(instrs) != -1 {
            if max_ref(init) >= max_of(refs(instrs.last())) {
                let k = choose|k: int| #[trigger] refers_to(init, k, max_ref(init));
                assert(instrs[k] == init[k]);
                assert(refers_to(instrs, k, max_ref(instrs)));
            } else {
                assert(refers_to(instrs, instrs.len() - 1, max_ref(instrs)));
            }
        }
    }
}

/// The size of the frame is one more than the highest slot that the
/// procedure's instructions refer to, and 0 where they refer to none,
/// provided that they refer to the frame's last slot if it has one.
pub proof fn lemma_stack_size(q: ProcV)
    requires
        well_formed(q),
        q.stack_size == 0 || exists|k: int| #[trigger] refers_to(q.instrs, k, q.stack_size - 1),
    ensures
        q.stack_size == max_ref(q.instrs) + 1,
{
    lemma_max_ref(q.instrs);
    if max_ref(q.instrs) != -1 {
        let k = choose|k: int| #[trigger] refers_to(q.instrs, k, max_ref(q.instrs));
        assert(instr_ok(q.instrs, k, q.stack_size as nat));
    }
    if q.stack_size != 0 {
        let k = choose|k: int| #[trigger] refers_to(q.instrs, k, q.stack_size - 1);
        assert(instr_ok(q.instrs, k, q.stack_size as nat));
    }
}

/// Whether some instruction of a lowered sequence refers to `slot`.
pub open spec fn lops_refer(ops: Seq<LOpV>, slot: int) -> bool {
    exists|k: int| #[trigger] lop_refers(ops, k, slot)
}

/// Whether instruction `k` of a lowered sequence refers to `slot`.
pub open spec fn lop_refers(ops: Seq<LOpV>, k: int, slot: int) -> bool {
    0 <= k < ops.len() && ops[k] is Op && exists|j: int|
        0 <= j < refs(ops[k]->Op_0).len() && #[trigger] refs(ops[k]->Op_0)[j] == slot
}

/// The code for a `set` refers to the slot of the variable that it sets.
proof fn lemma_set_refers(c: Ctx, var: Seq<char>, ttype: Type, val: ExprV)
    requires
        c.slots.len() <= usize::MAX,
        lower_set(c, var, ttype, val) is Ok,
    ensures
        slot_of(c.slots, var) is Some,
        lops_refer(lower_set(c, var, ttype, val)->Ok_0, slot_of(c.slots, var)->0),
{
    let ops = lower_set(c, var, ttype, val)->Ok_0;
    lemma_find_last(slot_names(c.slots), var);
    let d = slot_of(c.slots, var)->0;
    let last = ops.len() - 1;
    assert(ops[last] is Op);
    let x = ops[last]->Op_0;
    assert(refs(x)[refs(x).len() - 1] == d);
    assert(lop_refers(ops, last, d));
}

/// The code for statements refers to the slot of each variable that one
/// of them sets.
proof fn lemma_body_refers(c: Ctx, body: Seq<StmtV>, i: int)
    requires
        c.slots.len() <= usize::MAX,
        lower_body(c, body) is Ok,
        0 <= i < body.len(),
        body[i] is SetLocal,
    ensures
        slot_of(c.slots, body[i]->SetLocal_var) is Some,
        lops_refer(lower_body(c, body)->Ok_0, slot_of(c.slots, body[i]->SetLocal_var)->0),
    decreases body.len(),
{
    let init = lower_body(c, body.drop_last())->Ok_0;
    let more = lower_stmt(c, body.last())->Ok_0;
    let all = lower_body(c, body)->Ok_0;
    let var = body[i]->SetLocal_var;
    if i < body.len() - 1 {
        assert(body.drop_last()[i] == body[i]);
        lemma_body_refers(c, body.drop_last(), i);
        let d = slot_of(c.slots, var)->0;
        let k = choose|k: int| #[trigger] lop_refers(init, k, d);
        assert(all[k] == init[k]);
        assert(lop_refers(all, k, d));
    } else {
        lemma_set_refers(c, var, body[i]->SetLocal_ttype, body[i]->SetLocal_val);
        let d = slot_of(c.slots, var)->0;
        let k = choose|k: int| #[trigger] lop_refers(more, k, d);
        assert(all[init.len() + k] == more[k]);
        assert(lop_refers(all, init.len() + k, d));
    }
}

/// Where a body adds slots, its last slot stands for a variable that one
/// of its statements sets.
proof fn lemma_last_slot_is_set(start: Slots, body: Seq<StmtV>)
    requires
        body_slots(start, body).len() > start.len(),
    ensures
        exists|i: int|
            0 <= i < body.len() && (#[trigger] body[i]) is SetLocal && slot_of(
                body_slots(start, body),
                body[i]->SetLocal_var,
            ) == Some(body_slots(start, body).len() - 1),
    decreases body.len(),
{
    let slots = body_slots(start, body);
    let before = body_slots(start, body.drop_last());
    if slots.len() == before.len() {
        assert(slots == before);
        lemma_last_slot_is_set(start, body.drop_last());
        let i = choose|i: int|
            0 <= i < body.drop_last().len() && (#[trigger] body.drop_last()[i]) is SetLocal
                && slot_of(before, body.drop_last()[i]->SetLocal_var) == Some(before.len() - 1);
        assert(body[i] == body.drop_last()[i]);
    } else {
        let i = body.len() - 1;
        let var = body[i]->SetLocal_var;
        assert(slot_names(slots).last() == var);
        assert(body[i] is SetLocal);
    }
}

/// The size of the frame of a procedure that was lowered without error is
/// one more than the highest slot that its instructions refer to, and 0
/// where they refer to none, provided that the procedure has no parameters
/// or sets a variable that is none of them.
pub proof fn lemma_lowered_stack_size(sigs: Seq<Sig>, p: PProcV)
    requires
        lower_proc(sigs, p) is Ok,
        sigs.len() <= usize::MAX,
        slots_of(p)->Ok_0.len() <= usize::MAX,
        lower_body(context(sigs, p, slots_of(p)->Ok_0), p.body)->Ok_0.len() <= usize::MAX,
        p.params.len() == 0 || slots_of(p)->Ok_0.len() > p.params.len(),
    ensures
        lower_proc(sigs, p)->Ok_0.stack_size == max_ref(lower_proc(sigs, p)->Ok_0.instrs) + 1,
{
    lemma_lowered_proc(sigs, p);
    let q = lower_proc(sigs, p)->Ok_0;
    reveal(lower_proc);
    let slots = slots_of(p)->Ok_0;
    let c = context(sigs, p, slots);
    let ops = lower_body(c, p.body)->Ok_0;
    lemma_params_kept(p.name, p.params);
    let start = param_slots(p.name, p.params)->Ok_0;
    if slots.len() > 0 {
        assert(slots.len() > start.len());
        lemma_last_slot_is_set(start, p.body);
        let i = choose|i: int|
            0 <= i < p.body.len() && (#[trigger] p.body[i]) is SetLocal && slot_of(
                slots,
                p.body[i]->SetLocal_var,
            ) == Some(slots.len() - 1);
        lemma_body_refers(c, p.body, i);
        let k = choose|k: int| #[trigger] lop_refers(ops, k, slots.len() - 1);
        lemma_resolve_all(c, ops, ops.len());
        assert(q.instrs == resolve_all(c, ops, ops.len())->Ok_0);
        assert(resolve(c, ops, ops[k]) == Ok::<OpV, CompileErrorV>(q.instrs[k]));
        assert(q.instrs[k] == ops[k]->Op_0);
        assert(refers_to(q.instrs, k, q.stack_size - 1));
    }
    lemma_stack_size(q);
}

/// There are as many parameter slots as parameters.
proof fn lemma_params_kept(name: Seq<char>, params: Slots)
    ensures
        param_slots(name, params) matches Ok(s) ==> s.len() == params.len(),
    decreases params.len(),
{
    if params.len() > 0 {
        lemma_params_kept(name, params.drop_last());
    }
}

} // verus!
