use vstd::prelude::*;
use crate::eval::data::{OpV, Proc, ProcV, views};
use crate::eval::model::{Ending, entered, run, VmState};
use crate::eval::typing::{
    closures_typed, code_of, fills, fits_type, held_in, instr_typed, lemma_entered_well_typed,
    lemma_run_keeps_closures, lemma_run_typed, Made, produced, typed_program, Typing, well_typed,
};
use crate::parsing::ir_parser::{ExprV, ProcV as PProcV, StmtV, TopV, Type};
use super::laws::{
    lemma_add_sigs, lemma_lower_procs, lemma_resolve_all, lemma_slot_for, lemma_slots_for,
    signatures,
};
use super::lowering::{
    arity, body_slots, callee_at, compiled, CompileErrorV, context, Ctx, Dynamic, dynamic_want,
    Held, held, known_closures, lemma_find_last, LOpV, lower_body, lower_dynamic, lower_named,
    lower_proc, lower_procs, lower_set, lower_stmt, lower_unary, Named, param_slots, Primitive,
    primitive_code, primitive_proc, primitive_sig, primitive_sigs, primitive_table, PrimOp, proc_of,
    procs_of, resolve, resolve_all, Sig, sig_names, sig_of, slot_for, slot_names, slot_of, Slots,
    slots_for, slots_of, Unary,
};

verus! {

/// The declared types of slots.
pub open spec fn slot_types(slots: Slots) -> Seq<Type> {
    slots.map_values(|e: (Seq<char>, Type)| e.1)
}

/// What is known of a closure, with the callee by its index; nothing
/// where a procedure of the callee's name does not exist.
pub open spec fn made(sigs: Seq<Sig>, k: Option<(Seq<char>, nat)>) -> Option<Made> {
    match k {
        Some((g, n)) => match proc_of(sigs, g) {
            Some(p) => Some(Made { callee: p as usize, captured: n }),
            None => None,
        },
        None => None,
    }
}

/// For each slot, what is known of the closure that it holds, with the
/// callee by its index.
pub open spec fn holds_of(sigs: Seq<Sig>, known: Seq<Option<(Seq<char>, nat)>>) -> Seq<
    Option<Made>,
> {
    Seq::new(known.len(), |i: int| made(sigs, known[i]))
}

/// Whether the typings `t` are those that the lowering of procedure `q`
/// goes by: `q` has the slots and the return type of the context, and is
/// known to hold the closures that the context knows of; each procedure
/// has the return type of its signature and begins its slots with its
/// parameters, of which none is known to hold a closure.
pub open spec fn env_ok(c: Ctx, t: Seq<Typing>, q: int) -> bool {
    &&& 0 <= q < t.len()
    &&& t.len() == c.sigs.len()
    &&& t[q].slots == slot_types(c.slots)
    &&& c.known.len() == c.slots.len()
    &&& t[q].holds == holds_of(c.sigs, c.known)
    &&& t[q].ret == c.ret
    &&& forall|p: int|
        0 <= p < t.len() ==> (#[trigger] t[p]).ret == c.sigs[p].ret && c.sigs[p].params.len()
            <= t[p].slots.len() && t[p].holds.len() == t[p].slots.len() && (forall|j: int|
            0 <= j < c.sigs[p].params.len() ==> t[p].slots[j] == #[trigger] c.sigs[p].params[j])
            && (forall|j: int|
            0 <= j < c.sigs[p].params.len() ==> (#[trigger] t[p].holds[j]) is None)
}

/// What the context knows of the closure in the slot of `var`.
pub open spec fn known_of(c: Ctx, var: Seq<char>) -> Option<(Seq<char>, nat)> {
    if slot_of(c.slots, var) is Some && slot_of(c.slots, var)->0 < c.known.len() {
        c.known[slot_of(c.slots, var)->0]
    } else {
        None
    }
}

/// Whether the expression `val` makes the closure `k`, where one is known.
pub open spec fn makes(k: Option<(Seq<char>, nat)>, val: ExprV) -> bool {
    match k {
        Some((g, n)) => val is Closure && val->Closure_name == g && val->Closure_params.len()
            == n,
        None => true,
    }
}

/// Whether a statement agrees with what the context knows of closures:
/// where it sets a variable that is known to hold a closure, it sets it to
/// such a closure.
pub open spec fn agrees(c: Ctx, s: StmtV) -> bool {
    s matches StmtV::SetLocal { var, ttype, val } ==> makes(known_of(c, var), val)
}

/// Whether a statement is statically typed: it is no `set` of a `resume`
/// or a `slot`, and a `dyn_call` that it sets goes through a variable that
/// is known to hold a closure.
pub open spec fn static_stmt(c: Ctx, s: StmtV) -> bool {
    s matches StmtV::SetLocal { var, ttype, val } ==> !(val is Resume || val is Slot) && (val
        is DynCall ==> known_of(c, val->DynCall_name) is Some)
}

/// The instruction before instruction `k`, if there is one and it is
/// already an instruction.
pub open spec fn before(ops: Seq<LOpV>, k: int) -> Option<OpV> {
    if k >= 1 {
        match ops[k - 1] {
            LOpV::Op(y) => Some(y),
            _ => None,
        }
    } else {
        None
    }
}

/// Whether the instruction `x` of procedure `q` is statically typed,
/// given the instruction before it; see `instr_typed`. A jump is none
/// before its label is resolved.
pub open spec fn typed_after(t: Seq<Typing>, q: int, x: OpV, prev: Option<OpV>) -> bool {
    !(x is Jump || x is BranchTrue) && (x is SetLocalReturn ==> prev is Some) && instr_typed(
        t,
        q,
        seq![
            match prev {
                Some(y) => y,
                None => OpV::Nop,
            },
            x,
        ],
        1,
    )
}

/// Whether instruction `k` of a lowered sequence is statically typed.
pub open spec fn lop_typed(t: Seq<Typing>, q: int, ops: Seq<LOpV>, k: int) -> bool {
    match ops[k] {
        LOpV::Op(x) => typed_after(t, q, x, before(ops, k)),
        _ => true,
    }
}

/// Whether each instruction of a lowered sequence is statically typed.
pub open spec fn lops_typed(t: Seq<Typing>, q: int, ops: Seq<LOpV>) -> bool {
    forall|k: int| 0 <= k < ops.len() ==> #[trigger] lop_typed(t, q, ops, k)
}

/// The declared type of a slot stands at its index among the slot types,
/// and what is known of its closure among what the typing holds.
proof fn lemma_slot_types(c: Ctx, t: Seq<Typing>, q: int)
    requires
        env_ok(c, t, q),
    ensures
        t[q].slots.len() == c.slots.len(),
        t[q].holds.len() == c.slots.len(),
        forall|i: int| 0 <= i < c.slots.len() ==> #[trigger] t[q].slots[i] == c.slots[i].1,
        forall|i: int|
            0 <= i < c.slots.len() ==> #[trigger] t[q].holds[i] == made(c.sigs, c.known[i]),
{
}

/// The two instructions of a `set` that produces a value are statically
/// typed, if the first is, it produces a value of the declared type of
/// the slot, and the slot is known to hold no other closure than the one
/// it makes.
proof fn lemma_pair_typed(t: Seq<Typing>, q: int, ops: Seq<LOpV>, x: OpV, d: usize)
    requires
        0 <= q < t.len(),
        ops == seq![LOpV::Op(x), LOpV::Op(OpV::SetLocalReturn(d))],
        typed_after(t, q, x, None),
        d < t[q].slots.len(),
        t[q].holds.len() == t[q].slots.len(),
        produced(t, q, x) == Some(t[q].slots[d as int]),
        t[q].holds[d as int] is Some ==> x is Closure && t[q].holds[d as int] == Some(
            Made { callee: x->Closure_proc_id, captured: x->Closure_env.len() },
        ),
    ensures
        lops_typed(t, q, ops),
{
    assert(lop_typed(t, q, ops, 0));
    assert(before(ops, 1) == Some(x));
    assert(lop_typed(t, q, ops, 1));
}

proof fn lemma_named_typed(
    c: Ctx,
    t: Seq<Typing>,
    q: int,
    var: Seq<char>,
    ttype: Type,
    name: Seq<char>,
    params: Seq<Seq<char>>,
    k: Named,
)
    requires
        env_ok(c, t, q),
        c.slots.len() <= usize::MAX,
        c.sigs.len() <= usize::MAX,
        k == Named::Closure ==> makes(known_of(c, var), ExprV::Closure { name, params }),
        k != Named::Closure ==> known_of(c, var) is None,
    ensures
        lower_named(c, var, ttype, name, params, k) matches Ok(ops) ==> lops_typed(t, q, ops),
{
    lemma_slot_types(c, t, q);
    lemma_find_last(sig_names(c.sigs), name);
    if lower_named(c, var, ttype, name, params, k) is Ok {
        let ops = lower_named(c, var, ttype, name, params, k)->Ok_0;
        let p = proc_of(c.sigs, name)->0;
        lemma_slot_for(c, var, Some(ttype));
        lemma_find_last(slot_names(c.slots), var);
        lemma_slots_for(c, params, Some(c.sigs[p].params));
        let args = slots_for(c, params, Some(c.sigs[p].params))->Ok_0;
        let d = slot_for(c, var, Some(ttype))->Ok_0;
        let x = ops[0]->Op_0;
        assert(t[p].ret == c.sigs[p].ret);
        assert forall|j: int| 0 <= j < args.len() implies t[q].slots[(#[trigger] args[j]) as int]
            == t[p].slots[j] by {
            assert(c.slots[args[j] as int].1 == c.sigs[p].params[j]);
            assert(t[p].slots[j] == c.sigs[p].params[j]);
        }
        assert(t[q].holds[d as int] == made(c.sigs, c.known[d as int]));
        assert(typed_after(t, q, x, None));
        lemma_pair_typed(t, q, ops, x, d);
    }
}

proof fn lemma_dynamic_typed(
    c: Ctx,
    t: Seq<Typing>,
    q: int,
    var: Seq<char>,
    ttype: Type,
    name: Seq<char>,
    params: Seq<Seq<char>>,
    k: Dynamic,
)
    requires
        env_ok(c, t, q),
        c.slots.len() <= usize::MAX,
        c.sigs.len() <= usize::MAX,
        known_of(c, var) is None,
        k == Dynamic::DynCall ==> known_of(c, name) is Some,
    ensures
        lower_dynamic(c, var, ttype, name, params, k) matches Ok(ops) ==> lops_typed(t, q, ops),
{
    lemma_slot_types(c, t, q);
    if lower_dynamic(c, var, ttype, name, params, k) is Ok {
        let ops = lower_dynamic(c, var, ttype, name, params, k)->Ok_0;
        lemma_slot_for(c, var, Some(ttype));
        lemma_find_last(slot_names(c.slots), var);
        lemma_slot_for(c, name, Some(dynamic_want(k)));
        lemma_find_last(slot_names(c.slots), name);
        let l = slot_for(c, name, Some(dynamic_want(k)))->Ok_0;
        let d = slot_for(c, var, Some(ttype))->Ok_0;
        let x = ops[0]->Op_0;
        assert(t[q].holds[d as int] == made(c.sigs, c.known[d as int]));
        assert(t[q].holds[l as int] == made(c.sigs, c.known[l as int]));
        if k == Dynamic::DynCall {
            let (g, n) = callee_at(c, l, k)->0;
            lemma_find_last(sig_names(c.sigs), g);
            let p = proc_of(c.sigs, g)->0;
            lemma_slots_for(c, params, Some(c.sigs[p].params.skip(n as int)));
            let args = slots_for(c, params, Some(c.sigs[p].params.skip(n as int)))->Ok_0;
            assert(t[p].ret == c.sigs[p].ret);
            assert forall|j: int|
                0 <= j < args.len() implies t[q].slots[(#[trigger] args[j]) as int]
                == t[p].slots[n + j] by {
                assert(c.slots[args[j] as int].1 == c.sigs[p].params.skip(n as int)[j]);
                assert(t[p].slots[n + j] == c.sigs[p].params[n + j]);
            }
            assert(held_in(t, q, l) == Some(Made { callee: p as usize, captured: n }));
            assert(fills(t, q, p, n, args));
        }
        assert(typed_after(t, q, x, None));
        lemma_pair_typed(t, q, ops, x, d);
    }
}

proof fn lemma_unary_typed(
    c: Ctx,
    t: Seq<Typing>,
    q: int,
    var: Seq<char>,
    ttype: Type,
    operand: Seq<char>,
    k: Unary,
)
    requires
        env_ok(c, t, q),
        c.slots.len() <= usize::MAX,
        !(k is Resume || k is Slot),
        known_of(c, var) is None,
    ensures
        lower_unary(c, var, ttype, operand, k) matches Ok(ops) ==> lops_typed(t, q, ops),
{
    lemma_slot_types(c, t, q);
    if lower_unary(c, var, ttype, operand, k) is Ok {
        let ops = lower_unary(c, var, ttype, operand, k)->Ok_0;
        lemma_slot_for(c, var, Some(ttype));
        lemma_find_last(slot_names(c.slots), var);
        let d = slot_for(c, var, Some(ttype))->Ok_0;
        let x = ops[0]->Op_0;
        assert(t[q].holds[d as int] == made(c.sigs, c.known[d as int]));
        assert(typed_after(t, q, x, None));
        lemma_pair_typed(t, q, ops, x, d);
    }
}

proof fn lemma_set_typed(c: Ctx, t: Seq<Typing>, q: int, var: Seq<char>, ttype: Type, val: ExprV)
    requires
        env_ok(c, t, q),
        c.slots.len() <= usize::MAX,
        c.sigs.len() <= usize::MAX,
        static_stmt(c, StmtV::SetLocal { var, ttype, val }),
        makes(known_of(c, var), val),
    ensures
        lower_set(c, var, ttype, val) matches Ok(ops) ==> lops_typed(t, q, ops),
{
    lemma_slot_types(c, t, q);
    lemma_find_last(slot_names(c.slots), var);
    match val {
        ExprV::Lit(l) => {
            lemma_slot_for(c, var, Some(ttype));
            if lower_set(c, var, ttype, val) is Ok {
                let d = slot_for(c, var, Some(ttype))->Ok_0;
                assert(t[q].holds[d as int] == made(c.sigs, c.known[d as int]));
                assert(lop_typed(t, q, lower_set(c, var, ttype, val)->Ok_0, 0));
            }
        },
        ExprV::Var(src) => {
            lemma_slot_for(c, src, Some(ttype));
            lemma_slot_for(c, var, Some(ttype));
            if lower_set(c, var, ttype, val) is Ok {
                let d = slot_for(c, var, Some(ttype))->Ok_0;
                assert(t[q].holds[d as int] == made(c.sigs, c.known[d as int]));
                assert(lop_typed(t, q, lower_set(c, var, ttype, val)->Ok_0, 0));
            }
        },
        ExprV::Call { name, params } => lemma_named_typed(
            c,
            t,
            q,
            var,
            ttype,
            name,
            params,
            Named::Call,
        ),
        ExprV::Coroutine { name, params } => lemma_named_typed(
            c,
            t,
            q,
            var,
            ttype,
            name,
            params,
            Named::Coroutine,
        ),
        ExprV::Closure { name, params } => lemma_named_typed(
            c,
            t,
            q,
            var,
            ttype,
            name,
            params,
            Named::Closure,
        ),
        ExprV::DynCall { name, params } => lemma_dynamic_typed(
            c,
            t,
            q,
            var,
            ttype,
            name,
            params,
            Dynamic::DynCall,
        ),
        ExprV::DynCoroutine { name, params } => lemma_dynamic_typed(
            c,
            t,
            q,
            var,
            ttype,
            name,
            params,
            Dynamic::DynCoroutine,
        ),
        ExprV::Cons { name, params } => lemma_dynamic_typed(
            c,
            t,
            q,
            var,
            ttype,
            name,
            params,
            Dynamic::Cons,
        ),
        ExprV::Length(v) => lemma_unary_typed(c, t, q, var, ttype, v, Unary::Length),
        ExprV::Type(v) => lemma_unary_typed(c, t, q, var, ttype, v, Unary::Type),
        ExprV::IsNil(v) => lemma_unary_typed(c, t, q, var, ttype, v, Unary::IsNil),
        ExprV::ToString(v) => lemma_unary_typed(c, t, q, var, ttype, v, Unary::ToString),
        ExprV::Concat(a, b) => {
            if slot_for(c, a, Some(Type::String)) is Ok {
                lemma_unary_typed(
                    c,
                    t,
                    q,
                    var,
                    ttype,
                    b,
                    Unary::Concat(slot_for(c, a, Some(Type::String))->Ok_0),
                );
            }
        },
        _ => {},
    }
}

/// The code for a statically typed statement is statically typed.
pub proof fn lemma_stmt_typed(c: Ctx, t: Seq<Typing>, q: int, stmt: StmtV)
    requires
        env_ok(c, t, q),
        c.slots.len() <= usize::MAX,
        c.sigs.len() <= usize::MAX,
        static_stmt(c, stmt),
        agrees(c, stmt),
    ensures
        lower_stmt(c, stmt) matches Ok(ops) ==> lops_typed(t, q, ops),
{
    lemma_slot_types(c, t, q);
    match stmt {
        StmtV::SetLocal { var, ttype, val } => lemma_set_typed(c, t, q, var, ttype, val),
        StmtV::Return(v) => {
            lemma_slot_for(c, v, Some(c.ret));
            if lower_stmt(c, stmt) is Ok {
                assert(lop_typed(t, q, lower_stmt(c, stmt)->Ok_0, 0));
            }
        },
        _ => {
            if lower_stmt(c, stmt) is Ok {
                assert(lop_typed(t, q, lower_stmt(c, stmt)->Ok_0, 0));
            }
        },
    }
}

/// Statically typed code followed by statically typed code is statically
/// typed.
proof fn lemma_joined_typed(t: Seq<Typing>, q: int, ops: Seq<LOpV>, more: Seq<LOpV>)
    requires
        lops_typed(t, q, ops),
        lops_typed(t, q, more),
    ensures
        lops_typed(t, q, ops + more),
{
    let all = ops + more;
    assert forall|k: int| 0 <= k < all.len() implies #[trigger] lop_typed(t, q, all, k) by {
        if k < ops.len() {
            assert(lop_typed(t, q, ops, k));
            assert(all[k] == ops[k]);
            if k >= 1 {
                assert(all[k - 1] == ops[k - 1]);
            }
        } else {
            let i = k - ops.len();
            assert(lop_typed(t, q, more, i));
            assert(all[k] == more[i]);
            if i >= 1 {
                assert(all[k - 1] == more[i - 1]);
            }
        }
    }
}

/// The code for statically typed statements is statically typed.
pub proof fn lemma_body_typed(c: Ctx, t: Seq<Typing>, q: int, body: Seq<StmtV>)
    requires
        env_ok(c, t, q),
        c.slots.len() <= usize::MAX,
        c.sigs.len() <= usize::MAX,
        forall|i: int|
            0 <= i < body.len() ==> static_stmt(c, #[trigger] body[i]) && agrees(c, body[i]),
    ensures
        lower_body(c, body) matches Ok(ops) ==> lops_typed(t, q, ops),
    decreases body.len(),
{
    if body.len() > 0 {
        assert forall|i: int| 0 <= i < body.drop_last().len() implies static_stmt(
            c,
            #[trigger] body.drop_last()[i],
        ) && agrees(c, body.drop_last()[i]) by {
            assert(body.drop_last()[i] == body[i]);
        }
        lemma_body_typed(c, t, q, body.drop_last());
        lemma_stmt_typed(c, t, q, body.last());
        if lower_body(c, body) is Ok {
            lemma_joined_typed(
                t,
                q,
                lower_body(c, body.drop_last())->Ok_0,
                lower_stmt(c, body.last())->Ok_0,
            );
        }
    }
}

/// Resolved code is statically typed if it was so before.
pub proof fn lemma_resolved_typed(c: Ctx, t: Seq<Typing>, q: int, ops: Seq<LOpV>)
    requires
        lops_typed(t, q, ops),
        ops.len() <= usize::MAX,
    ensures
        resolve_all(c, ops, ops.len()) matches Ok(instrs) ==> forall|k: int|
            0 <= k < instrs.len() ==> #[trigger] instr_typed(t, q, instrs, k),
{
    lemma_resolve_all(c, ops, ops.len());
    if resolve_all(c, ops, ops.len()) is Ok {
        let instrs = resolve_all(c, ops, ops.len())->Ok_0;
        assert forall|k: int| 0 <= k < instrs.len() implies #[trigger] instr_typed(
            t,
            q,
            instrs,
            k,
        ) by {
            assert(lop_typed(t, q, ops, k));
            assert(resolve(c, ops, ops[k]) == Ok::<OpV, CompileErrorV>(instrs[k]));
            if k >= 1 {
                assert(resolve(c, ops, ops[k - 1]) == Ok::<OpV, CompileErrorV>(instrs[k - 1]));
            }
            match ops[k] {
                LOpV::Branch { label, var } => {
                    lemma_find_last(ops, LOpV::Label(label));
                    let i = super::lowering::label_of(ops, label)->0;
                    assert(resolve(c, ops, ops[i]) == Ok::<OpV, CompileErrorV>(instrs[i]));
                },
                LOpV::Jump(label) => {
                    lemma_find_last(ops, LOpV::Label(label));
                    let i = super::lowering::label_of(ops, label)->0;
                    assert(resolve(c, ops, ops[i]) == Ok::<OpV, CompileErrorV>(instrs[i]));
                },
                _ => {},
            }
        }
    }
}

/// The typing of a primitive: a slot of the operands' type for each
/// operand, then a slot of the result's type.
pub open spec fn primitive_typing(p: Primitive) -> Typing {
    Typing {
        slots: Seq::new(
            (arity(p.op) + 1) as nat,
            |i: int|
                if i < arity(p.op) {
                    p.operand
                } else {
                    p.ret
                },
        ),
        holds: Seq::new((arity(p.op) + 1) as nat, |i: int| None::<Made>),
        ret: p.ret,
    }
}

/// The typing of a parsed procedure: the declared types of its slots,
/// what is known of the closures in them, and its return type.
pub open spec fn proc_typing(sigs: Seq<Sig>, p: PProcV) -> Typing {
    Typing {
        slots: slot_types(slots_of(p)->Ok_0),
        holds: holds_of(sigs, known_closures(p.params.len(), p.body, slots_of(p)->Ok_0)),
        ret: p.return_type,
    }
}

/// The typings of a program's procedures: those of the primitives, then
/// those of its own procedures in source order.
pub open spec fn typings(ir: Seq<TopV>) -> Seq<Typing> {
    primitive_table().map_values(|p: Primitive| primitive_typing(p)) + procs_of(ir).map_values(
        |p: PProcV| proc_typing(signatures(ir), p),
    )
}

/// Whether a primitive's result has the type that its operation gives:
/// that of the operands for arithmetic, `Bool` for the others.
pub open spec fn primitive_consistent(p: Primitive) -> bool {
    match p.op {
        PrimOp::Add | PrimOp::Sub | PrimOp::Mul | PrimOp::Div | PrimOp::Mod | PrimOp::Neg => p.ret
            == p.operand,
        _ => p.ret == Type::Bool,
    }
}

/// Every primitive is consistent.
pub proof fn lemma_primitives_consistent()
    ensures
        primitive_table().len() == 25,
        forall|i: int|
            0 <= i < primitive_table().len() ==> primitive_consistent(
                #[trigger] primitive_table()[i],
            ),
{
    let table = primitive_table();
    assert(table.len() == 25);
    assert forall|i: int| 0 <= i < table.len() implies primitive_consistent(#[trigger] table[i]) by {
        if i < 5 {
            assert(primitive_consistent(table[0]));
            assert(primitive_consistent(table[1]));
            assert(primitive_consistent(table[2]));
            assert(primitive_consistent(table[3]));
            assert(primitive_consistent(table[4]));
        } else if i < 10 {
            assert(primitive_consistent(table[5]));
            assert(primitive_consistent(table[6]));
            assert(primitive_consistent(table[7]));
            assert(primitive_consistent(table[8]));
            assert(primitive_consistent(table[9]));
        } else if i < 15 {
            assert(primitive_consistent(table[10]));
            assert(primitive_consistent(table[11]));
            assert(primitive_consistent(table[12]));
            assert(primitive_consistent(table[13]));
            assert(primitive_consistent(table[14]));
        } else if i < 20 {
            assert(primitive_consistent(table[15]));
            assert(primitive_consistent(table[16]));
            assert(primitive_consistent(table[17]));
            assert(primitive_consistent(table[18]));
            assert(primitive_consistent(table[19]));
        } else {
            assert(primitive_consistent(table[20]));
            assert(primitive_consistent(table[21]));
            assert(primitive_consistent(table[22]));
            assert(primitive_consistent(table[23]));
            assert(primitive_consistent(table[24]));
        }
    }
}

/// The code of a consistent primitive is statically typed under any
/// typings that give the primitive its own typing.
pub proof fn lemma_primitive_typed(t: Seq<Typing>, q: int, p: Primitive)
    requires
        0 <= q < t.len(),
        t[q] == primitive_typing(p),
        primitive_consistent(p),
    ensures
        forall|k: int|
            0 <= k < primitive_proc(p).instrs.len() ==> #[trigger] instr_typed(
                t,
                q,
                primitive_proc(p).instrs,
                k,
            ),
        primitive_proc(p).stack_size == t[q].slots.len(),
{
    let instrs = primitive_proc(p).instrs;
    assert forall|k: int| 0 <= k < instrs.len() implies #[trigger] instr_typed(t, q, instrs, k) by {
        if k == 0 {
        } else if k == 1 {
        } else {
        }
    }
}

/// The slots of the parameters are the parameters.
proof fn lemma_param_slots(name: Seq<char>, params: Slots)
    ensures
        param_slots(name, params) matches Ok(s) ==> s == params,
    decreases params.len(),
{
    if params.len() > 0 {
        lemma_param_slots(name, params.drop_last());
        if param_slots(name, params) is Ok {
            assert(params.drop_last().push(params.last()) =~= params);
        }
    }
}

/// The slots of a body begin with the slots it was given, and there is at
/// most one more for each statement.
proof fn lemma_body_slots(start: Slots, body: Seq<StmtV>)
    ensures
        start.len() <= body_slots(start, body).len() <= start.len() + body.len(),
        forall|j: int| 0 <= j < start.len() ==> body_slots(start, body)[j] == #[trigger] start[j],
    decreases body.len(),
{
    if body.len() > 0 {
        lemma_body_slots(start, body.drop_last());
    }
}

/// The context in which the statements of procedure `j` of a program
/// are lowered.
pub open spec fn context_of(ir: Seq<TopV>, j: int) -> Ctx {
    context(signatures(ir), procs_of(ir)[j], slots_of(procs_of(ir)[j])->Ok_0)
}

/// Whether a program is statically typed at its source: each statement
/// of each of its procedures is.
pub open spec fn static_program(ir: Seq<TopV>) -> bool {
    forall|j: int, i: int|
        0 <= j < procs_of(ir).len() && 0 <= i < procs_of(ir)[j].body.len() ==> static_stmt(
            context_of(ir, j),
            #[trigger] procs_of(ir)[j].body[i],
        )
}

/// Where statements tell that a variable holds closures of one kind, each
/// of them that sets the variable makes such a closure.
proof fn lemma_held(body: Seq<StmtV>, var: Seq<char>, i: int)
    requires
        0 <= i < body.len(),
        body[i] is SetLocal,
        body[i]->SetLocal_var == var,
    ensures
        !(held(body, var) is Unset),
        held(body, var) matches Held::Known(g, n) ==> makes(Some((g, n)), body[i]->SetLocal_val),
    decreases body.len(),
{
    if i < body.len() - 1 {
        assert(body.drop_last()[i] == body[i]);
        lemma_held(body.drop_last(), var, i);
    }
}

/// The statements of a procedure agree with what its context knows of
/// closures.
proof fn lemma_agrees(sigs: Seq<Sig>, p: PProcV, slots: Slots, i: int)
    requires
        0 <= i < p.body.len(),
    ensures
        agrees(context(sigs, p, slots), p.body[i]),
{
    let c = context(sigs, p, slots);
    if p.body[i] is SetLocal {
        let var = p.body[i]->SetLocal_var;
        lemma_find_last(slot_names(slots), var);
        if known_of(c, var) is Some {
            let d = slot_of(slots, var)->0;
            assert(slots[d].0 == var);
            lemma_held(p.body, var, i);
        }
    }
}

/// Whether a program is of a size that the machine can hold: each of its
/// procedures has at most `usize::MAX` parameters and statements in all.
pub open spec fn holdable(ir: Seq<TopV>) -> bool {
    forall|j: int|
        0 <= j < procs_of(ir).len() ==> (#[trigger] procs_of(ir)[j]).params.len() + procs_of(
            ir,
        )[j].body.len() <= usize::MAX
}

/// The typings of a program go with its signatures and its code.
proof fn lemma_typings(ir: Seq<TopV>, q: int)
    requires
        compiled(ir) is Ok,
        0 <= q < primitive_table().len() + procs_of(ir).len(),
    ensures
        typings(ir).len() == primitive_table().len() + procs_of(ir).len(),
        signatures(ir).len() == typings(ir).len(),
        compiled(ir)->Ok_0.len() == typings(ir).len(),
        typings(ir)[q].ret == signatures(ir)[q].ret,
        signatures(ir)[q].params.len() <= typings(ir)[q].slots.len(),
        forall|j: int|
            0 <= j < signatures(ir)[q].params.len() ==> typings(ir)[q].slots[j]
                == #[trigger] signatures(ir)[q].params[j],
        typings(ir)[q].holds.len() == typings(ir)[q].slots.len(),
        forall|j: int|
            0 <= j < signatures(ir)[q].params.len() ==> (#[trigger] typings(ir)[q].holds[j])
                is None,
        q >= primitive_table().len() ==> lower_proc(
            signatures(ir),
            procs_of(ir)[q - primitive_table().len()],
        ) == Ok::<ProcV, CompileErrorV>(compiled(ir)->Ok_0[q]) && typings(ir)[q] == proc_typing(
            signatures(ir),
            procs_of(ir)[q - primitive_table().len()],
        ),
        q < primitive_table().len() ==> compiled(ir)->Ok_0[q] == primitive_proc(
            primitive_table()[q],
        ) && typings(ir)[q] == primitive_typing(primitive_table()[q]),
{
    let ps = procs_of(ir);
    let n = primitive_table().len();
    lemma_add_sigs(primitive_sigs(), ps);
    lemma_lower_procs(signatures(ir), ps);
    let code = lower_procs(signatures(ir), ps)->Ok_0;
    assert(compiled(ir)->Ok_0 == primitive_code() + code);
    if q >= n {
        let p = ps[q - n];
        assert(typings(ir)[q] == proc_typing(signatures(ir), p));
        assert(signatures(ir)[q] == sig_of(p));
        assert(compiled(ir)->Ok_0[q] == code[q - n]);
        assert(lower_proc(signatures(ir), p) is Ok);
        assert(slots_of(p) is Ok) by {
            reveal(lower_proc);
        }
        lemma_param_slots(p.name, p.params);
        lemma_body_slots(p.params, p.body);
        let slots = slots_of(p)->Ok_0;
        assert forall|j: int|
            0 <= j < sig_of(p).params.len() implies proc_typing(signatures(ir), p).slots[j]
            == #[trigger] sig_of(p).params[j] by {
            assert(slots[j] == p.params[j]);
        }
    } else {
        let p = primitive_table()[q];
        assert(typings(ir)[q] == primitive_typing(p));
        assert(signatures(ir)[q] == primitive_sig(p));
        assert(compiled(ir)->Ok_0[q] == primitive_proc(p));
    }
}

/// The lowering of a program that is statically typed at its source is a
/// statically typed program.
pub proof fn lemma_compiled_typed(ir: Seq<TopV>, procs: Seq<Proc>)
    requires
        compiled(ir) == Ok::<Seq<ProcV>, CompileErrorV>(views(procs)),
        static_program(ir),
        holdable(ir),
        procs.len() <= usize::MAX,
    ensures
        typed_program(procs, typings(ir)),
{
    let t = typings(ir);
    let ps = procs_of(ir);
    let n = primitive_table().len();
    let sigs = signatures(ir);
    let code = views(procs);
    lemma_primitives_consistent();
    lemma_typings(ir, 0);
    assert(code.len() == procs.len());
    assert forall|q: int| 0 <= q < procs.len() implies (#[trigger] procs[q]).stack_size
        == t[q].slots.len() && t[q].holds.len() == t[q].slots.len() && forall|k: int|
        0 <= k < code_of(procs, q).len() ==> #[trigger] instr_typed(t, q, code_of(procs, q), k) by {
        lemma_typings(ir, q);
        assert(code[q] == procs[q]@);
        assert(code_of(procs, q) == code[q].instrs);
        if q < n {
            lemma_primitive_typed(t, q, primitive_table()[q]);
        } else {
            let p = ps[q - n];
            reveal(lower_proc);
            let slots = slots_of(p)->Ok_0;
            let c = super::lowering::context(sigs, p, slots);
            lemma_param_slots(p.name, p.params);
            lemma_body_slots(p.params, p.body);
            vstd::std_specs::vec::axiom_spec_len(&procs[q].instrs);
            let ops = lower_body(c, p.body)->Ok_0;
            lemma_resolve_all(c, ops, ops.len());
            assert(env_ok(c, t, q)) by {
                assert forall|r: int| 0 <= r < t.len() implies (#[trigger] t[r]).ret
                    == c.sigs[r].ret && c.sigs[r].params.len() <= t[r].slots.len()
                    && t[r].holds.len() == t[r].slots.len() && (forall|j: int|
                    0 <= j < c.sigs[r].params.len() ==> t[r].slots[j]
                        == #[trigger] c.sigs[r].params[j]) && (forall|j: int|
                    0 <= j < c.sigs[r].params.len() ==> (#[trigger] t[r].holds[j]) is None) by {
                    lemma_typings(ir, r);
                }
            }
            assert forall|i: int| 0 <= i < p.body.len() implies static_stmt(
                c,
                #[trigger] p.body[i],
            ) && agrees(c, p.body[i]) by {
                assert(c == context_of(ir, q - n));
                assert(static_stmt(context_of(ir, q - n), procs_of(ir)[q - n].body[i]));
                lemma_agrees(sigs, p, slots, i);
            }
            lemma_body_typed(c, t, q, p.body);
            lemma_resolved_typed(c, t, q, ops);
        }
    }
}

/// The type that procedure `q` of a program declares to return.
pub open spec fn declared_return(ir: Seq<TopV>, q: int) -> Type {
    if q < primitive_table().len() {
        primitive_table()[q].ret
    } else {
        procs_of(ir)[q - primitive_table().len()].return_type
    }
}

/// A run of a program that is statically typed at its source returns
/// only `Nil` or a value of the type that the procedure it began in
/// declares to return, as long as there are no more closures than the
/// machine can number and those that earlier runs have left are well
/// typed, as they are in a machine that has not run and after a run that
/// this law speaks of. The run begins in a well typed state and ends in
/// one, so that the same holds of a run that goes on after the host has
/// answered; see `lemma_answer_typed`.
pub proof fn lemma_returns_declared_type(
    ir: Seq<TopV>,
    procs: Seq<Proc>,
    entry: usize,
    s: VmState,
    fuel: nat,
)
    requires
        compiled(ir) == Ok::<Seq<ProcV>, CompileErrorV>(views(procs)),
        static_program(ir),
        holdable(ir),
        procs.len() <= usize::MAX,
        entry < procs.len(),
        closures_typed(typings(ir), s.closures),
        run(procs, entered(procs, s, entry), fuel).0.closures.len() <= usize::MAX,
    ensures
        run(procs, entered(procs, s, entry), fuel).1 matches Ending::Halt(v) ==> fits_type(
            v,
            declared_return(ir, entry as int),
        ),
        well_typed(procs, typings(ir), entry, run(procs, entered(procs, s, entry), fuel).0),
{
    lemma_compiled_typed(ir, procs);
    lemma_typings(ir, entry as int);
    lemma_run_keeps_closures(procs, entered(procs, s, entry), fuel);
    lemma_entered_well_typed(procs, typings(ir), entry, s);
    lemma_run_typed(procs, typings(ir), entry, entered(procs, s, entry), fuel);
}

} // verus!
