use vstd::prelude::*;
use crate::instr::{Instr, RtFn};
use crate::ir::{Atom, Bindee, Branch, MakeClosure, OpCode};
use crate::codegen::fun_code;
use crate::ir::Expr;
use crate::spec_code::{Layout, call_rt, capture_code, collapse_code, gen_bindee, gen_bindings, gen_expr_spec, match_head};

verus! {

/// A literal reaches the runtime unchanged: an integer literal is pushed as
/// that very 64-bit constant and boxed by `alloc_i64`, a boolean as 1 or 0
/// boxed by `alloc_i32`.
pub proof fn lemma_literal_boxed(l: Layout, n: i64, b: bool, tbl: int)
    ensures
        gen_bindee(l, Bindee::Num(n), tbl) == (true, seq![Instr::I64Const(n), call_rt(l, RtFn::AllocI64)], Seq::<MakeClosure>::empty()),
        gen_bindee(l, Bindee::Bool(b), tbl) == (
            true,
            seq![Instr::I32Const(if b { 1i32 } else { 0i32 }), call_rt(l, RtFn::AllocI32)],
            Seq::<MakeClosure>::empty(),
        ),
{
}

/// A binary operation hands its left operand to the runtime first and its
/// right operand second, then calls the operator's primitive.
pub proof fn lemma_binop_operand_order(l: Layout, x: Atom, op: OpCode, y: Atom, tbl: int)
    ensures
        gen_bindee(l, Bindee::BinOp(x, op, y), tbl).1 == seq![
            Instr::I32Const((x.idx - 1) as i32),
            Instr::I32Const((y.idx - 1) as i32),
            call_rt(l, crate::instr::op_fn(op)),
        ],
        crate::instr::op_fn(OpCode::Sub) == RtFn::Sub,
{
}

/// A closure copies its captured values when it is created: the code of the
/// creating binding itself allocates the closure and then copies every
/// captured atom into its slot, so no later binding can change what it holds.
pub proof fn lemma_capture_at_creation(l: Layout, mc: MakeClosure, tbl: int)
    ensures
        gen_bindee(l, Bindee::MakeClosure(mc), tbl).1 == seq![
            Instr::I32Const(tbl as i32),
            Instr::I32Const(mc.captured@.len() as i32),
            call_rt(l, RtFn::AllocClosure),
        ] + capture_code(l, mc.captured@),
        capture_code(l, mc.captured@).len() == 3 * mc.captured@.len(),
{
    lemma_capture_code_len(l, mc.captured@);
}

/// The `j`-th captured atom is copied into capture slot `j`: its own index
/// is handed over unchanged, since the new closure now sits on top.
pub proof fn lemma_capture_slot(l: Layout, s: Seq<Atom>, j: int)
    requires
        0 <= j < s.len(),
    ensures
        capture_code(l, s).subrange(3 * j, 3 * j + 3) == seq![
            Instr::I32Const(j as i32),
            Instr::I32Const(s[j].idx as i32),
            call_rt(l, RtFn::SetVar),
        ],
    decreases s.len(),
{
    let p = s.drop_last();
    lemma_capture_code_len(l, p);
    if j < s.len() - 1 {
        lemma_capture_slot(l, p, j);
        assert(capture_code(l, s).subrange(3 * j, 3 * j + 3) =~= capture_code(l, p).subrange(3 * j, 3 * j + 3));
    } else {
        assert(capture_code(l, s).subrange(3 * j, 3 * j + 3) =~= seq![
            Instr::I32Const(j as i32),
            Instr::I32Const(s[j].idx as i32),
            call_rt(l, RtFn::SetVar),
        ]);
    }
}

pub proof fn lemma_capture_code_len(l: Layout, s: Seq<Atom>)
    ensures
        capture_code(l, s).len() == 3 * s.len(),
    decreases s.len(),
{
    if s.len() > 0 {
        lemma_capture_code_len(l, s.drop_last());
    }
}

/// A closure literal takes the next table index when its binding is
/// compiled, and closures inside its body are not discovered then: they are
/// discovered only when that body is compiled later, so they get later indices.
pub proof fn lemma_closure_discovery_order(l: Layout, mc: MakeClosure, tbl: int)
    ensures
        gen_bindee(l, Bindee::MakeClosure(mc), tbl).1[0] == Instr::I32Const(tbl as i32),
        gen_bindee(l, Bindee::MakeClosure(mc), tbl).2 == seq![mc],
{
}

/// A match on `k` branches opens `k + 1` blocks and dispatches with a table
/// jump whose entry `r` (for `0 <= r < k`) leaves exactly the `r + 1`
/// innermost blocks, landing at the start of branch `r`; every other rank
/// takes the default label `k`, past every branch.
pub proof fn lemma_match_dispatch(l: Layout, s: Atom, bs: Vec<Branch>, tbl: int)
    ensures
        ({
            let k = bs@.len() as int;
            let code = gen_bindee(l, Bindee::Match(s, bs), tbl).1;
            &&& code.subrange(0, k + 5) == match_head(l, s, k)
            &&& forall|i: int| 0 <= i <= k ==> code[i] == Instr::Block
            &&& code[k + 3] == Instr::BrTable(k as u32, k as u32)
        }),
{
    let k = bs@.len() as int;
    let g = crate::spec_code::gen_branches(l, bs, k, k, tbl);
    assert((match_head(l, s, k) + g.1).subrange(0, k + 5) =~= match_head(l, s, k));
}

/// A compiled function leaves one value behind: after its bindings it
/// collapses all but the last binding's slot, then drops its `nargs`
/// argument slots, and ends.
pub proof fn lemma_function_leaves_one_value(l: Layout, e: Expr, nargs: int, tbl: int)
    requires
        nargs > 0,
    ensures
        ({
            let n = e.bindings@.len() as int;
            let body = gen_bindings(l, e, n, tbl).1;
            &&& gen_expr_spec(l, e, tbl).1 == body + collapse_code(l, n)
            &&& fun_code(l, e, nargs, tbl) == body + collapse_code(l, n) + seq![
                Instr::I32Const(nargs as i32),
                call_rt(l, RtFn::Ret),
                Instr::End,
            ]
        }),
{
    let n = e.bindings@.len() as int;
    let body = gen_bindings(l, e, n, tbl).1;
    assert(fun_code(l, e, nargs, tbl) =~= body + collapse_code(l, n) + seq![
        Instr::I32Const(nargs as i32),
        call_rt(l, RtFn::Ret),
        Instr::End,
    ]);
}

} // verus!
