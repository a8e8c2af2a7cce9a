use vstd::prelude::*;
use crate::instr::{Instr, RtFn, rt_name, op_fn};
use crate::ir::{Atom, Bindee, Branch, Expr};

verus! {

broadcast use vstd::std_specs::vec::group_vec_axioms;

/// Largest relative atom index and largest list length the generator accepts,
/// so that every index it emits fits in an `i32` constant.
pub const ATOM_MAX: u32 = 0x3fff_ffff;

/// Largest closure-table index (table indices are emitted as `i32` constants).
pub const TABLE_MAX: u32 = 0x7fff_ffff;

/// The static facts that code generation depends on: the import index of each
/// runtime name, the number of imported functions, and the signature index
/// used for indirect calls.
pub struct Layout {
    pub names: Map<Seq<char>, u32>,
    pub n_imports: u32,
    pub proc_sig: u32,
}

/// A call of a runtime primitive.
pub open spec fn call_rt(l: Layout, f: RtFn) -> Instr {
    Instr::Call(l.names[rt_name(f)])
}

/// Loads the value that an atom refers to.
pub open spec fn atom_code(l: Layout, a: Atom) -> Seq<Instr> {
    seq![Instr::I32Const((a.idx - 1) as i32), call_rt(l, RtFn::Load)]
}

/// For the `j`-th atom of `s`, its index shifted by `j` slots, then a call of `f`.
pub open spec fn offset_code(l: Layout, s: Seq<Atom>, f: RtFn) -> Seq<Instr>
    decreases s.len(),
{
    if s.len() == 0 {
        seq![]
    } else {
        let j = s.len() - 1;
        offset_code(l, s.drop_last(), f) + seq![
            Instr::I32Const((s[j].idx + j - 1) as i32),
            call_rt(l, f),
        ]
    }
}

/// Copies each captured atom into the closure's `j`-th capture slot.
pub open spec fn capture_code(l: Layout, s: Seq<Atom>) -> Seq<Instr>
    decreases s.len(),
{
    if s.len() == 0 {
        seq![]
    } else {
        let j = s.len() - 1;
        capture_code(l, s.drop_last()) + seq![
            Instr::I32Const(j as i32),
            Instr::I32Const(s[j].idx as i32),
            call_rt(l, RtFn::SetVar),
        ]
    }
}

/// Discards all but the last of `n` bindings' slots.
pub open spec fn collapse_code(l: Layout, n: int) -> Seq<Instr> {
    if n > 1 {
        seq![Instr::I32Const((n - 1) as i32), call_rt(l, RtFn::Ret)]
    } else {
        seq![]
    }
}

/// The dispatch of a match on `k` branches: `k + 1` nested blocks, then the
/// rank of the scrutinee and a table jump whose label `i` leaves `i + 1` blocks.
pub open spec fn match_head(l: Layout, s: Atom, k: int) -> Seq<Instr> {
    Seq::new((k + 1) as nat, |i: int| Instr::Block) + seq![
        Instr::I32Const((s.idx - 1) as i32),
        call_rt(l, RtFn::GetRank),
        Instr::BrTable(k as u32, k as u32),
        Instr::End,
    ]
}

/// Code for an expression whose bindings generated `r`: the collapse follows.
pub open spec fn with_collapse(l: Layout, r: (bool, Seq<Instr>, Seq<crate::ir::MakeClosure>), n: int) -> (bool, Seq<Instr>, Seq<crate::ir::MakeClosure>) {
    (r.0, r.1 + collapse_code(l, n), r.2)
}

/// Code for the first `n` bindings of `e`, the first discovered closure taking
/// table index `tbl`.
pub open spec fn gen_bindings(l: Layout, e: Expr, n: int, tbl: int) -> (bool, Seq<Instr>, Seq<crate::ir::MakeClosure>)
    decreases e, n,
{
    if n <= 0 || n > e.bindings@.len() {
        (true, seq![], seq![])
    } else {
        let p = gen_bindings(l, e, n - 1, tbl);
        let b = gen_bindee(l, e.bindings@[n - 1].bindee, tbl + p.2.len());
        (p.0 && b.0, p.1 + b.1, p.2 + b.2)
    }
}

/// Code for a whole expression.
pub open spec fn gen_expr_spec(l: Layout, e: Expr, tbl: int) -> (bool, Seq<Instr>, Seq<crate::ir::MakeClosure>) {
    with_collapse(l, gen_bindings(l, e, e.bindings@.len() as int, tbl), e.bindings@.len() as int)
}

/// Code for one binding.
pub open spec fn gen_bindee(l: Layout, b: Bindee, tbl: int) -> (bool, Seq<Instr>, Seq<crate::ir::MakeClosure>)
    decreases b, 0int,
{
    match b {
        Bindee::Error(_) => (true, seq![call_rt(l, RtFn::Error)], seq![]),
        Bindee::Atom(a) => (true, atom_code(l, a), seq![]),
        Bindee::Num(n) => (true, seq![Instr::I64Const(n), call_rt(l, RtFn::AllocI64)], seq![]),
        Bindee::Bool(v) => (
            true,
            seq![Instr::I32Const(if v { 1i32 } else { 0i32 }), call_rt(l, RtFn::AllocI32)],
            seq![],
        ),
        Bindee::MakeClosure(mc) => (
            true,
            seq![
                Instr::I32Const(tbl as i32),
                Instr::I32Const(mc.captured@.len() as i32),
                call_rt(l, RtFn::AllocClosure),
            ] + capture_code(l, mc.captured@),
            seq![mc],
        ),
        Bindee::AppClosure(c, ps) => (
            true,
            seq![Instr::I32Const((c.idx - 1) as i32), call_rt(l, RtFn::PrepAppClosure)]
                + offset_code(l, ps@, RtFn::PushParam) + seq![Instr::CallIndirect(l.proc_sig, 0u8)],
            seq![],
        ),
        Bindee::AppFunc(index, _, args) => (
            true,
            offset_code(l, args@, RtFn::Load) + seq![Instr::Call((index + l.n_imports) as u32)],
            seq![],
        ),
        Bindee::BinOp(x, op, y) => (
            true,
            seq![
                Instr::I32Const((x.idx - 1) as i32),
                Instr::I32Const((y.idx - 1) as i32),
                call_rt(l, op_fn(op)),
            ],
            seq![],
        ),
        Bindee::If(c, t, f) => {
            let gt = with_collapse(l, gen_bindings(l, t, t.bindings@.len() as int, tbl), t.bindings@.len() as int);
            let gf = with_collapse(l, gen_bindings(l, f, f.bindings@.len() as int, tbl + gt.2.len()), f.bindings@.len() as int);
            (
                gt.0 && gf.0,
                atom_code(l, c) + seq![call_rt(l, RtFn::DerefI32), Instr::If] + gt.1 + seq![Instr::Else]
                    + gf.1 + seq![Instr::End],
                gt.2 + gf.2,
            )
        },
        Bindee::Record(_, _) => (false, seq![], seq![]),
        Bindee::Project(_, _, _) => (false, seq![], seq![]),
        Bindee::Variant(rank, _, payload) => (
            true,
            seq![Instr::I32Const(rank as i32)] + match payload {
                Some(a) => seq![Instr::I32Const((a.idx - 1) as i32), call_rt(l, RtFn::AllocVariant)],
                None => seq![call_rt(l, RtFn::AllocVariant0)],
            },
            seq![],
        ),
        Bindee::Match(s, bs) => {
            let k = bs@.len() as int;
            let g = gen_branches(l, bs, k, k, tbl);
            (g.0, match_head(l, s, k) + g.1, g.2)
        },
    }
}

/// Code for the first `i` of the `k` branches of a match: branch `j` ends
/// its block and, unless it is the last, jumps out of the `k - 1 - j`
/// blocks that enclose it.
pub open spec fn gen_branches(l: Layout, bs: Vec<Branch>, i: int, k: int, tbl: int) -> (bool, Seq<Instr>, Seq<crate::ir::MakeClosure>)
    decreases bs, i,
{
    if i <= 0 || i > bs@.len() {
        (true, seq![], seq![])
    } else {
        let p = gen_branches(l, bs, i - 1, k, tbl);
        let br = bs@[i - 1];
        let r = with_collapse(
            l,
            gen_bindings(l, br.rhs, br.rhs.bindings@.len() as int, tbl + p.2.len()),
            br.rhs.bindings@.len() as int,
        );
        (p.0 && r.0, p.1 + branch_code(l, br.binder is Some, r.1, k - i), p.2 + r.2)
    }
}

/// The code of one branch around its body, `up` being the number of blocks
/// left to leave after it.
pub open spec fn branch_code(l: Layout, bound: bool, body: Seq<Instr>, up: int) -> Seq<Instr> {
    (if bound {
        seq![Instr::I32Const(0i32), call_rt(l, RtFn::LoadPayload)]
    } else {
        seq![]
    }) + body + (if bound {
        seq![Instr::I32Const(1i32), call_rt(l, RtFn::Ret)]
    } else {
        seq![]
    }) + (if up > 0 {
        seq![Instr::Br(up as u32)]
    } else {
        seq![]
    }) + seq![Instr::End]
}

/// An atom refers to a slot at or below the top of the value stack, within
/// the range the generator can emit.
pub open spec fn wf_atom(a: Atom) -> bool {
    1 <= a.idx <= ATOM_MAX
}

pub open spec fn wf_atoms(s: Seq<Atom>) -> bool {
    s.len() <= ATOM_MAX && forall|j: int| 0 <= j < s.len() ==> wf_atom(#[trigger] s[j])
}

/// The first `n` bindings of `e` are well formed (closure bodies included).
pub open spec fn wf_bindings(e: Expr, n: int) -> bool
    decreases e, n,
{
    if n <= 0 || n > e.bindings@.len() {
        true
    } else {
        wf_bindings(e, n - 1) && wf_bindee(e.bindings@[n - 1].bindee)
    }
}

/// A closure literal is well formed: its captures, its arity and its body.
pub open spec fn wf_closure(mc: crate::ir::MakeClosure) -> bool {
    &&& wf_atoms(mc.captured@)
    &&& mc.params@.len() <= ATOM_MAX
    &&& mc.body.bindings@.len() <= ATOM_MAX
    &&& wf_bindings(mc.body, mc.body.bindings@.len() as int)
}

/// An expression is well formed: its atoms and counts are in range.
pub open spec fn wf_expr(e: Expr) -> bool {
    e.bindings@.len() <= ATOM_MAX && wf_bindings(e, e.bindings@.len() as int)
}

pub open spec fn wf_bindee(b: Bindee) -> bool
    decreases b, 0int,
{
    match b {
        Bindee::Atom(a) => wf_atom(a),
        Bindee::MakeClosure(mc) => wf_atoms(mc.captured@) && mc.params@.len() <= ATOM_MAX
            && mc.body.bindings@.len() <= ATOM_MAX
            && wf_bindings(mc.body, mc.body.bindings@.len() as int),
        Bindee::AppClosure(c, ps) => wf_atom(c) && wf_atoms(ps@),
        Bindee::AppFunc(index, _, args) => index <= TABLE_MAX && wf_atoms(args@),
        Bindee::BinOp(x, _, y) => wf_atom(x) && wf_atom(y),
        Bindee::If(c, t, f) => wf_atom(c) && t.bindings@.len() <= ATOM_MAX
            && wf_bindings(t, t.bindings@.len() as int) && f.bindings@.len() <= ATOM_MAX
            && wf_bindings(f, f.bindings@.len() as int),
        Bindee::Variant(rank, _, payload) => rank <= TABLE_MAX && (payload matches Some(a) ==> wf_atom(a)),
        Bindee::Match(s, bs) => wf_atom(s) && bs@.len() <= ATOM_MAX && wf_branches(bs, bs@.len() as int),
        _ => true,
    }
}

pub open spec fn wf_branches(bs: Vec<Branch>, i: int) -> bool
    decreases bs, i,
{
    if i <= 0 || i > bs@.len() {
        true
    } else {
        wf_branches(bs, i - 1) && bs@[i - 1].rhs.bindings@.len() <= ATOM_MAX
            && wf_bindings(bs@[i - 1].rhs, bs@[i - 1].rhs.bindings@.len() as int)
    }
}

pub proof fn lemma_wf_bindings_prefix(e: Expr, i: int, n: int)
    requires
        0 <= i < n <= e.bindings@.len(),
        wf_bindings(e, n),
    ensures
        wf_bindee(e.bindings@[i].bindee),
    decreases n,
{
    if i < n - 1 {
        lemma_wf_bindings_prefix(e, i, n - 1);
    }
}

pub proof fn lemma_wf_branches_prefix(bs: Vec<Branch>, i: int, n: int)
    requires
        0 <= i < n <= bs@.len(),
        wf_branches(bs, n),
    ensures
        wf_bindings(bs@[i].rhs, bs@[i].rhs.bindings@.len() as int),
        bs@[i].rhs.bindings@.len() <= ATOM_MAX,
    decreases n,
{
    if i < n - 1 {
        lemma_wf_branches_prefix(bs, i, n - 1);
    }
}

/// A later prefix of the bindings is supported only if an earlier one is, and
/// discovers at least as many closures.
pub proof fn lemma_gen_bindings_prefix(l: Layout, e: Expr, i: int, n: int, tbl: int)
    requires
        0 <= i <= n <= e.bindings@.len(),
    ensures
        gen_bindings(l, e, n, tbl).0 ==> gen_bindings(l, e, i, tbl).0,
        gen_bindings(l, e, n, tbl).2.len() >= gen_bindings(l, e, i, tbl).2.len(),
    decreases n,
{
    if i < n {
        lemma_gen_bindings_prefix(l, e, i, n - 1, tbl);
    }
}

pub proof fn lemma_gen_branches_prefix(l: Layout, bs: Vec<Branch>, i: int, n: int, k: int, tbl: int)
    requires
        0 <= i <= n <= bs@.len(),
    ensures
        gen_branches(l, bs, n, k, tbl).0 ==> gen_branches(l, bs, i, k, tbl).0,
        gen_branches(l, bs, n, k, tbl).2.len() >= gen_branches(l, bs, i, k, tbl).2.len(),
    decreases n,
{
    if i < n {
        lemma_gen_branches_prefix(l, bs, i, n - 1, k, tbl);
    }
}

/// The number of closure literals in the first `n` bindings of `e`, at any
/// depth, closure bodies included.
pub open spec fn count_bindings(e: Expr, n: int) -> nat
    decreases e, n,
{
    if n <= 0 || n > e.bindings@.len() {
        0
    } else {
        count_bindings(e, n - 1) + count_bindee(e.bindings@[n - 1].bindee)
    }
}

pub open spec fn count_bindee(b: Bindee) -> nat
    decreases b, 0int,
{
    match b {
        Bindee::MakeClosure(mc) => 1 + count_bindings(mc.body, mc.body.bindings@.len() as int),
        Bindee::If(_, t, f) => count_bindings(t, t.bindings@.len() as int)
            + count_bindings(f, f.bindings@.len() as int),
        Bindee::Match(_, bs) => count_branches(bs, bs@.len() as int),
        _ => 0,
    }
}

pub open spec fn count_branches(bs: Vec<Branch>, i: int) -> nat
    decreases bs, i,
{
    if i <= 0 || i > bs@.len() {
        0
    } else {
        count_branches(bs, i - 1) + count_bindings(bs@[i - 1].rhs, bs@[i - 1].rhs.bindings@.len() as int)
    }
}

/// The first `n` bindings of `e` hold no record construction or projection,
/// at any depth, closure bodies included.
pub open spec fn sup_bindings(e: Expr, n: int) -> bool
    decreases e, n,
{
    if n <= 0 || n > e.bindings@.len() {
        true
    } else {
        sup_bindings(e, n - 1) && sup_bindee(e.bindings@[n - 1].bindee)
    }
}

pub open spec fn sup_bindee(b: Bindee) -> bool
    decreases b, 0int,
{
    match b {
        Bindee::Record(_, _) => false,
        Bindee::Project(_, _, _) => false,
        Bindee::MakeClosure(mc) => sup_bindings(mc.body, mc.body.bindings@.len() as int),
        Bindee::If(_, t, f) => sup_bindings(t, t.bindings@.len() as int)
            && sup_bindings(f, f.bindings@.len() as int),
        Bindee::Match(_, bs) => sup_branches(bs, bs@.len() as int),
        _ => true,
    }
}

pub open spec fn sup_branches(bs: Vec<Branch>, i: int) -> bool
    decreases bs, i,
{
    if i <= 0 || i > bs@.len() {
        true
    } else {
        sup_branches(bs, i - 1) && sup_bindings(bs@[i - 1].rhs, bs@[i - 1].rhs.bindings@.len() as int)
    }
}

pub open spec fn count_expr(e: Expr) -> nat {
    count_bindings(e, e.bindings@.len() as int)
}

pub open spec fn sup_expr(e: Expr) -> bool {
    sup_bindings(e, e.bindings@.len() as int)
}

/// The closure literals inside the bodies of the closures `s`.
pub open spec fn weight(s: Seq<crate::ir::MakeClosure>) -> nat
    decreases s.len(),
{
    if s.len() == 0 {
        0
    } else {
        weight(s.drop_last()) + count_expr(s.last().body)
    }
}

/// Every closure of `s` has a supported body.
pub open spec fn all_sup(s: Seq<crate::ir::MakeClosure>) -> bool {
    forall|i: int| 0 <= i < s.len() ==> sup_expr(#[trigger] s[i].body)
}

pub proof fn lemma_weight_concat(a: Seq<crate::ir::MakeClosure>, b: Seq<crate::ir::MakeClosure>)
    ensures
        weight(a + b) == weight(a) + weight(b),
    decreases b.len(),
{
    if b.len() > 0 {
        lemma_weight_concat(a, b.drop_last());
        assert((a + b).drop_last() =~= a + b.drop_last());
    } else {
        assert(a + b =~= a);
    }
}

pub proof fn lemma_all_sup_concat(a: Seq<crate::ir::MakeClosure>, b: Seq<crate::ir::MakeClosure>)
    requires
        all_sup(a),
        all_sup(b),
    ensures
        all_sup(a + b),
{
    assert forall|i: int| 0 <= i < (a + b).len() implies sup_expr(#[trigger] (a + b)[i].body) by {
        if i < a.len() {
            assert((a + b)[i] == a[i]);
        } else {
            assert((a + b)[i] == b[i - a.len()]);
        }
    }
}

/// Compiling code discovers its directly visible closure literals; together
/// with those inside their bodies they are all its closure literals. Code
/// without records or projections compiles, and so do the bodies it discovers.
pub proof fn lemma_gen_bindings_count(l: Layout, e: Expr, n: int, tbl: int)
    requires
        0 <= n <= e.bindings@.len(),
    ensures
        count_bindings(e, n) == gen_bindings(l, e, n, tbl).2.len() + weight(gen_bindings(l, e, n, tbl).2),
        sup_bindings(e, n) ==> gen_bindings(l, e, n, tbl).0 && all_sup(gen_bindings(l, e, n, tbl).2),
    decreases e, n,
{
    if n > 0 {
        let p = gen_bindings(l, e, n - 1, tbl);
        lemma_gen_bindings_count(l, e, n - 1, tbl);
        lemma_gen_bindee_count(l, e.bindings@[n - 1].bindee, tbl + p.2.len());
        let b = gen_bindee(l, e.bindings@[n - 1].bindee, tbl + p.2.len());
        lemma_weight_concat(p.2, b.2);
        if sup_bindings(e, n) {
            lemma_all_sup_concat(p.2, b.2);
        }
    }
}

pub proof fn lemma_gen_bindee_count(l: Layout, b: Bindee, tbl: int)
    ensures
        count_bindee(b) == gen_bindee(l, b, tbl).2.len() + weight(gen_bindee(l, b, tbl).2),
        sup_bindee(b) ==> gen_bindee(l, b, tbl).0 && all_sup(gen_bindee(l, b, tbl).2),
    decreases b, 0int,
{
    match b {
        Bindee::MakeClosure(mc) => {
            let s = seq![mc];
            assert(s.drop_last() =~= Seq::<crate::ir::MakeClosure>::empty());
            assert(weight(Seq::<crate::ir::MakeClosure>::empty()) == 0);
            assert(s.last() == mc);
            assert(weight(s) == count_expr(mc.body));
        },
        Bindee::If(_, t, f) => {
            let gt = gen_bindings(l, t, t.bindings@.len() as int, tbl);
            lemma_gen_bindings_count(l, t, t.bindings@.len() as int, tbl);
            lemma_gen_bindings_count(l, f, f.bindings@.len() as int, tbl + gt.2.len());
            let gf = gen_bindings(l, f, f.bindings@.len() as int, tbl + gt.2.len());
            lemma_weight_concat(gt.2, gf.2);
            if sup_bindee(b) {
                lemma_all_sup_concat(gt.2, gf.2);
            }
        },
        Bindee::Match(_, bs) => {
            lemma_gen_branches_count(l, bs, bs@.len() as int, bs@.len() as int, tbl);
        },
        _ => {},
    }
}

pub proof fn lemma_gen_branches_count(l: Layout, bs: Vec<Branch>, i: int, k: int, tbl: int)
    requires
        0 <= i <= bs@.len(),
    ensures
        count_branches(bs, i) == gen_branches(l, bs, i, k, tbl).2.len() + weight(gen_branches(l, bs, i, k, tbl).2),
        sup_branches(bs, i) ==> gen_branches(l, bs, i, k, tbl).0 && all_sup(gen_branches(l, bs, i, k, tbl).2),
    decreases bs, i,
{
    if i > 0 {
        let p = gen_branches(l, bs, i - 1, k, tbl);
        lemma_gen_branches_count(l, bs, i - 1, k, tbl);
        let br = bs@[i - 1];
        lemma_gen_bindings_count(l, br.rhs, br.rhs.bindings@.len() as int, tbl + p.2.len());
        let r = gen_bindings(l, br.rhs, br.rhs.bindings@.len() as int, tbl + p.2.len());
        lemma_weight_concat(p.2, r.2);
        if sup_branches(bs, i) {
            lemma_all_sup_concat(p.2, r.2);
        }
    }
}

} // verus!
