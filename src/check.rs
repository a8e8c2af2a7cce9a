use vstd::prelude::*;
use crate::ir::{Atom, Bindee, Branch, Expr, FuncDecl};
use crate::spec_code::{
    ATOM_MAX, TABLE_MAX, wf_atom, wf_atoms, wf_bindings, wf_bindee, wf_branches, wf_expr,
    lemma_wf_bindings_prefix, lemma_wf_branches_prefix,
};

verus! {

broadcast use vstd::std_specs::vec::group_vec_axioms;

pub fn atom_ok(a: &Atom) -> (r: bool)
    ensures
        r == wf_atom(*a),
{
    1 <= a.idx && a.idx <= ATOM_MAX
}

pub fn atoms_ok(s: &Vec<Atom>) -> (r: bool)
    ensures
        r == wf_atoms(s@),
{
    if s.len() > ATOM_MAX as usize {
        return false;
    }
    let mut i: usize = 0;
    while i < s.len()
        invariant
            i <= s@.len(),
            forall|j: int| 0 <= j < i ==> wf_atom(#[trigger] s@[j]),
        decreases s@.len() - i,
    {
        if !atom_ok(&s[i]) {
            return false;
        }
        i = i + 1;
    }
    true
}

/// Whether an expression is well formed, closure bodies included.
pub fn expr_ok(e: &Expr) -> (r: bool)
    ensures
        r == wf_expr(*e),
    decreases e,
{
    let n = e.bindings.len();
    if n > ATOM_MAX as usize {
        return false;
    }
    let mut i: usize = 0;
    while i < n
        invariant
            n == e.bindings@.len(),
            i <= n,
            wf_bindings(*e, i as int),
        decreases n - i,
    {
        if !bindee_ok(&e.bindings[i].bindee) {
            proof {
                if wf_bindings(*e, n as int) {
                    lemma_wf_bindings_prefix(*e, i as int, n as int);
                }
            }
            return false;
        }
        i = i + 1;
    }
    true
}

pub fn bindee_ok(b: &Bindee) -> (r: bool)
    ensures
        r == wf_bindee(*b),
    decreases b,
{
    match b {
        Bindee::Atom(a) => atom_ok(a),
        Bindee::MakeClosure(mc) => atoms_ok(&mc.captured) && mc.params.len() <= ATOM_MAX as usize
            && expr_ok(&mc.body),
        Bindee::AppClosure(c, ps) => atom_ok(c) && atoms_ok(ps),
        Bindee::AppFunc(index, _, args) => *index <= TABLE_MAX && atoms_ok(args),
        Bindee::BinOp(x, _, y) => atom_ok(x) && atom_ok(y),
        Bindee::If(c, t, f) => atom_ok(c) && expr_ok(t) && expr_ok(f),
        Bindee::Variant(rank, _, payload) => *rank <= TABLE_MAX && match payload {
            Some(a) => atom_ok(a),
            None => true,
        },
        Bindee::Match(s, bs) => atom_ok(s) && branches_ok(bs),
        _ => true,
    }
}

fn branches_ok(bs: &Vec<Branch>) -> (r: bool)
    ensures
        r == (bs@.len() <= ATOM_MAX && wf_branches(*bs, bs@.len() as int)),
    decreases bs,
{
    let n = bs.len();
    if n > ATOM_MAX as usize {
        return false;
    }
    let mut i: usize = 0;
    while i < n
        invariant
            n == bs@.len(),
            i <= n,
            wf_branches(*bs, i as int),
        decreases n - i,
    {
        if !expr_ok(&bs[i].rhs) {
            proof {
                if wf_branches(*bs, n as int) {
                    lemma_wf_branches_prefix(*bs, i as int, n as int);
                }
            }
            return false;
        }
        i = i + 1;
    }
    true
}

/// Whether a declaration can be handed to the code generator.
pub fn decl_ok(d: &FuncDecl) -> (r: bool)
    ensures
        r == (wf_expr(d.body) && d.params@.len() <= ATOM_MAX),
{
    expr_ok(&d.body) && d.params.len() <= ATOM_MAX as usize
}

} // verus!
