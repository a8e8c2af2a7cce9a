use vstd::prelude::*;
use crate::instr::{Instr, RtFn, rt_name, op_fn};
use crate::ir::{Atom, Bindee, Branch, Expr, MakeClosure};
use crate::names::{name_map, names_get};
use crate::spec_code::{
    Layout, TABLE_MAX, ATOM_MAX, call_rt, atom_code, offset_code, capture_code, collapse_code, match_head,
    branch_code, gen_bindings, gen_bindee, gen_branches, gen_expr_spec, wf_atom, wf_atoms, wf_bindings,
    wf_bindee, wf_branches, wf_expr, wf_closure, lemma_wf_bindings_prefix, lemma_wf_branches_prefix,
    lemma_gen_bindings_prefix, lemma_gen_branches_prefix,
};

verus! {

broadcast use vstd::std_specs::vec::group_vec_axioms;

/// Why a module could not be built.
#[derive(Clone, Debug, PartialEq, Eq)]
pub enum BuildError {
    /// A primitive the generator calls is not exported by the runtime module.
    MissingRuntimeFn(String),
    /// A runtime export refers to a function the runtime module does not define.
    BadRuntimeExport(String),
    /// Record construction and projection are not supported.
    Unsupported,
    /// More closures than the indirect-call table can index.
    TooManyClosures,
}

/// The state of code generation for one module: the instructions of the
/// function being compiled, the runtime's import table, and every closure
/// discovered so far, in discovery order, with its table index.
pub struct Fungen<'a> {
    pub instrs: Vec<Instr>,
    pub runtime_funcs: im::HashMap<String, u32>,
    pub n_imports: u32,
    pub proc_sig: u32,
    pub table_index: u32,
    pub closures: Vec<(u32, &'a MakeClosure)>,
}

impl<'a> Fungen<'a> {
    pub open spec fn layout(&self) -> Layout {
        Layout { names: name_map(self.runtime_funcs), n_imports: self.n_imports, proc_sig: self.proc_sig }
    }

    /// The closures discovered so far, in the order of their table indices.
    pub open spec fn discovered(&self) -> Seq<MakeClosure> {
        self.closures@.map_values(|p: (u32, &'a MakeClosure)| *p.1)
    }

    /// Every runtime primitive has an import; the `j`-th discovered closure
    /// holds table index `j`, and the next index is the number discovered.
    pub open spec fn wf(&self) -> bool {
        &&& forall|f: RtFn| #[trigger] name_map(self.runtime_funcs).contains_key(rt_name(f))
        &&& self.n_imports <= TABLE_MAX
        &&& self.table_index <= TABLE_MAX
        &&& self.closures@.len() == self.table_index
        &&& forall|j: int| 0 <= j < self.closures@.len() ==> #[trigger] self.closures@[j].0 == j
        &&& forall|j: int| 0 <= j < self.closures@.len() ==> wf_closure(*(#[trigger] self.closures@[j]).1)
    }

    fn emit(&mut self, i: Instr)
        ensures
            final(self).instrs@ == old(self).instrs@.push(i),
            final(self).runtime_funcs == old(self).runtime_funcs,
            final(self).n_imports == old(self).n_imports,
            final(self).proc_sig == old(self).proc_sig,
            final(self).table_index == old(self).table_index,
            final(self).closures == old(self).closures,
    {
        self.instrs.push(i);
    }

    /// Emits a call of a runtime primitive.
    pub fn call_runtime(&mut self, f: RtFn)
        requires
            old(self).wf(),
        ensures
            final(self).instrs@ == old(self).instrs@.push(call_rt(old(self).layout(), f)),
            final(self).runtime_funcs == old(self).runtime_funcs,
            final(self).n_imports == old(self).n_imports,
            final(self).proc_sig == old(self).proc_sig,
            final(self).table_index == old(self).table_index,
            final(self).closures == old(self).closures,
    {
        assert(name_map(self.runtime_funcs).contains_key(rt_name(f)));
        match names_get(&self.runtime_funcs, f.name()) {
            Some(idx) => self.emit(Instr::Call(idx)),
            None => {},
        }
    }

    /// Emits a load of the value an atom refers to.
    pub fn get_atom(&mut self, a: &Atom)
        requires
            old(self).wf(),
            wf_atom(*a),
        ensures
            final(self).instrs@ == old(self).instrs@ + atom_code(old(self).layout(), *a),
            final(self).runtime_funcs == old(self).runtime_funcs,
            final(self).n_imports == old(self).n_imports,
            final(self).proc_sig == old(self).proc_sig,
            final(self).table_index == old(self).table_index,
            final(self).closures == old(self).closures,
    {
        self.emit(Instr::I32Const((a.idx - 1) as i32));
        self.call_runtime(RtFn::Load);
        assert(self.instrs@ =~= old(self).instrs@ + atom_code(old(self).layout(), *a));
    }

    /// Registers a closure under the next table index and returns that index.
    fn push_closure(&mut self, mc: &'a MakeClosure) -> (r: Result<u32, BuildError>)
        requires
            old(self).wf(),
            wf_closure(*mc),
        ensures
            final(self).wf(),
            final(self).instrs == old(self).instrs,
            final(self).layout() == old(self).layout(),
            r is Ok <==> old(self).table_index < TABLE_MAX,
            r is Err ==> r matches Err(BuildError::TooManyClosures),
            r is Ok ==> r->Ok_0 == old(self).table_index
                && final(self).discovered() == old(self).discovered().push(*mc),
    {
        if self.table_index == TABLE_MAX {
            return Err(BuildError::TooManyClosures);
        }
        let table_index = self.table_index;
        self.table_index = self.table_index + 1;
        self.closures.push((table_index, mc));
        assert(self.discovered() =~= old(self).discovered().push(*mc));
        Ok(table_index)
    }

    /// Emits, for the `j`-th atom, its index shifted by `j`, then a call of `f`.
    fn emit_offsets(&mut self, s: &Vec<Atom>, f: RtFn)
        requires
            old(self).wf(),
            wf_atoms(s@),
        ensures
            final(self).instrs@ == old(self).instrs@ + offset_code(old(self).layout(), s@, f),
            final(self).runtime_funcs == old(self).runtime_funcs,
            final(self).n_imports == old(self).n_imports,
            final(self).proc_sig == old(self).proc_sig,
            final(self).table_index == old(self).table_index,
            final(self).closures == old(self).closures,
    {
        let ghost l = old(self).layout();
        let n = s.len();
        let mut j: usize = 0;
        while j < n
            invariant
                n == s@.len(),
                j <= n,
                wf_atoms(s@),
                self.wf(),
                self.layout() == l,
                self.instrs@ == old(self).instrs@ + offset_code(l, s@.take(j as int), f),
                self.runtime_funcs == old(self).runtime_funcs,
                self.n_imports == old(self).n_imports,
                self.proc_sig == old(self).proc_sig,
                self.table_index == old(self).table_index,
                self.closures == old(self).closures,
            decreases n - j,
        {
            let a = s[j];
            assert(wf_atom(s@[j as int]));
            self.emit(Instr::I32Const((a.idx + (j as u32) - 1) as i32));
            self.call_runtime(f);
            assert(s@.take(j + 1).drop_last() =~= s@.take(j as int));
            j = j + 1;
            assert(self.instrs@ =~= old(self).instrs@ + offset_code(l, s@.take(j as int), f));
        }
        assert(s@.take(n as int) =~= s@);
    }

    /// Copies each captured atom into its capture slot of the closure just
    /// allocated.
    fn emit_captures(&mut self, s: &Vec<Atom>)
        requires
            old(self).wf(),
            wf_atoms(s@),
        ensures
            final(self).instrs@ == old(self).instrs@ + capture_code(old(self).layout(), s@),
            final(self).runtime_funcs == old(self).runtime_funcs,
            final(self).n_imports == old(self).n_imports,
            final(self).proc_sig == old(self).proc_sig,
            final(self).table_index == old(self).table_index,
            final(self).closures == old(self).closures,
    {
        let ghost l = old(self).layout();
        let n = s.len();
        let mut j: usize = 0;
        while j < n
            invariant
                n == s@.len(),
                j <= n,
                wf_atoms(s@),
                self.wf(),
                self.layout() == l,
                self.instrs@ == old(self).instrs@ + capture_code(l, s@.take(j as int)),
                self.runtime_funcs == old(self).runtime_funcs,
                self.n_imports == old(self).n_imports,
                self.proc_sig == old(self).proc_sig,
                self.table_index == old(self).table_index,
                self.closures == old(self).closures,
            decreases n - j,
        {
            let a = s[j];
            assert(wf_atom(s@[j as int]));
            self.emit(Instr::I32Const(j as i32));
            self.emit(Instr::I32Const(a.idx as i32));
            self.call_runtime(RtFn::SetVar);
            assert(s@.take(j + 1).drop_last() =~= s@.take(j as int));
            j = j + 1;
            assert(self.instrs@ =~= old(self).instrs@ + capture_code(l, s@.take(j as int)));
        }
        assert(s@.take(n as int) =~= s@);
    }

    /// Emits the collapse that leaves only the last of `n` bindings' values.
    fn emit_collapse(&mut self, n: usize)
        requires
            old(self).wf(),
            n <= ATOM_MAX,
        ensures
            final(self).instrs@ == old(self).instrs@ + collapse_code(old(self).layout(), n as int),
            final(self).runtime_funcs == old(self).runtime_funcs,
            final(self).n_imports == old(self).n_imports,
            final(self).proc_sig == old(self).proc_sig,
            final(self).table_index == old(self).table_index,
            final(self).closures == old(self).closures,
    {
        if n > 1 {
            self.emit(Instr::I32Const((n - 1) as i32));
            self.call_runtime(RtFn::Ret);
        }
        assert(self.instrs@ =~= old(self).instrs@ + collapse_code(old(self).layout(), n as int));
    }
    /// Compiles a function body that takes `nargs` slots of arguments and
    /// returns the instruction buffer with its code appended, leaving the
    /// buffer empty.
    pub fn gen_fun(&mut self, e: &'a Expr, nargs: usize) -> (r: Result<Vec<Instr>, BuildError>)
        requires
            old(self).wf(),
            wf_expr(*e),
            nargs <= TABLE_MAX,
        ensures
            final(self).wf(),
            final(self).layout() == old(self).layout(),
            final(self).instrs@.len() == 0,
            ({
                let g = gen_expr_spec(old(self).layout(), *e, old(self).table_index as int);
                &&& (r is Ok <==> g.0 && old(self).table_index + g.2.len() <= TABLE_MAX)
                &&& (r matches Err(BuildError::Unsupported) ==> !g.0)
                &&& (r matches Err(BuildError::TooManyClosures) ==> old(self).table_index + g.2.len() > TABLE_MAX)
                &&& (r is Err ==> r matches Err(BuildError::Unsupported) || r matches Err(BuildError::TooManyClosures))
                &&& (r is Ok ==> r->Ok_0@ == old(self).instrs@ + fun_code(old(self).layout(), *e, nargs as int, old(self).table_index as int)
                    && final(self).discovered() == old(self).discovered() + g.2
                    && final(self).table_index == old(self).table_index + g.2.len())
            }),
    {
        let ghost l = self.layout();
        let ghost tbl = self.table_index as int;
        let r = self.gen_expr(e);
        if let Err(err) = r {
            self.instrs = Vec::new();
            return Err(err);
        }
        if nargs > 0 {
            self.emit(Instr::I32Const(nargs as i32));
            self.call_runtime(RtFn::Ret);
        }
        self.emit(Instr::End);
        let mut out: Vec<Instr> = Vec::new();
        std::mem::swap(&mut out, &mut self.instrs);
        assert(out@ =~= old(self).instrs@ + fun_code(l, *e, nargs as int, tbl));
        Ok(out)
    }

    /// Compiles one binding.
    pub fn gen_bindee(&mut self, b: &'a Bindee) -> (r: Result<(), BuildError>)
        requires
            old(self).wf(),
            wf_bindee(*b),
        ensures
            outcome(*old(self), *final(self), r, gen_bindee(old(self).layout(), *b, old(self).table_index as int)),
        decreases b,
    {
        let ghost l = self.layout();
        let ghost tbl = self.table_index as int;
        let ghost start = self.instrs@;
        match b {
            Bindee::Error(_) => {
                self.call_runtime(RtFn::Error);
            },
            Bindee::Atom(a) => {
                self.get_atom(a);
            },
            Bindee::Num(n) => {
                self.emit(Instr::I64Const(*n));
                self.call_runtime(RtFn::AllocI64);
            },
            Bindee::Bool(v) => {
                self.emit(Instr::I32Const(if *v { 1i32 } else { 0i32 }));
                self.call_runtime(RtFn::AllocI32);
            },
            Bindee::MakeClosure(mc) => {
                // The body is compiled later, as a function of its own; here
                // the closure only gets its table index and its captures.
                let t = self.push_closure(mc);
                match t {
                    Err(e) => {
                        return Err(e);
                    },
                    Ok(table_index) => {
                        self.emit(Instr::I32Const(table_index as i32));
                        self.emit(Instr::I32Const(mc.captured.len() as i32));
                        self.call_runtime(RtFn::AllocClosure);
                        self.emit_captures(&mc.captured);
                    },
                }
            },
            Bindee::AppClosure(c, ps) => {
                self.emit(Instr::I32Const((c.idx - 1) as i32));
                self.call_runtime(RtFn::PrepAppClosure);
                self.emit_offsets(ps, RtFn::PushParam);
                self.emit(Instr::CallIndirect(self.proc_sig, 0u8));
            },
            Bindee::AppFunc(index, _, args) => {
                self.emit_offsets(args, RtFn::Load);
                self.emit(Instr::Call(*index + self.n_imports));
            },
            Bindee::BinOp(x, op, y) => {
                self.emit(Instr::I32Const((x.idx - 1) as i32));
                self.emit(Instr::I32Const((y.idx - 1) as i32));
                self.call_runtime(RtFn::for_op(*op));
            },
            Bindee::If(c, t, f) => {
                self.get_atom(c);
                self.call_runtime(RtFn::DerefI32);
                self.emit(Instr::If);
                let rt = self.gen_expr(t);
                if rt.is_err() {
                    return rt;
                }
                self.emit(Instr::Else);
                assert(self.table_index == tbl + gen_expr_spec(l, *t, tbl).2.len());
                let rf = self.gen_expr(f);
                if rf.is_err() {
                    return rf;
                }
                self.emit(Instr::End);
            },
            Bindee::Record(_, _) => {
                return Err(BuildError::Unsupported);
            },
            Bindee::Project(_, _, _) => {
                return Err(BuildError::Unsupported);
            },
            Bindee::Variant(rank, _, payload) => {
                self.emit(Instr::I32Const(*rank as i32));
                match payload {
                    Some(a) => {
                        self.emit(Instr::I32Const((a.idx - 1) as i32));
                        self.call_runtime(RtFn::AllocVariant);
                    },
                    None => {
                        self.call_runtime(RtFn::AllocVariant0);
                    },
                }
            },
            Bindee::Match(s, bs) => {
                return self.gen_match(s, bs);
            },
        }
        assert(self.instrs@ =~= start + gen_bindee(l, *b, tbl).1);
        assert(self.discovered() =~= old(self).discovered() + gen_bindee(l, *b, tbl).2);
        Ok(())
    }

    /// Compiles a match: nested blocks, a table jump on the scrutinee's rank,
    /// then the branch bodies from the innermost block outward.
    fn gen_match(&mut self, s: &Atom, bs: &'a Vec<Branch>) -> (r: Result<(), BuildError>)
        requires
            old(self).wf(),
            wf_atom(*s),
            bs@.len() <= ATOM_MAX,
            wf_branches(*bs, bs@.len() as int),
        ensures
            outcome(*old(self), *final(self), r, ({
                let k = bs@.len() as int;
                let g = gen_branches(old(self).layout(), *bs, k, k, old(self).table_index as int);
                (g.0, match_head(old(self).layout(), *s, k) + g.1, g.2)
            })),
        decreases bs,
    {
        let ghost l = self.layout();
        let ghost tbl = self.table_index as int;
        let k = bs.len();
        let mut j: usize = 0;
        while j <= k
            invariant
                k == bs@.len(),
                k <= ATOM_MAX,
                j <= k + 1,
                self.wf(),
                self.layout() == l,
                self.table_index == tbl,
                self.closures == old(self).closures,
                self.instrs@ == old(self).instrs@ + Seq::new(j as nat, |i: int| Instr::Block),
            decreases k + 1 - j,
        {
            self.emit(Instr::Block);
            j = j + 1;
            assert(self.instrs@ =~= old(self).instrs@ + Seq::new(j as nat, |i: int| Instr::Block));
        }
        self.emit(Instr::I32Const((s.idx - 1) as i32));
        self.call_runtime(RtFn::GetRank);
        self.emit(Instr::BrTable(k as u32, k as u32));
        self.emit(Instr::End);
        assert(self.instrs@ =~= old(self).instrs@ + match_head(l, *s, k as int));
        let ghost head = self.instrs@;
        let mut i: usize = 0;
        while i < k
            invariant
                k == bs@.len(),
                k <= ATOM_MAX,
                i <= k,
                wf_branches(*bs, k as int),
                self.wf(),
                self.layout() == l,
                l == old(self).layout(),
                tbl == old(self).table_index,
                gen_branches(l, *bs, i as int, k as int, tbl).0,
                self.instrs@ == head + gen_branches(l, *bs, i as int, k as int, tbl).1,
                self.discovered() == old(self).discovered() + gen_branches(l, *bs, i as int, k as int, tbl).2,
                self.table_index == tbl + gen_branches(l, *bs, i as int, k as int, tbl).2.len(),
            decreases k - i,
        {
            proof {
                lemma_wf_branches_prefix(*bs, i as int, k as int);
            }
            let r = self.gen_branch(&bs[i], k - 1 - i);
            if r.is_err() {
                proof {
                    lemma_gen_branches_prefix(l, *bs, i + 1, k as int, k as int, tbl);
                    assert(self.layout() == l);
                }
                return r;
            }
            i = i + 1;
            assert(self.instrs@ =~= head + gen_branches(l, *bs, i as int, k as int, tbl).1);
            assert(self.discovered() =~= old(self).discovered() + gen_branches(l, *bs, i as int, k as int, tbl).2);
        }
        assert(self.instrs@ =~= old(self).instrs@ + (match_head(l, *s, k as int) + gen_branches(l, *bs, k as int, k as int, tbl).1));
        Ok(())
    }

    /// Compiles one branch of a match; `up` is the number of enclosing blocks
    /// to leave after its body.
    fn gen_branch(&mut self, br: &'a Branch, up: usize) -> (r: Result<(), BuildError>)
        requires
            old(self).wf(),
            up <= ATOM_MAX,
            br.rhs.bindings@.len() <= ATOM_MAX,
            wf_bindings(br.rhs, br.rhs.bindings@.len() as int),
        ensures
            outcome(*old(self), *final(self), r, ({
                let g = gen_expr_spec(old(self).layout(), br.rhs, old(self).table_index as int);
                (g.0, branch_code(old(self).layout(), br.binder is Some, g.1, up as int), g.2)
            })),
        decreases br,
    {
        let ghost l = self.layout();
        let ghost tbl = self.table_index as int;
        let bound = br.binder.is_some();
        if bound {
            self.emit(Instr::I32Const(0i32));
            self.call_runtime(RtFn::LoadPayload);
        }
        let r = self.gen_expr(&br.rhs);
        if r.is_err() {
            return r;
        }
        if bound {
            self.emit(Instr::I32Const(1i32));
            self.call_runtime(RtFn::Ret);
        }
        if up > 0 {
            self.emit(Instr::Br(up as u32));
        }
        self.emit(Instr::End);
        assert(self.instrs@ =~= old(self).instrs@ + branch_code(l, bound, gen_expr_spec(l, br.rhs, tbl).1, up as int));
        Ok(())
    }

    /// Compiles an expression: its bindings in order, then the collapse that
    /// leaves only the last binding's value.
    pub fn gen_expr(&mut self, e: &'a Expr) -> (r: Result<(), BuildError>)
        requires
            old(self).wf(),
            wf_expr(*e),
        ensures
            outcome(*old(self), *final(self), r, gen_expr_spec(old(self).layout(), *e, old(self).table_index as int)),
        decreases e,
    {
        let ghost l = self.layout();
        let ghost tbl = self.table_index as int;
        let n = e.bindings.len();
        let mut i: usize = 0;
        while i < n
            invariant
                n == e.bindings@.len(),
                i <= n,
                wf_expr(*e),
                self.wf(),
                self.layout() == l,
                l == old(self).layout(),
                tbl == old(self).table_index,
                gen_bindings(l, *e, i as int, tbl).0,
                self.instrs@ == old(self).instrs@ + gen_bindings(l, *e, i as int, tbl).1,
                self.discovered() == old(self).discovered() + gen_bindings(l, *e, i as int, tbl).2,
                self.table_index == tbl + gen_bindings(l, *e, i as int, tbl).2.len(),
            decreases n - i,
        {
            proof {
                lemma_wf_bindings_prefix(*e, i as int, n as int);
            }
            let ghost cur = self.table_index as int;
            let r = self.gen_bindee(&e.bindings[i].bindee);
            if r.is_err() {
                proof {
                    lemma_gen_bindings_prefix(l, *e, i + 1, n as int, tbl);
                    let p = gen_bindings(l, *e, i as int, tbl);
                    assert(cur == tbl + p.2.len());
                    assert(gen_bindings(l, *e, i + 1, tbl).2 == p.2 + gen_bindee(l, e.bindings@[i as int].bindee, cur).2);
                    assert(self.layout() == l);
                }
                return r;
            }
            i = i + 1;
            assert(self.instrs@ =~= old(self).instrs@ + gen_bindings(l, *e, i as int, tbl).1);
            assert(self.discovered() =~= old(self).discovered() + gen_bindings(l, *e, i as int, tbl).2);
        }
        self.emit_collapse(n);
        assert(self.instrs@ =~= old(self).instrs@ + gen_expr_spec(l, *e, tbl).1);
        Ok(())
    }
}

/// The code of a compiled function: its body, then, if it has parameters
/// (or captures), the collapse that drops them, then the end of the function.
pub open spec fn fun_code(l: Layout, e: Expr, nargs: int, tbl: int) -> Seq<Instr> {
    gen_expr_spec(l, e, tbl).1 + (if nargs > 0 {
        seq![Instr::I32Const(nargs as i32), call_rt(l, RtFn::Ret)]
    } else {
        seq![]
    }) + seq![Instr::End]
}

/// What a compilation step guarantees: the state stays well formed, the
/// step succeeds exactly when the code is supported and its closures fit in
/// the table, and then it appended exactly the generated code and closures.
pub open spec fn outcome<'a>(
    pre: Fungen<'a>,
    post: Fungen<'a>,
    r: Result<(), BuildError>,
    g: (bool, Seq<Instr>, Seq<MakeClosure>),
) -> bool {
    &&& post.wf()
    &&& post.layout() == pre.layout()
    &&& (r is Ok <==> g.0 && pre.table_index + g.2.len() <= TABLE_MAX)
    &&& (r matches Err(BuildError::Unsupported) ==> !g.0)
    &&& (r matches Err(BuildError::TooManyClosures) ==> pre.table_index + g.2.len() > TABLE_MAX)
    &&& (r is Err ==> r matches Err(BuildError::Unsupported) || r matches Err(BuildError::TooManyClosures))
    &&& (r is Ok ==> post.instrs@ == pre.instrs@ + g.1 && post.discovered() == pre.discovered() + g.2
        && post.table_index == pre.table_index + g.2.len())
}


} // verus!
