use vstd::prelude::*;
use crate::codegen::{BuildError, Fungen, fun_code};
use crate::instr::{Instr, RtFn, Signature, NUM_RT_FNS, rt_name, rt_pos, lemma_rt_pos_injective};
use crate::ir::{FuncDecl, MakeClosure, Module};
use crate::names::{name_map, names_new, names_insert, names_get};
use crate::spec_code::{
    Layout, TABLE_MAX, ATOM_MAX, gen_expr_spec, wf_expr, wf_closure, count_expr, sup_expr, weight, all_sup,
    lemma_gen_bindings_count, lemma_weight_concat, lemma_all_sup_concat,
};

verus! {

broadcast use vstd::std_specs::vec::group_vec_axioms;

/// Largest number of runtime exports and of top-level declarations, so that
/// every function index of the output fits in a `u32`.
pub const DECL_MAX: usize = 0x3fff_ffff;

/// One export of the runtime module: its name and, when it is a function,
/// that function's index in the runtime's function index space.
pub struct RuntimeExport {
    pub field: String,
    pub func: Option<u32>,
}

/// What code generation reads of the runtime module: its type signatures,
/// the signature index of each function it defines, the number of functions
/// it imports itself, and its exports.
pub struct RuntimeInfo {
    pub types: Vec<Signature>,
    pub func_types: Vec<u32>,
    pub func_import_count: u32,
    pub exports: Vec<RuntimeExport>,
}

/// A function imported from the runtime module under its exported name.
pub struct Import {
    pub field: String,
    pub type_ref: u32,
}

/// An exported function of the output module.
pub struct Export {
    pub field: String,
    pub func: u32,
}

/// The output module: signatures, the signature of indirect calls, imports
/// from the runtime, function bodies (top-level functions first, then
/// closures), exports, and the indirect-call table.
pub struct WasmModule {
    pub types: Vec<Signature>,
    pub proc_sig: u32,
    pub imports: Vec<Import>,
    pub functions: Vec<Vec<Instr>>,
    pub exports: Vec<Export>,
    pub table: Vec<u32>,
}

/// The function exports among `s`, in order: name and function index.
pub open spec fn fn_exports(s: Seq<RuntimeExport>) -> Seq<(Seq<char>, u32)>
    decreases s.len(),
{
    if s.len() == 0 {
        seq![]
    } else {
        let p = fn_exports(s.drop_last());
        match s.last().func {
            Some(idx) => p.push((s.last().field@, idx)),
            None => p,
        }
    }
}

/// Each name mapped to the position of its last occurrence.
pub open spec fn import_names(s: Seq<(Seq<char>, u32)>) -> Map<Seq<char>, u32>
    decreases s.len(),
{
    if s.len() == 0 {
        Map::empty()
    } else {
        import_names(s.drop_last()).insert(s.last().0, (s.len() - 1) as u32)
    }
}

/// A function export refers to a function that the runtime module defines.
pub open spec fn export_in_range(rt: RuntimeInfo, idx: u32) -> bool {
    rt.func_import_count <= idx && idx - rt.func_import_count < rt.func_types@.len()
}

/// Every function export refers to a function the runtime module defines.
pub open spec fn exports_in_range(rt: RuntimeInfo) -> bool {
    forall|i: int| 0 <= i < fn_exports(rt.exports@).len()
        ==> export_in_range(rt, (#[trigger] fn_exports(rt.exports@)[i]).1)
}

/// Every primitive the generator calls is exported by the runtime module.
pub open spec fn provides_all(rt: RuntimeInfo) -> bool {
    forall|f: RtFn| #[trigger] import_names(fn_exports(rt.exports@)).contains_key(rt_name(f))
}

/// Imports and name table of the runtime functions.
pub struct Linked {
    pub imports: Vec<Import>,
    pub names: im::HashMap<String, u32>,
}

/// Imports every function that the runtime module exports, in export order,
/// and maps each exported name to its import index.
pub fn link_runtime(rt: &RuntimeInfo) -> (r: Result<Linked, BuildError>)
    requires
        rt.exports@.len() <= DECL_MAX,
    ensures
        r is Ok <==> exports_in_range(*rt),
        r is Err ==> r matches Err(BuildError::BadRuntimeExport(_)),
        r is Ok ==> ({
            let fe = fn_exports(rt.exports@);
            let lk = r->Ok_0;
            &&& lk.imports@.len() == fe.len()
            &&& forall|i: int| 0 <= i < fe.len() ==> (#[trigger] lk.imports@[i]).field@ == fe[i].0
                && lk.imports@[i].type_ref == rt.func_types@[fe[i].1 - rt.func_import_count]
            &&& name_map(lk.names) == import_names(fe)
        }),
{
    let mut imports: Vec<Import> = Vec::new();
    let mut names = names_new();
    let n = rt.exports.len();
    let mut i: usize = 0;
    while i < n
        invariant
            n == rt.exports@.len(),
            n <= DECL_MAX,
            i <= n,
            ({
                let fe = fn_exports(rt.exports@.take(i as int));
                &&& imports@.len() == fe.len()
                &&& fe.len() <= i
                &&& forall|j: int| 0 <= j < fe.len() ==> export_in_range(*rt, (#[trigger] fe[j]).1)
                &&& forall|j: int| 0 <= j < fe.len() ==> (#[trigger] imports@[j]).field@ == fe[j].0
                    && imports@[j].type_ref == rt.func_types@[fe[j].1 - rt.func_import_count]
                &&& name_map(names) == import_names(fe)
            }),
        decreases n - i,
    {
        let ghost fe0 = fn_exports(rt.exports@.take(i as int));
        assert(rt.exports@.take(i + 1).drop_last() =~= rt.exports@.take(i as int));
        let export = &rt.exports[i];
        match export.func {
            Some(idx) => {
                if idx < rt.func_import_count || (idx - rt.func_import_count) as usize >= rt.func_types.len() {
                    proof {
                        lemma_fn_exports_prefix(rt.exports@, i + 1, n as int);
                        assert(rt.exports@.take(n as int) =~= rt.exports@);
                        assert(rt.exports@.take(i + 1).last() == *export);
                        let k = fe0.len() as int;
                        assert(fn_exports(rt.exports@.take(i + 1))[k] == (export.field@, idx));
                        assert(fn_exports(rt.exports@)[k] == (export.field@, idx));
                    }
                    return Err(BuildError::BadRuntimeExport(export.field.clone()));
                }
                let type_ref = rt.func_types[(idx - rt.func_import_count) as usize];
                let slot = imports.len() as u32;
                imports.push(Import { field: export.field.clone(), type_ref });
                names_insert(&mut names, export.field.clone(), slot);
            },
            None => {},
        }
        i = i + 1;
        proof {
            let fe = fn_exports(rt.exports@.take(i as int));
            assert(rt.exports@.take(i as int).last() == *export);
            match export.func {
                Some(idx) => {
                    assert(fe == fe0.push((export.field@, idx)));
                    assert(fe0.push((export.field@, idx)).drop_last() =~= fe0);
                    assert(import_names(fe) == import_names(fe0).insert(export.field@, fe0.len() as u32));
                },
                None => {
                    assert(fe == fe0);
                },
            }
            assert forall|j: int| 0 <= j < fe.len() implies export_in_range(*rt, (#[trigger] fe[j]).1) by {
                if j < fe0.len() {
                    assert(fe[j] == fe0[j]);
                }
            }
        }
    }
    assert(rt.exports@.take(n as int) =~= rt.exports@);
    Ok(Linked { imports, names })
}

/// The function exports of a prefix are a prefix of the function exports.
pub proof fn lemma_fn_exports_prefix(s: Seq<RuntimeExport>, i: int, n: int)
    requires
        0 <= i <= n <= s.len(),
    ensures
        fn_exports(s.take(i)).len() <= fn_exports(s.take(n)).len(),
        forall|j: int| 0 <= j < fn_exports(s.take(i)).len()
            ==> #[trigger] fn_exports(s.take(n))[j] == fn_exports(s.take(i))[j],
    decreases n - i,
{
    if i < n {
        lemma_fn_exports_prefix(s, i, n - 1);
        assert(s.take(n).drop_last() =~= s.take(n - 1));
    }
}

/// `p` is the index of the first signature without parameters and results,
/// or the number of signatures when there is none.
pub open spec fn is_proc_sig(types: Seq<Signature>, p: int) -> bool {
    &&& 0 <= p <= types.len()
    &&& p < types.len() ==> types[p].params@.len() == 0 && types[p].results@.len() == 0
    &&& forall|j: int| 0 <= j < p ==> !((#[trigger] types[j]).params@.len() == 0 && types[j].results@.len() == 0)
}

/// The closures discovered while compiling the first `i` declarations.
pub open spec fn decl_disc(l: Layout, decls: Seq<FuncDecl>, i: int) -> Seq<MakeClosure>
    decreases i,
{
    if i <= 0 || i > decls.len() {
        seq![]
    } else {
        let d = decl_disc(l, decls, i - 1);
        d + gen_expr_spec(l, decls[i - 1].body, d.len() as int).2
    }
}

/// The closure-table index at which the closures of declaration `i` start.
pub open spec fn decl_tbl(l: Layout, decls: Seq<FuncDecl>, i: int) -> int {
    decl_disc(l, decls, i).len() as int
}

/// The number of closure literals in the first `i` declarations, at any
/// depth, closure bodies included.
pub open spec fn decls_count(decls: Seq<FuncDecl>, i: int) -> nat
    decreases i,
{
    if i <= 0 || i > decls.len() {
        0
    } else {
        decls_count(decls, i - 1) + count_expr(decls[i - 1].body)
    }
}

/// The number of closure literals of a program: the size of its table.
pub open spec fn closure_count(decls: Seq<FuncDecl>) -> nat {
    decls_count(decls, decls.len() as int)
}

/// No declaration holds a record construction or projection, at any depth.
pub open spec fn decls_sup(decls: Seq<FuncDecl>) -> bool {
    forall|i: int| 0 <= i < decls.len() ==> sup_expr(#[trigger] decls[i].body)
}

pub proof fn lemma_decls_count_mono(decls: Seq<FuncDecl>, i: int, j: int)
    requires
        0 <= i <= j <= decls.len(),
    ensures
        decls_count(decls, i) <= decls_count(decls, j),
    decreases j,
{
    if i < j {
        lemma_decls_count_mono(decls, i, j - 1);
    }
}

/// Splits off the first closure of a sequence.
pub proof fn lemma_weight_first(s: Seq<MakeClosure>)
    requires
        s.len() > 0,
    ensures
        weight(s) == count_expr(s[0].body) + weight(s.subrange(1, s.len() as int)),
        all_sup(s) <==> sup_expr(s[0].body) && all_sup(s.subrange(1, s.len() as int)),
{
    let h = seq![s[0]];
    let t = s.subrange(1, s.len() as int);
    assert(s =~= h + t);
    lemma_weight_concat(h, t);
    assert(h.drop_last() =~= Seq::<MakeClosure>::empty());
    assert(weight(Seq::<MakeClosure>::empty()) == 0);
    assert(weight(h) == count_expr(s[0].body));
    if sup_expr(s[0].body) && all_sup(t) {
        assert forall|i: int| 0 <= i < s.len() implies sup_expr(#[trigger] s[i].body) by {
            if i > 0 {
                assert(s[i] == t[i - 1]);
            }
        }
    }
    if all_sup(s) {
        assert forall|i: int| 0 <= i < t.len() implies sup_expr(#[trigger] t[i].body) by {
            assert(t[i] == s[i + 1]);
        }
    }
}

/// The number of argument slots of a lifted closure: its parameters, then
/// its captures.
pub open spec fn closure_nargs(mc: MakeClosure) -> int {
    (mc.params@.len() + mc.captured@.len()) as int
}

/// The table index at which the closures found in the body of closure `j` of
/// `d` start, when the closures found in declarations number `t0`.
pub open spec fn cl_start(l: Layout, d: Seq<MakeClosure>, t0: int, j: int) -> int
    decreases j,
{
    if j <= 0 {
        t0
    } else {
        let s = cl_start(l, d, t0, j - 1);
        s + gen_expr_spec(l, d[j - 1].body, s).2.len()
    }
}

/// Closure `j` of `d` compiled to function `nd + j` of `fs`, and the closures
/// found in its body are those that follow in `d` from its start index.
pub open spec fn closure_ok(l: Layout, d: Seq<MakeClosure>, t0: int, fs: Seq<Vec<Instr>>, nd: int, j: int) -> bool {
    let s = cl_start(l, d, t0, j);
    let g = gen_expr_spec(l, d[j].body, s);
    &&& g.0
    &&& s > j
    &&& fs[nd + j]@ == fun_code(l, d[j].body, closure_nargs(d[j]), s)
    &&& d.subrange(s, s + g.2.len()) == g.2
}

/// `d` lists every closure of the program in table order: first those found in
/// the declarations, then for each closure in turn those found in its body,
/// until none is left; each was compiled to the function after the
/// declarations' at its table index.
pub open spec fn lifted(l: Layout, decls: Seq<FuncDecl>, d: Seq<MakeClosure>, fs: Seq<Vec<Instr>>) -> bool {
    let t0 = decl_tbl(l, decls, decls.len() as int);
    &&& t0 <= d.len()
    &&& d.take(t0) == decl_disc(l, decls, decls.len() as int)
    &&& cl_start(l, d, t0, d.len() as int) == d.len()
    &&& forall|j: int| 0 <= j < d.len() ==> #[trigger] closure_ok(l, d, t0, fs, decls.len() as int, j)
}

/// A closure literal inside the body of lifted closure `j` takes a later
/// table slot than closure `j`: it is discovered only when that body is
/// compiled, after every slot up to `j` has been handed out.
pub proof fn lemma_nested_closure_later_slot(
    l: Layout,
    decls: Seq<FuncDecl>,
    d: Seq<MakeClosure>,
    fs: Seq<Vec<Instr>>,
    j: int,
    k: int,
)
    requires
        lifted(l, decls, d, fs),
        0 <= j < d.len(),
        0 <= k < gen_expr_spec(l, d[j].body, cl_start(l, d, decl_tbl(l, decls, decls.len() as int), j)).2.len(),
    ensures
        ({
            let s = cl_start(l, d, decl_tbl(l, decls, decls.len() as int), j);
            &&& s + k > j
            &&& s + k < d.len()
            &&& d[s + k] == gen_expr_spec(l, d[j].body, s).2[k]
        }),
{
    let t0 = decl_tbl(l, decls, decls.len() as int);
    assert(closure_ok(l, d, t0, fs, decls.len() as int, j));
    let s = cl_start(l, d, t0, j);
    let g = gen_expr_spec(l, d[j].body, s);
    lemma_cl_start_mono(l, d, t0, j + 1, d.len() as int);
    assert(cl_start(l, d, t0, j + 1) == s + g.2.len());
    assert(d.subrange(s, s + g.2.len())[k] == d[s + k]);
}

/// `cl_start` up to `j` reads only the first `j` closures.
pub proof fn lemma_cl_start_ext(l: Layout, d: Seq<MakeClosure>, d2: Seq<MakeClosure>, t0: int, j: int)
    requires
        0 <= j <= d.len() <= d2.len(),
        d2.take(d.len() as int) == d,
    ensures
        cl_start(l, d, t0, j) == cl_start(l, d2, t0, j),
    decreases j,
{
    if j > 0 {
        lemma_cl_start_ext(l, d, d2, t0, j - 1);
        assert(d2[j - 1] == d2.take(d.len() as int)[j - 1]);
    }
}

pub proof fn lemma_cl_start_mono(l: Layout, d: Seq<MakeClosure>, t0: int, i: int, j: int)
    requires
        0 <= i <= j,
    ensures
        cl_start(l, d, t0, i) <= cl_start(l, d, t0, j),
    decreases j,
{
    if i < j {
        lemma_cl_start_mono(l, d, t0, i, j - 1);
    }
}

/// The `j`-th compiled function is the code of the `j`-th declaration.
pub open spec fn decl_code_ok(l: Layout, decls: Seq<FuncDecl>, fs: Seq<Vec<Instr>>, j: int) -> bool {
    &&& gen_expr_spec(l, decls[j].body, decl_tbl(l, decls, j)).0
    &&& fs[j]@ == fun_code(l, decls[j].body, decls[j].params@.len() as int, decl_tbl(l, decls, j))
}

pub proof fn lemma_fn_exports_len(s: Seq<RuntimeExport>)
    ensures
        fn_exports(s).len() <= s.len(),
    decreases s.len(),
{
    if s.len() > 0 {
        lemma_fn_exports_len(s.drop_last());
    }
}

/// Finds the signature used for indirect calls: the first one without
/// parameters and results, added at the end when there is none.
fn find_proc_sig(types: &mut Vec<Signature>) -> (p: u32)
    requires
        old(types)@.len() < DECL_MAX,
    ensures
        is_proc_sig(old(types)@, p as int),
        p < final(types)@.len(),
        final(types)@.len() == old(types)@.len() + (if p < old(types)@.len() { 0int } else { 1int }),
        final(types)@.take(old(types)@.len() as int) == old(types)@,
        final(types)@[p as int].params@.len() == 0,
        final(types)@[p as int].results@.len() == 0,
{
    let n = types.len();
    let mut i: usize = 0;
    while i < n
        invariant
            n == types@.len(),
            n < DECL_MAX,
            types@ == old(types)@,
            i <= n,
            forall|j: int| 0 <= j < i ==> !((#[trigger] types@[j]).params@.len() == 0 && types@[j].results@.len() == 0),
        decreases n - i,
    {
        let sig = &types[i];
        assert(*sig == old(types)@[i as int]);
        if sig.params.len() == 0 && sig.results.len() == 0 {
            assert(old(types)@[i as int].params@.len() == 0);
            assert(types@.take(n as int) =~= types@);
            return i as u32;
        }
        i = i + 1;
    }
    types.push(Signature { params: Vec::new(), results: Vec::new() });
    assert(types@.take(n as int) =~= old(types)@);
    n as u32
}

/// Builds the output module: links against the runtime's exports, compiles
/// every declaration in order, then every closure in discovery order until
/// none is left, and fills the indirect-call table.
pub fn gen_module(module: &Module, rt: RuntimeInfo) -> (r: Result<WasmModule, BuildError>)
    requires
        rt.exports@.len() <= DECL_MAX,
        rt.types@.len() < DECL_MAX,
        module.func_decls@.len() <= DECL_MAX,
        forall|i: int| 0 <= i < module.func_decls@.len()
            ==> wf_expr((#[trigger] module.func_decls@[i]).body) && module.func_decls@[i].params@.len() <= ATOM_MAX,
    ensures
        !exports_in_range(rt) ==> r matches Err(BuildError::BadRuntimeExport(_)),
        exports_in_range(rt) && !provides_all(rt) ==> r matches Err(BuildError::MissingRuntimeFn(_)),
        r is Ok ==> exports_in_range(rt) && provides_all(rt),
        exports_in_range(rt) && provides_all(rt) && decls_sup(module.func_decls@)
            && closure_count(module.func_decls@) <= TABLE_MAX ==> r is Ok,
        r matches Err(BuildError::Unsupported) ==> !decls_sup(module.func_decls@),
        r matches Err(BuildError::TooManyClosures) ==> closure_count(module.func_decls@) > TABLE_MAX,
        r is Ok ==> ({
            let m = r->Ok_0;
            let fe = fn_exports(rt.exports@);
            let n = fe.len();
            let l = Layout { names: import_names(fe), n_imports: n as u32, proc_sig: m.proc_sig };
            let decls = module.func_decls@;
            &&& is_proc_sig(rt.types@, m.proc_sig as int)
            &&& m.types@.take(rt.types@.len() as int) == rt.types@
            &&& m.proc_sig < m.types@.len()
            &&& m.types@[m.proc_sig as int].params@.len() == 0 && m.types@[m.proc_sig as int].results@.len() == 0
            &&& m.imports@.len() == fe.len()
            &&& forall|i: int| 0 <= i < fe.len() ==> (#[trigger] m.imports@[i]).field@ == fe[i].0
                && m.imports@[i].type_ref == rt.func_types@[fe[i].1 - rt.func_import_count]
            &&& m.exports@.len() == decls.len()
            &&& forall|i: int| 0 <= i < decls.len() ==> (#[trigger] m.exports@[i]).field@ == decls[i].name@
                && m.exports@[i].func == n + i
            &&& m.functions@.len() == decls.len() + m.table@.len()
            &&& forall|i: int| 0 <= i < decls.len() ==> #[trigger] decl_code_ok(l, decls, m.functions@, i)
            &&& forall|j: int| 0 <= j < m.table@.len() ==> #[trigger] m.table@[j] == n + decls.len() + j
            &&& exists|d: Seq<MakeClosure>| d.len() == m.table@.len() && #[trigger] lifted(l, decls, d, m.functions@)
        }),
{
    let linked = match link_runtime(&rt) {
        Ok(lk) => lk,
        Err(e) => {
            return Err(e);
        },
    };
    let ghost fe = fn_exports(rt.exports@);
    let mut k: usize = 0;
    while k < NUM_RT_FNS
        invariant
            name_map(linked.names) == import_names(fe),
            fe == fn_exports(rt.exports@),
            exports_in_range(rt),
            k <= NUM_RT_FNS,
            forall|g: RtFn| rt_pos(g) < k ==> #[trigger] name_map(linked.names).contains_key(rt_name(g)),
        decreases NUM_RT_FNS - k,
    {
        let f = RtFn::nth(k);
        if names_get(&linked.names, f.name()).is_none() {
            return Err(BuildError::MissingRuntimeFn(f.name().to_string()));
        }
        proof {
            assert forall|g: RtFn| rt_pos(g) < k + 1 implies #[trigger] name_map(linked.names).contains_key(rt_name(g)) by {
                if rt_pos(g) == k {
                    lemma_rt_pos_injective(g, f);
                }
            }
        }
        k = k + 1;
    }
    assert(forall|g: RtFn| rt_pos(g) < NUM_RT_FNS);
    assert(provides_all(rt));
    proof {
        lemma_fn_exports_len(rt.exports@);
    }
    let n_imports = linked.imports.len() as u32;
    let mut types = rt.types;
    let proc_sig = find_proc_sig(&mut types);
    let mut fungen = Fungen {
        instrs: Vec::new(),
        runtime_funcs: linked.names,
        n_imports,
        proc_sig,
        table_index: 0,
        closures: Vec::new(),
    };
    let ghost l = fungen.layout();
    let decls = &module.func_decls;
    let nd = decls.len();
    let mut functions: Vec<Vec<Instr>> = Vec::new();
    let mut exports: Vec<Export> = Vec::new();
    let mut i: usize = 0;
    while i < nd
        invariant
            nd == decls@.len(),
            nd <= DECL_MAX,
            *decls == module.func_decls,
            i <= nd,
            forall|j: int| 0 <= j < module.func_decls@.len()
                ==> wf_expr((#[trigger] module.func_decls@[j]).body) && module.func_decls@[j].params@.len() <= ATOM_MAX,
            fungen.wf(),
            fungen.layout() == l,
            l.n_imports == n_imports,
            exports_in_range(rt),
            provides_all(rt),
            n_imports <= DECL_MAX,
            fungen.instrs@.len() == 0,
            fungen.table_index == decl_tbl(l, decls@, i as int),
            fungen.discovered() == decl_disc(l, decls@, i as int),
            fungen.table_index + weight(fungen.discovered()) == decls_count(decls@, i as int),
            decls_sup(decls@) ==> all_sup(fungen.discovered()),
            functions@.len() == i,
            exports@.len() == i,
            forall|j: int| 0 <= j < i ==> (#[trigger] exports@[j]).field@ == decls@[j].name@
                && exports@[j].func == n_imports + j,
            forall|j: int| 0 <= j < i ==> #[trigger] decl_code_ok(l, decls@, functions@, j),
        decreases nd - i,
    {
        let decl = &decls[i];
        let ghost tbl = fungen.table_index as int;
        let ghost d0 = fungen.discovered();
        let ghost g = gen_expr_spec(l, decls@[i as int].body, tbl);
        proof {
            lemma_gen_bindings_count(l, decls@[i as int].body, decls@[i as int].body.bindings@.len() as int, tbl);
            lemma_decls_count_mono(decls@, i + 1, nd as int);
        }
        let code = match fungen.gen_fun(&decl.body, decl.params.len()) {
            Ok(code) => code,
            Err(e) => {
                return Err(e);
            },
        };
        proof {
            lemma_weight_concat(d0, g.2);
            if decls_sup(decls@) {
                lemma_all_sup_concat(d0, g.2);
            }
        }
        assert(tbl == decl_tbl(l, decls@, i as int));
        assert(gen_expr_spec(l, decls@[i as int].body, tbl).0);
        assert(code@ == fun_code(l, decls@[i as int].body, decls@[i as int].params@.len() as int, tbl));
        assert(decl_tbl(l, decls@, i + 1) == tbl + gen_expr_spec(l, decls@[i as int].body, tbl).2.len());
        let ghost old_functions = functions@;
        functions.push(code);
        exports.push(Export { field: decl.name.clone(), func: n_imports + i as u32 });
        i = i + 1;
        assert forall|j: int| 0 <= j < i implies decl_code_ok(l, decls@, functions@, j) by {
            if j < i - 1 {
                assert(functions@[j] == old_functions[j]);
                assert(decl_code_ok(l, decls@, old_functions, j));
            }
        }
    }
    let ghost t0 = decl_tbl(l, decls@, nd as int);
    assert(fungen.discovered().take(t0) =~= fungen.discovered());
    assert(fungen.discovered().subrange(0, fungen.discovered().len() as int) =~= fungen.discovered());
    let mut table: Vec<u32> = Vec::new();
    let mut next: usize = 0;
    while next < fungen.closures.len()
        invariant
            fungen.wf(),
            fungen.layout() == l,
            n_imports <= DECL_MAX,
            nd <= DECL_MAX,
            exports_in_range(rt),
            provides_all(rt),
            fungen.instrs@.len() == 0,
            nd == decls@.len(),
            *decls == module.func_decls,
            next <= fungen.closures@.len(),
            t0 == decl_tbl(l, decls@, nd as int),
            t0 <= fungen.discovered().len(),
            fungen.discovered().take(t0) == decl_disc(l, decls@, nd as int),
            cl_start(l, fungen.discovered(), t0, next as int) == fungen.discovered().len(),
            fungen.table_index + weight(fungen.discovered().subrange(next as int, fungen.discovered().len() as int))
                == decls_count(decls@, nd as int),
            decls_sup(decls@) ==> all_sup(fungen.discovered().subrange(next as int, fungen.discovered().len() as int)),
            decls_count(decls@, nd as int) == closure_count(module.func_decls@),
            forall|j: int| 0 <= j < next ==> #[trigger] closure_ok(l, fungen.discovered(), t0, functions@, nd as int, j),
            table@.len() == next,
            functions@.len() == nd + next,
            forall|j: int| 0 <= j < next ==> #[trigger] table@[j] == n_imports + nd + j,
            forall|j: int| 0 <= j < nd ==> #[trigger] decl_code_ok(l, decls@, functions@, j),
        decreases TABLE_MAX - next,
    {
        let ghost d0 = fungen.discovered();
        let (table_index, mc) = fungen.closures[next];
        assert(wf_closure(*fungen.closures@[next as int].1));
        assert(*mc == d0[next as int]);
        let ghost pend = d0.subrange(next as int, d0.len() as int);
        let ghost g = gen_expr_spec(l, d0[next as int].body, d0.len() as int);
        proof {
            lemma_weight_first(pend);
            assert(pend[0] == d0[next as int]);
            lemma_gen_bindings_count(l, d0[next as int].body, d0[next as int].body.bindings@.len() as int, d0.len() as int);
        }
        let code = match fungen.gen_fun(&mc.body, mc.params.len() + mc.captured.len()) {
            Ok(code) => code,
            Err(e) => {
                return Err(e);
            },
        };
        proof {
            let d1 = fungen.discovered();
            let rest = d0.subrange(next + 1, d0.len() as int);
            assert(pend.subrange(1, pend.len() as int) =~= rest);
            assert(d1.subrange(next + 1, d1.len() as int) =~= rest + g.2);
            lemma_weight_concat(rest, g.2);
            if decls_sup(decls@) {
                lemma_all_sup_concat(rest, g.2);
            }
        }
        let ghost old_functions = functions@;
        functions.push(code);
        table.push(n_imports + nd as u32 + next as u32);
        assert forall|j: int| 0 <= j < nd implies decl_code_ok(l, decls@, functions@, j) by {
            assert(functions@[j] == old_functions[j]);
            assert(decl_code_ok(l, decls@, old_functions, j));
        }
        proof {
            let d1 = fungen.discovered();
            let g = gen_expr_spec(l, d0[next as int].body, d0.len() as int);
            assert(d1 == d0 + g.2);
            assert(d1.take(d0.len() as int) =~= d0);
            lemma_cl_start_ext(l, d0, d1, t0, next as int);
            assert(d1[next as int] == d0[next as int]);
            assert(cl_start(l, d1, t0, next + 1) == d1.len());
            assert(d1.subrange(d0.len() as int, d1.len() as int) =~= g.2);
            assert(closure_ok(l, d1, t0, functions@, nd as int, next as int));
            assert forall|j: int| 0 <= j < next + 1 implies #[trigger] closure_ok(l, d1, t0, functions@, nd as int, j) by {
                if j < next {
                    assert(closure_ok(l, d0, t0, old_functions, nd as int, j));
                    lemma_cl_start_ext(l, d0, d1, t0, j);
                    lemma_cl_start_ext(l, d0, d1, t0, j + 1);
                    lemma_cl_start_mono(l, d0, t0, j + 1, next as int);
                    assert(d1[j] == d0[j]);
                    assert(functions@[nd + j] == old_functions[nd + j]);
                    let s0 = cl_start(l, d0, t0, j);
                    let gj = gen_expr_spec(l, d0[j].body, s0);
                    lemma_cl_start_mono(l, d0, t0, 0, j);
                    assert(cl_start(l, d0, t0, j + 1) == s0 + gj.2.len());
                    assert(d1.subrange(s0, s0 + gj.2.len()) =~= d0.subrange(s0, s0 + gj.2.len()));
                }
            }
            assert(d1.take(t0) =~= d0.take(t0));
        }
        next = next + 1;
    }
    assert(l == Layout { names: import_names(fe), n_imports: fe.len() as u32, proc_sig });
    assert(lifted(l, decls@, fungen.discovered(), functions@));
    assert(fungen.discovered().len() == table@.len());
    assert(*decls == module.func_decls);
    let ghost d = fungen.discovered();
    let result = WasmModule { types, proc_sig, imports: linked.imports, functions, exports, table };
    proof {
        let lr = Layout { names: import_names(fe), n_imports: fe.len() as u32, proc_sig: result.proc_sig };
        assert(lr == l);
        assert(lifted(lr, module.func_decls@, d, result.functions@));
        assert(d.len() == result.table@.len());
    }
    Ok(result)
}

} // verus!
