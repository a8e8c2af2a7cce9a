use homer_wasm::codegen::BuildError;
use homer_wasm::instr::{Instr, Signature, ValType};
use homer_wasm::ir::{Atom, Bindee, Binding, Branch, Expr, FuncDecl, MakeClosure, Module, OpCode};
use homer_wasm::module::{gen_module, link_runtime, RuntimeExport, RuntimeInfo, WasmModule};

const RT_NAMES: [&str; 28] = [
    "load", "alloc_i64", "alloc_i32", "alloc_closure", "set_var", "prep_app_closure",
    "push_param", "add", "sub", "mul", "div", "equals", "not_eq", "less", "less_eq",
    "greater", "greater_eq", "deref_i32", "get_rank", "load_payload", "alloc_variant",
    "alloc_variant_0", "error", "ret", "deref_i64", "assert_stackempty", "assert_heapempty",
    "init",
];

const N_IMPORTS: u32 = 28;
const LOAD: u32 = 0;
const ALLOC_I64: u32 = 1;
const ALLOC_I32: u32 = 2;
const ALLOC_CLOSURE: u32 = 3;
const SET_VAR: u32 = 4;
const PREP_APP_CLOSURE: u32 = 5;
const ADD: u32 = 7;
const SUB: u32 = 8;
const GET_RANK: u32 = 18;
const LOAD_PAYLOAD: u32 = 19;
const ALLOC_VARIANT_0: u32 = 21;
const RET: u32 = 23;

fn sig(params: Vec<ValType>, results: Vec<ValType>) -> Signature {
    Signature { params, results }
}

/// A runtime that imports two host functions, exports its memory first and
/// then one function per name, in the order of `names`.
fn runtime_with(names: &[&str]) -> RuntimeInfo {
    let mut exports = vec![RuntimeExport { field: "memory".to_string(), func: None }];
    for (i, n) in names.iter().enumerate() {
        exports.push(RuntimeExport { field: n.to_string(), func: Some(2 + i as u32) });
    }
    RuntimeInfo {
        types: vec![sig(vec![ValType::I32], vec![]), sig(vec![ValType::I32, ValType::I32], vec![])],
        func_types: vec![0; names.len()],
        func_import_count: 2,
        exports,
    }
}

fn runtime() -> RuntimeInfo {
    runtime_with(&RT_NAMES)
}

fn expr(bs: Vec<Bindee>) -> Expr {
    Expr { bindings: bs.into_iter().map(|b| Binding { bindee: b }).collect() }
}

fn atom(idx: u32) -> Atom {
    Atom { idx }
}

fn decl(name: &str, params: &[&str], body: Expr) -> FuncDecl {
    FuncDecl { name: name.to_string(), params: params.iter().map(|p| p.to_string()).collect(), body }
}

fn compile(decls: Vec<FuncDecl>) -> WasmModule {
    match gen_module(&Module { func_decls: decls }, runtime()) {
        Ok(m) => m,
        Err(e) => panic!("compilation failed: {:?}", e),
    }
}

#[test]
fn main_adds_two_bindings() {
    let body = expr(vec![Bindee::Num(2), Bindee::Num(3), Bindee::BinOp(atom(2), OpCode::Add, atom(1))]);
    let m = compile(vec![decl("main", &[], body)]);
    assert_eq!(
        m.functions[0],
        vec![
            Instr::I64Const(2), Instr::Call(ALLOC_I64),
            Instr::I64Const(3), Instr::Call(ALLOC_I64),
            Instr::I32Const(1), Instr::I32Const(0), Instr::Call(ADD),
            Instr::I32Const(2), Instr::Call(RET),
            Instr::End,
        ]
    );
    assert_eq!(m.exports.len(), 1);
    assert_eq!(m.exports[0].field, "main");
    assert_eq!(m.exports[0].func, N_IMPORTS);
    assert!(m.table.is_empty());
}

#[test]
fn identity_called_directly() {
    let id = decl("id", &["x"], expr(vec![Bindee::Atom(atom(1))]));
    let main = decl(
        "main",
        &[],
        expr(vec![Bindee::Num(7), Bindee::AppFunc(0, "id".to_string(), vec![atom(1)])]),
    );
    let m = compile(vec![id, main]);
    assert_eq!(
        m.functions[0],
        vec![Instr::I32Const(0), Instr::Call(LOAD), Instr::I32Const(1), Instr::Call(RET), Instr::End]
    );
    assert_eq!(
        m.functions[1],
        vec![
            Instr::I64Const(7), Instr::Call(ALLOC_I64),
            Instr::I32Const(0), Instr::Call(LOAD), Instr::Call(N_IMPORTS),
            Instr::I32Const(1), Instr::Call(RET),
            Instr::End,
        ]
    );
    assert_eq!(m.exports[1].field, "main");
    assert_eq!(m.exports[1].func, N_IMPORTS + 1);
}

#[test]
fn closure_returns_captured_value() {
    let clo = MakeClosure { captured: vec![atom(1)], params: vec![], body: expr(vec![Bindee::Atom(atom(1))]) };
    let body = expr(vec![Bindee::Num(42), Bindee::MakeClosure(clo), Bindee::AppClosure(atom(1), vec![])]);
    let m = compile(vec![decl("main", &[], body)]);
    assert_eq!(
        m.functions[0],
        vec![
            Instr::I64Const(42), Instr::Call(ALLOC_I64),
            Instr::I32Const(0), Instr::I32Const(1), Instr::Call(ALLOC_CLOSURE),
            Instr::I32Const(0), Instr::I32Const(1), Instr::Call(SET_VAR),
            Instr::I32Const(0), Instr::Call(PREP_APP_CLOSURE),
            Instr::CallIndirect(m.proc_sig, 0),
            Instr::I32Const(2), Instr::Call(RET),
            Instr::End,
        ]
    );
    // The closure body takes its one capture as an argument slot.
    assert_eq!(
        m.functions[1],
        vec![Instr::I32Const(0), Instr::Call(LOAD), Instr::I32Const(1), Instr::Call(RET), Instr::End]
    );
    assert_eq!(m.table, vec![N_IMPORTS + 1]);
}

#[test]
fn capture_is_taken_at_creation() {
    // let v = 1; let f = closure capturing v; let v2 = 2; f ()
    let clo = MakeClosure { captured: vec![atom(1)], params: vec![], body: expr(vec![Bindee::Atom(atom(1))]) };
    let body = expr(vec![
        Bindee::Num(1),
        Bindee::MakeClosure(clo),
        Bindee::Num(2),
        Bindee::AppClosure(atom(2), vec![]),
    ]);
    let m = compile(vec![decl("main", &[], body)]);
    let f = &m.functions[0];
    // The capture is copied right after the allocation, before the later binding.
    assert_eq!(&f[2..8], &[
        Instr::I32Const(0), Instr::I32Const(1), Instr::Call(ALLOC_CLOSURE),
        Instr::I32Const(0), Instr::I32Const(1), Instr::Call(SET_VAR),
    ]);
    assert_eq!(&f[8..10], &[Instr::I64Const(2), Instr::Call(ALLOC_I64)]);
}

#[test]
fn nested_closures_get_increasing_indices() {
    let inner = MakeClosure { captured: vec![], params: vec![], body: expr(vec![Bindee::Num(1)]) };
    let outer = MakeClosure {
        captured: vec![],
        params: vec!["x".to_string()],
        body: expr(vec![Bindee::MakeClosure(inner)]),
    };
    let other = MakeClosure { captured: vec![], params: vec![], body: expr(vec![Bindee::Bool(true)]) };
    let body = expr(vec![Bindee::MakeClosure(outer), Bindee::MakeClosure(other)]);
    let m = compile(vec![decl("main", &[], body)]);
    // outer = 0, other = 1 (both found in main), inner = 2 (found in outer's body).
    assert_eq!(m.functions[0][0], Instr::I32Const(0));
    assert_eq!(m.functions[0][3], Instr::I32Const(1));
    assert_eq!(
        m.functions[1],
        vec![
            Instr::I32Const(2), Instr::I32Const(0), Instr::Call(ALLOC_CLOSURE),
            Instr::I32Const(1), Instr::Call(RET),
            Instr::End,
        ]
    );
    assert_eq!(m.functions[2], vec![Instr::I32Const(1), Instr::Call(ALLOC_I32), Instr::End]);
    assert_eq!(m.functions[3], vec![Instr::I64Const(1), Instr::Call(ALLOC_I64), Instr::End]);
    assert_eq!(m.table, vec![N_IMPORTS + 1, N_IMPORTS + 2, N_IMPORTS + 3]);
}

#[test]
fn match_dispatches_through_table() {
    let b0 = Branch { binder: None, rhs: expr(vec![Bindee::Num(10)]) };
    let b1 = Branch { binder: Some("p".to_string()), rhs: expr(vec![Bindee::Atom(atom(1))]) };
    let body = expr(vec![
        Bindee::Variant(1, "Some".to_string(), None),
        Bindee::Match(atom(1), vec![b0, b1]),
    ]);
    let m = compile(vec![decl("main", &[], body)]);
    assert_eq!(
        m.functions[0],
        vec![
            Instr::I32Const(1), Instr::Call(ALLOC_VARIANT_0),
            Instr::Block, Instr::Block, Instr::Block,
            Instr::I32Const(0), Instr::Call(GET_RANK), Instr::BrTable(2, 2), Instr::End,
            Instr::I64Const(10), Instr::Call(ALLOC_I64), Instr::Br(1), Instr::End,
            Instr::I32Const(0), Instr::Call(LOAD_PAYLOAD),
            Instr::I32Const(0), Instr::Call(LOAD),
            Instr::I32Const(1), Instr::Call(RET),
            Instr::End,
            Instr::I32Const(1), Instr::Call(RET),
            Instr::End,
        ]
    );
}

#[test]
fn out_of_range_rank_falls_through() {
    // Known defect kept on record: the default label of the jump table is the
    // number of branches, which leaves every block without running a branch
    // instead of trapping.
    let b0 = Branch { binder: None, rhs: expr(vec![Bindee::Num(10)]) };
    let body = expr(vec![Bindee::Variant(5, "C".to_string(), None), Bindee::Match(atom(1), vec![b0])]);
    let m = compile(vec![decl("main", &[], body)]);
    assert!(m.functions[0].contains(&Instr::BrTable(1, 1)));
    assert!(!m.functions[0].contains(&Instr::Br(0)));
}

#[test]
fn literals_are_boxed_unchanged() {
    let m = compile(vec![
        decl("t", &[], expr(vec![Bindee::Bool(true)])),
        decl("f", &[], expr(vec![Bindee::Bool(false)])),
        decl("n", &[], expr(vec![Bindee::Num(-9_000_000_000)])),
    ]);
    assert_eq!(m.functions[0], vec![Instr::I32Const(1), Instr::Call(ALLOC_I32), Instr::End]);
    assert_eq!(m.functions[1], vec![Instr::I32Const(0), Instr::Call(ALLOC_I32), Instr::End]);
    assert_eq!(m.functions[2], vec![Instr::I64Const(-9_000_000_000), Instr::Call(ALLOC_I64), Instr::End]);
}

#[test]
fn subtraction_keeps_operand_order() {
    let body = expr(vec![Bindee::Num(10), Bindee::Num(4), Bindee::BinOp(atom(2), OpCode::Sub, atom(1))]);
    let m = compile(vec![decl("main", &[], body)]);
    assert_eq!(&m.functions[0][4..7], &[Instr::I32Const(1), Instr::I32Const(0), Instr::Call(SUB)]);
}

#[test]
fn function_collapses_its_arguments() {
    let body = expr(vec![Bindee::BinOp(atom(2), OpCode::Add, atom(1))]);
    let m = compile(vec![decl("plus", &["a", "b"], body)]);
    assert_eq!(
        m.functions[0],
        vec![
            Instr::I32Const(1), Instr::I32Const(0), Instr::Call(ADD),
            Instr::I32Const(2), Instr::Call(RET),
            Instr::End,
        ]
    );
}

#[test]
fn if_compiles_both_arms() {
    let body = expr(vec![
        Bindee::Bool(true),
        Bindee::If(atom(1), expr(vec![Bindee::Num(1)]), expr(vec![Bindee::Num(2)])),
    ]);
    let m = compile(vec![decl("main", &[], body)]);
    assert_eq!(
        m.functions[0],
        vec![
            Instr::I32Const(1), Instr::Call(ALLOC_I32),
            Instr::I32Const(0), Instr::Call(LOAD), Instr::Call(17), Instr::If,
            Instr::I64Const(1), Instr::Call(ALLOC_I64),
            Instr::Else,
            Instr::I64Const(2), Instr::Call(ALLOC_I64),
            Instr::End,
            Instr::I32Const(1), Instr::Call(RET),
            Instr::End,
        ]
    );
}

#[test]
fn record_is_unsupported() {
    let body = expr(vec![Bindee::Record(vec!["a".to_string()], vec![atom(1)])]);
    let r = gen_module(&Module { func_decls: vec![decl("main", &[], body)] }, runtime());
    assert!(matches!(r, Err(BuildError::Unsupported)));
    let body = expr(vec![Bindee::Project(atom(1), 0, "a".to_string())]);
    let r = gen_module(&Module { func_decls: vec![decl("main", &[], body)] }, runtime());
    assert!(matches!(r, Err(BuildError::Unsupported)));
}

#[test]
fn missing_runtime_function_is_a_link_error() {
    let names: Vec<&str> = RT_NAMES.iter().copied().filter(|n| *n != "get_rank").collect();
    let r = gen_module(&Module { func_decls: vec![] }, runtime_with(&names));
    assert_eq!(r.err(), Some(BuildError::MissingRuntimeFn("get_rank".to_string())));
}

#[test]
fn export_of_undefined_function_is_rejected() {
    let mut rt = runtime();
    rt.exports.push(RuntimeExport { field: "ghost".to_string(), func: Some(1000) });
    let r = gen_module(&Module { func_decls: vec![] }, rt);
    assert_eq!(r.err(), Some(BuildError::BadRuntimeExport("ghost".to_string())));
}

#[test]
fn imports_follow_function_exports() {
    let linked = match link_runtime(&runtime()) {
        Ok(l) => l,
        Err(e) => panic!("{:?}", e),
    };
    assert_eq!(linked.imports.len(), 28);
    assert_eq!(linked.imports[0].field, "load");
    assert_eq!(linked.imports[27].field, "init");
    assert_eq!(linked.names.get("ret"), Some(&RET));
    assert_eq!(linked.names.get("memory"), None);
}

#[test]
fn indirect_call_signature_is_shared() {
    // No empty signature among the runtime's: one is added.
    let m = compile(vec![]);
    assert_eq!(m.proc_sig, 2);
    assert_eq!(m.types.len(), 3);
    assert!(m.types[2].params.is_empty() && m.types[2].results.is_empty());
    // An existing empty signature is reused.
    let mut rt = runtime();
    rt.types.insert(1, sig(vec![], vec![]));
    let m = match gen_module(&Module { func_decls: vec![] }, rt) {
        Ok(m) => m,
        Err(e) => panic!("{:?}", e),
    };
    assert_eq!(m.proc_sig, 1);
    assert_eq!(m.types.len(), 3);
}

#[test]
fn application_with_arguments_offsets_each() {
    let body = expr(vec![
        Bindee::Num(1),
        Bindee::Num(2),
        Bindee::AppFunc(0, "main".to_string(), vec![atom(2), atom(1)]),
        Bindee::AppClosure(atom(3), vec![atom(2), atom(3)]),
    ]);
    let m = compile(vec![decl("main", &[], body)]);
    let f = &m.functions[0];
    assert_eq!(&f[4..9], &[
        Instr::I32Const(1), Instr::Call(LOAD), Instr::I32Const(1), Instr::Call(LOAD), Instr::Call(N_IMPORTS),
    ]);
    assert_eq!(&f[9..16], &[
        Instr::I32Const(2), Instr::Call(PREP_APP_CLOSURE),
        Instr::I32Const(1), Instr::Call(6), Instr::I32Const(3), Instr::Call(6),
        Instr::CallIndirect(m.proc_sig, 0),
    ]);
}

#[test]
fn repeated_export_name_still_counts_every_import() {
    let mut names: Vec<&str> = RT_NAMES.to_vec();
    names.push("load");
    let body = expr(vec![Bindee::AppFunc(0, "main".to_string(), vec![]), Bindee::Atom(atom(1))]);
    let m = match gen_module(&Module { func_decls: vec![decl("main", &[], body)] }, runtime_with(&names)) {
        Ok(m) => m,
        Err(e) => panic!("{:?}", e),
    };
    assert_eq!(m.imports.len(), 29);
    assert_eq!(m.exports[0].func, 29);
    // The later export of a name wins, and direct calls lie past every import.
    assert_eq!(m.functions[0][0], Instr::Call(29));
    assert_eq!(m.functions[0][2], Instr::Call(28));
}
