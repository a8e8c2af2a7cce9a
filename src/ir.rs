use vstd::prelude::*;

verus! {

/// A reference to a value already on the value stack, counted backward from
/// the top of the stack at the point where the atom appears (1 is the top).
#[derive(Clone, Copy, Debug, PartialEq, Eq)]
pub struct Atom {
    pub idx: u32,
}

/// Binary operators of the source language.
#[derive(Clone, Copy, Debug, PartialEq, Eq)]
pub enum OpCode {
    Add,
    Sub,
    Mul,
    Div,
    Equals,
    NotEq,
    Less,
    LessEq,
    Greater,
    GreaterEq,
}

/// An anonymous function literal: the atoms it captures (by value, at
/// creation), its parameters, and its body.
#[derive(Debug)]
pub struct MakeClosure {
    pub captured: Vec<Atom>,
    pub params: Vec<String>,
    pub body: Expr,
}

/// One arm of a pattern match; `binder` is set when the arm binds the payload.
#[derive(Debug)]
pub struct Branch {
    pub binder: Option<String>,
    pub rhs: Expr,
}

/// The right-hand side of one binding.
#[derive(Debug)]
pub enum Bindee {
    Error(String),
    Atom(Atom),
    Num(i64),
    Bool(bool),
    MakeClosure(MakeClosure),
    AppClosure(Atom, Vec<Atom>),
    /// Direct call: index of the top-level function, its name, its arguments.
    AppFunc(u32, String, Vec<Atom>),
    BinOp(Atom, OpCode, Atom),
    If(Atom, Expr, Expr),
    Record(Vec<String>, Vec<Atom>),
    Project(Atom, u32, String),
    /// A tagged value: its rank, the constructor's name, the payload.
    Variant(u32, String, Option<Atom>),
    Match(Atom, Vec<Branch>),
}

#[derive(Debug)]
pub struct Binding {
    pub bindee: Bindee,
}

/// A sequence of bindings; its value is the value of the last one.
#[derive(Debug)]
pub struct Expr {
    pub bindings: Vec<Binding>,
}

#[derive(Debug)]
pub struct FuncDecl {
    pub name: String,
    pub params: Vec<String>,
    pub body: Expr,
}

#[derive(Debug)]
pub struct Module {
    pub func_decls: Vec<FuncDecl>,
}

} // verus!
