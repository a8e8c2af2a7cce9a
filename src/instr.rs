use vstd::prelude::*;

verus! {

/// The target instructions that the code generator emits.
#[derive(Clone, Copy, Debug, PartialEq, Eq)]
pub enum Instr {
    I32Const(i32),
    I64Const(i64),
    /// Direct call of the function with this global index.
    Call(u32),
    /// Indirect call through a table: signature index, table index.
    CallIndirect(u32, u8),
    /// Opens a block without result.
    Block,
    /// Opens a two-armed conditional without result.
    If,
    Else,
    End,
    Br(u32),
    /// Table jump whose entries are the labels `0 .. n` (the first field is
    /// `n`), with the second field as its default label.
    BrTable(u32, u32),
}

#[derive(Clone, Copy, Debug, PartialEq, Eq)]
pub enum ValType {
    I32,
    I64,
    F32,
    F64,
}

/// A function signature.
#[derive(Clone, Debug)]
pub struct Signature {
    pub params: Vec<ValType>,
    pub results: Vec<ValType>,
}

/// The primitives of the runtime module that generated code calls.
#[derive(Clone, Copy, Debug, PartialEq, Eq)]
pub enum RtFn {
    Load,
    AllocI64,
    AllocI32,
    AllocClosure,
    SetVar,
    PrepAppClosure,
    PushParam,
    Add,
    Sub,
    Mul,
    Div,
    Equals,
    NotEq,
    Less,
    LessEq,
    Greater,
    GreaterEq,
    DerefI32,
    GetRank,
    LoadPayload,
    AllocVariant,
    AllocVariant0,
    Error,
    Ret,
}

/// Number of runtime primitives the code generator calls.
pub const NUM_RT_FNS: usize = 24;

/// The name under which the runtime module exports a primitive.
pub open spec fn rt_name(f: RtFn) -> Seq<char> {
    match f {
        RtFn::Load => "load"@,
        RtFn::AllocI64 => "alloc_i64"@,
        RtFn::AllocI32 => "alloc_i32"@,
        RtFn::AllocClosure => "alloc_closure"@,
        RtFn::SetVar => "set_var"@,
        RtFn::PrepAppClosure => "prep_app_closure"@,
        RtFn::PushParam => "push_param"@,
        RtFn::Add => "add"@,
        RtFn::Sub => "sub"@,
        RtFn::Mul => "mul"@,
        RtFn::Div => "div"@,
        RtFn::Equals => "equals"@,
        RtFn::NotEq => "not_eq"@,
        RtFn::Less => "less"@,
        RtFn::LessEq => "less_eq"@,
        RtFn::Greater => "greater"@,
        RtFn::GreaterEq => "greater_eq"@,
        RtFn::DerefI32 => "deref_i32"@,
        RtFn::GetRank => "get_rank"@,
        RtFn::LoadPayload => "load_payload"@,
        RtFn::AllocVariant => "alloc_variant"@,
        RtFn::AllocVariant0 => "alloc_variant_0"@,
        RtFn::Error => "error"@,
        RtFn::Ret => "ret"@,
    }
}

/// Position of a primitive in the enumeration order of `RtFn::nth`.
pub open spec fn rt_pos(f: RtFn) -> int {
    match f {
        RtFn::Load => 0,
        RtFn::AllocI64 => 1,
        RtFn::AllocI32 => 2,
        RtFn::AllocClosure => 3,
        RtFn::SetVar => 4,
        RtFn::PrepAppClosure => 5,
        RtFn::PushParam => 6,
        RtFn::Add => 7,
        RtFn::Sub => 8,
        RtFn::Mul => 9,
        RtFn::Div => 10,
        RtFn::Equals => 11,
        RtFn::NotEq => 12,
        RtFn::Less => 13,
        RtFn::LessEq => 14,
        RtFn::Greater => 15,
        RtFn::GreaterEq => 16,
        RtFn::DerefI32 => 17,
        RtFn::GetRank => 18,
        RtFn::LoadPayload => 19,
        RtFn::AllocVariant => 20,
        RtFn::AllocVariant0 => 21,
        RtFn::Error => 22,
        RtFn::Ret => 23,
    }
}

/// The runtime primitive that implements a binary operator.
pub open spec fn op_fn(op: crate::ir::OpCode) -> RtFn {
    match op {
        crate::ir::OpCode::Add => RtFn::Add,
        crate::ir::OpCode::Sub => RtFn::Sub,
        crate::ir::OpCode::Mul => RtFn::Mul,
        crate::ir::OpCode::Div => RtFn::Div,
        crate::ir::OpCode::Equals => RtFn::Equals,
        crate::ir::OpCode::NotEq => RtFn::NotEq,
        crate::ir::OpCode::Less => RtFn::Less,
        crate::ir::OpCode::LessEq => RtFn::LessEq,
        crate::ir::OpCode::Greater => RtFn::Greater,
        crate::ir::OpCode::GreaterEq => RtFn::GreaterEq,
    }
}

impl RtFn {
    /// The runtime primitive for a binary operator.
    pub fn for_op(op: crate::ir::OpCode) -> (r: RtFn)
        ensures
            r == op_fn(op),
    {
        match op {
            crate::ir::OpCode::Add => RtFn::Add,
            crate::ir::OpCode::Sub => RtFn::Sub,
            crate::ir::OpCode::Mul => RtFn::Mul,
            crate::ir::OpCode::Div => RtFn::Div,
            crate::ir::OpCode::Equals => RtFn::Equals,
            crate::ir::OpCode::NotEq => RtFn::NotEq,
            crate::ir::OpCode::Less => RtFn::Less,
            crate::ir::OpCode::LessEq => RtFn::LessEq,
            crate::ir::OpCode::Greater => RtFn::Greater,
            crate::ir::OpCode::GreaterEq => RtFn::GreaterEq,
        }
    }

    /// The exported name of this primitive.
    pub fn name(&self) -> (r: &'static str)
        ensures
            r@ == rt_name(*self),
    {
        proof {
            reveal_strlit("load");
        }
        match self {
            RtFn::Load => "load",
            RtFn::AllocI64 => "alloc_i64",
            RtFn::AllocI32 => "alloc_i32",
            RtFn::AllocClosure => "alloc_closure",
            RtFn::SetVar => "set_var",
            RtFn::PrepAppClosure => "prep_app_closure",
            RtFn::PushParam => "push_param",
            RtFn::Add => "add",
            RtFn::Sub => "sub",
            RtFn::Mul => "mul",
            RtFn::Div => "div",
            RtFn::Equals => "equals",
            RtFn::NotEq => "not_eq",
            RtFn::Less => "less",
            RtFn::LessEq => "less_eq",
            RtFn::Greater => "greater",
            RtFn::GreaterEq => "greater_eq",
            RtFn::DerefI32 => "deref_i32",
            RtFn::GetRank => "get_rank",
            RtFn::LoadPayload => "load_payload",
            RtFn::AllocVariant => "alloc_variant",
            RtFn::AllocVariant0 => "alloc_variant_0",
            RtFn::Error => "error",
            RtFn::Ret => "ret",
        }
    }

    /// The primitive at position `i` of the enumeration order.
    pub fn nth(i: usize) -> (r: RtFn)
        requires
            i < NUM_RT_FNS,
        ensures
            rt_pos(r) == i,
    {
        if i == 0 { RtFn::Load }
        else if i == 1 { RtFn::AllocI64 }
        else if i == 2 { RtFn::AllocI32 }
        else if i == 3 { RtFn::AllocClosure }
        else if i == 4 { RtFn::SetVar }
        else if i == 5 { RtFn::PrepAppClosure }
        else if i == 6 { RtFn::PushParam }
        else if i == 7 { RtFn::Add }
        else if i == 8 { RtFn::Sub }
        else if i == 9 { RtFn::Mul }
        else if i == 10 { RtFn::Div }
        else if i == 11 { RtFn::Equals }
        else if i == 12 { RtFn::NotEq }
        else if i == 13 { RtFn::Less }
        else if i == 14 { RtFn::LessEq }
        else if i == 15 { RtFn::Greater }
        else if i == 16 { RtFn::GreaterEq }
        else if i == 17 { RtFn::DerefI32 }
        else if i == 18 { RtFn::GetRank }
        else if i == 19 { RtFn::LoadPayload }
        else if i == 20 { RtFn::AllocVariant }
        else if i == 21 { RtFn::AllocVariant0 }
        else if i == 22 { RtFn::Error }
        else { RtFn::Ret }
    }
}

/// Two primitives at the same position are the same primitive.
pub proof fn lemma_rt_pos_injective(f: RtFn, g: RtFn)
    requires
        rt_pos(f) == rt_pos(g),
    ensures
        f == g,
{
}

} // verus!
