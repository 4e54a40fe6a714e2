//! Instructions of the tiered intermediate representation: core (tier 0),
//! managed-runtime (tier 1) and domain-specific (tier 2).
use vstd::prelude::*;
use crate::program::GaiaConstant;
use crate::types::{GaiaSignature, GaiaType};

verus! {

/// An instruction of one of the three tiers.
#[derive(Debug, PartialEq)]
pub enum GaiaInstruction {
    /// Low-level instruction (tier 0).
    Core(CoreInstruction),
    /// Managed-runtime instruction (tier 1).
    Managed(ManagedInstruction),
    /// Domain-specific instruction (tier 2).
    Domain(DomainInstruction),
}

/// Tier 0: low-level, stack-based instructions.
#[derive(Debug, PartialEq)]
pub enum CoreInstruction {
    /// Stack allocation of a count of values of a type.
    Alloca(GaiaType, usize),
    /// Load through a pointer.
    Load(GaiaType),
    /// Store through a pointer.
    Store(GaiaType),
    /// Element address computation.
    Gep { base_type: GaiaType, indices: Vec<usize> },
    Add(GaiaType),
    Sub(GaiaType),
    Mul(GaiaType),
    Div(GaiaType),
    Rem(GaiaType),
    And(GaiaType),
    Or(GaiaType),
    Xor(GaiaType),
    Shl(GaiaType),
    Shr(GaiaType),
    Neg(GaiaType),
    Not(GaiaType),
    /// Comparison.
    Cmp(CmpCondition, GaiaType),
    /// Conversion.
    Cast { from: GaiaType, to: GaiaType, kind: CastKind },
    PushConstant(GaiaConstant),
    Pop,
    Dup,
    /// Load of a local variable.
    LoadLocal(u32, GaiaType),
    /// Store to a local variable.
    StoreLocal(u32, GaiaType),
    /// Load of an argument.
    LoadArg(u32, GaiaType),
    /// Store to an argument.
    StoreArg(u32, GaiaType),
    Ret,
    /// Unconditional branch.
    Br(String),
    /// Branch when true.
    BrTrue(String),
    /// Branch when false.
    BrFalse(String),
    Label(String),
    /// Call of a function by name with an argument count.
    Call(String, usize),
    /// Indirect call with an argument count.
    CallIndirect(usize),
    /// New object of a type name.
    New(String),
    /// New array of an element type (length on the stack or not).
    NewArray(GaiaType, bool),
    /// Field load (type name, field name).
    LoadField(String, String),
    /// Field store (type name, field name).
    StoreField(String, String),
    LoadElement(GaiaType),
    StoreElement(GaiaType),
    ArrayLength,
    ArrayPush,
    /// New GC structure.
    StructNew(String),
    StructGet { struct_name: String, field_index: u32, is_signed: bool },
    StructSet { struct_name: String, field_index: u32 },
    /// New GC array.
    ArrayNew(String),
    ArrayGet { array_name: String, is_signed: bool },
    ArraySet(String),
}

/// Comparison conditions.
#[derive(Debug, Clone, Copy, PartialEq, Eq, Structural)]
pub enum CmpCondition {
    Eq,
    Ne,
    Lt,
    Le,
    Gt,
    Ge,
}

/// Kinds of conversion.
#[derive(Debug, Clone, Copy, PartialEq, Eq, Structural)]
pub enum CastKind {
    Bitcast,
    Trunc,
    Zext,
    Sext,
    FpToUi,
    FpToSi,
    UiToFp,
    SiToFp,
}

/// Tier 1: managed-runtime instructions.
#[derive(Debug, PartialEq)]
pub enum ManagedInstruction {
    /// Method call (object type, method, signature, virtual or not, call-site id).
    CallMethod {
        target: String,
        method: String,
        signature: GaiaSignature,
        is_virtual: bool,
        call_site_id: Option<u32>,
    },
    /// Static method call.
    CallStatic { target: String, method: String, signature: GaiaSignature },
    Box(GaiaType),
    Unbox(GaiaType),
    InstanceOf(GaiaType),
    CheckCast(GaiaType),
    /// Object initialisation with an argument count.
    Initiate(usize),
    Finalize,
}

/// A neural-network operator, by name.
#[derive(Debug, PartialEq)]
pub struct NeuralNode {
    pub op: String,
}

/// Tier 2: domain-specific instructions (tensors, parallel computation).
#[derive(Debug, PartialEq)]
pub enum DomainInstruction {
    Neural(NeuralNode),
    MatMul { a_shape: Vec<usize>, b_shape: Vec<usize>, transpose_a: bool, transpose_b: bool },
    Conv2D { stride: [usize; 2], padding: [usize; 2], dilation: [usize; 2], groups: usize },
    /// Element-wise operator (type, operator name).
    ElementWise(GaiaType, String),
    GetThreadId(usize),
    GetGroupSize(usize),
    Barrier,
}

} // verus!
