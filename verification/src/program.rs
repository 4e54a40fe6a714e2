//! Modules of the tiered intermediate representation: functions, blocks,
//! classes, structures, globals and constants.
use vstd::prelude::*;
use crate::instruction::GaiaInstruction;
use crate::types::{GaiaSignature, GaiaType};

verus! {

/// A program module.
#[derive(Debug, PartialEq)]
pub struct GaiaModule {
    pub name: String,
    pub functions: Vec<GaiaFunction>,
    pub structs: Vec<GaiaStruct>,
    pub classes: Vec<GaiaClass>,
    pub constants: Vec<(String, GaiaConstant)>,
    pub globals: Vec<GaiaGlobal>,
    pub imports: Vec<GaiaImport>,
}

/// An imported symbol of a library.
#[derive(Debug, PartialEq, Eq, Hash)]
pub struct GaiaImport {
    pub library: String,
    pub symbol: String,
}

/// A class of a managed runtime.
#[derive(Debug, PartialEq)]
pub struct GaiaClass {
    pub name: String,
    pub parent: Option<String>,
    pub interfaces: Vec<String>,
    pub fields: Vec<GaiaField>,
    pub methods: Vec<GaiaFunction>,
    pub attributes: Vec<String>,
}

/// A field of a class.
#[derive(Debug, PartialEq, Eq, Hash)]
pub struct GaiaField {
    pub name: String,
    pub ty: GaiaType,
    pub is_static: bool,
    pub visibility: Visibility,
}

/// Visibility of a member.
#[derive(Debug, Clone, Copy, PartialEq, Eq, Structural, Hash)]
pub enum Visibility {
    Public,
    Private,
    Protected,
    Internal,
}

/// A function: name, signature and basic blocks.
#[derive(Debug, PartialEq)]
pub struct GaiaFunction {
    pub name: String,
    pub signature: GaiaSignature,
    pub blocks: Vec<GaiaBlock>,
    pub is_external: bool,
}

/// A basic block: label, instructions and terminator.
#[derive(Debug, PartialEq)]
pub struct GaiaBlock {
    pub label: String,
    pub instructions: Vec<GaiaInstruction>,
    pub terminator: GaiaTerminator,
}

/// How a basic block ends.
#[derive(Debug, PartialEq)]
pub enum GaiaTerminator {
    /// Jump to a label.
    Jump(String),
    /// Conditional branch (true label, false label).
    Branch { true_label: String, false_label: String },
    /// Return from the function.
    Return,
    /// Call, then jump to the next block.
    Call { callee: String, args_count: usize, next_block: String },
    /// Stop the program.
    Halt,
}

/// A structure: name and typed fields.
#[derive(Debug, PartialEq, Eq, Hash)]
pub struct GaiaStruct {
    pub name: String,
    pub fields: Vec<(String, GaiaType)>,
}

/// A global variable.
#[derive(Debug, PartialEq)]
pub struct GaiaGlobal {
    pub name: String,
    pub ty: GaiaType,
    pub initial_value: Option<GaiaConstant>,
}

/// A constant. Floating-point constants carry their IEEE-754 bits and the
/// text `to_string` gives them.
#[derive(Debug, PartialEq)]
pub enum GaiaConstant {
    Bool(bool),
    I8(i8),
    U8(u8),
    I16(i16),
    U16(u16),
    I32(i32),
    U32(u32),
    I64(i64),
    U64(u64),
    F32 { bits: u32, text: String },
    F64 { bits: u64, text: String },
    String(String),
    /// Raw binary data (weights, constant arrays).
    Blob(Vec<u8>),
    /// Constant array.
    Array(Vec<GaiaConstant>),
    /// Null value or reference.
    Null,
}

} // verus!
