//! Types of the tiered intermediate representation.
use vstd::prelude::*;

verus! {

/// Address spaces of pointers.
#[derive(Debug, Clone, Copy, PartialEq, Eq, Structural, Hash)]
pub enum AddressSpace {
    /// Generic (default) address space.
    Generic,
    /// Stack or local memory.
    Local,
    /// Global memory.
    Global,
    /// Shared memory (GPU LDS).
    Shared,
    /// Constant memory.
    Constant,
    /// Managed heap (JVM/CLR).
    Managed,
}

/// Types of the tiered representation: scalars, composites, managed and
/// domain-specific types.
#[derive(Debug, PartialEq, Eq, Hash)]
pub enum GaiaType {
    Bool,
    I8,
    U8,
    I16,
    U16,
    I32,
    U32,
    I64,
    U64,
    F16,
    F32,
    F64,
    /// Pointer to a type in an address space.
    Pointer(Box<GaiaType>, AddressSpace),
    /// Array of an element type with a length.
    Array(Box<GaiaType>, usize),
    /// Vector of an element type with a lane count.
    Vector(Box<GaiaType>, usize),
    /// Structure by name.
    Struct(String),
    /// String (managed or raw).
    String,
    /// Dynamic object (Python/JS).
    Object,
    /// Managed class (JVM/CLR).
    Class(String),
    /// Interface or trait.
    Interface(String),
    /// Dynamic (any) type.
    Any,
    /// Tensor of an element type with a shape; `-1` marks a dynamic dimension.
    Tensor(Box<GaiaType>, Vec<isize>),
    Void,
    /// Opaque type of an outside reference.
    Opaque(String),
    /// Function pointer.
    FunctionPtr(Box<GaiaSignature>),
}

/// A function signature: parameter types and return type.
#[derive(Debug, PartialEq, Eq, Hash)]
pub struct GaiaSignature {
    pub params: Vec<GaiaType>,
    pub return_type: GaiaType,
}

} // verus!
