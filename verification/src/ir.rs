//! The flat instruction set that the import and export adapters convert
//! from and to: constants, locals, arguments, calls and stack arithmetic.
use vstd::prelude::*;

verus! {

/// A constant value of the flat instruction set.
///
/// A float is held as its IEEE-754 bits together with the text that Rust's
/// `Display` writes for it, which is what the adapters read of it.
#[derive(Debug, Clone)]
pub enum GaiaConstant {
    Integer8(i8),
    Integer16(i16),
    Integer32(i32),
    Integer64(i64),
    Float32 { bits: u32, text: String },
    Float64 { bits: u64, text: String },
    String(String),
    Boolean(bool),
    Null,
}

/// A value type of the flat instruction set.
#[derive(Debug)]
pub enum GaiaType {
    Integer8,
    Integer16,
    Integer32,
    Integer64,
    Float32,
    Float64,
    String,
    Boolean,
    Object,
    Pointer,
    Array(Box<GaiaType>),
    Custom(String),
}

/// An instruction of the flat instruction set.
#[derive(Debug, Clone)]
pub enum GaiaInstruction {
    LoadConstant(GaiaConstant),
    LoadLocal(u32),
    StoreLocal(u32),
    LoadArgument(u32),
    StoreArgument(u32),
    Call(String),
    Return,
    Add,
    Subtract,
    Multiply,
    Divide,
    Duplicate,
    Pop,
    Comment(String),
}

/// A function of the flat instruction set.
#[derive(Debug)]
pub struct GaiaFunction {
    pub name: String,
    pub parameters: Vec<GaiaType>,
    pub return_type: Option<GaiaType>,
    pub locals: Vec<GaiaType>,
    pub instructions: Vec<GaiaInstruction>,
}

/// A program of the flat instruction set.
#[derive(Debug)]
pub struct GaiaProgram {
    pub name: String,
    pub functions: Vec<GaiaFunction>,
    pub constants: Vec<(String, GaiaConstant)>,
}

/// Spec view of a constant, with text as a character sequence.
pub enum ConstView {
    Integer8(i8),
    Integer16(i16),
    Integer32(i32),
    Integer64(i64),
    Float32 { bits: u32, text: Seq<char> },
    Float64 { bits: u64, text: Seq<char> },
    String(Seq<char>),
    Boolean(bool),
    Null,
}

/// Spec view of an instruction, with text as a character sequence.
pub enum InstrView {
    LoadConstant(ConstView),
    LoadLocal(u32),
    StoreLocal(u32),
    LoadArgument(u32),
    StoreArgument(u32),
    Call(Seq<char>),
    Return,
    Add,
    Subtract,
    Multiply,
    Divide,
    Duplicate,
    Pop,
    Comment(Seq<char>),
}

impl View for GaiaConstant {
    type V = ConstView;

    open spec fn view(&self) -> ConstView {
        match self {
            GaiaConstant::Integer8(v) => ConstView::Integer8(*v),
            GaiaConstant::Integer16(v) => ConstView::Integer16(*v),
            GaiaConstant::Integer32(v) => ConstView::Integer32(*v),
            GaiaConstant::Integer64(v) => ConstView::Integer64(*v),
            GaiaConstant::Float32 { bits, text } => ConstView::Float32 { bits: *bits, text: text@ },
            GaiaConstant::Float64 { bits, text } => ConstView::Float64 { bits: *bits, text: text@ },
            GaiaConstant::String(s) => ConstView::String(s@),
            GaiaConstant::Boolean(b) => ConstView::Boolean(*b),
            GaiaConstant::Null => ConstView::Null,
        }
    }
}

impl View for GaiaInstruction {
    type V = InstrView;

    open spec fn view(&self) -> InstrView {
        match self {
            GaiaInstruction::LoadConstant(c) => InstrView::LoadConstant(c@),
            GaiaInstruction::LoadLocal(i) => InstrView::LoadLocal(*i),
            GaiaInstruction::StoreLocal(i) => InstrView::StoreLocal(*i),
            GaiaInstruction::LoadArgument(i) => InstrView::LoadArgument(*i),
            GaiaInstruction::StoreArgument(i) => InstrView::StoreArgument(*i),
            GaiaInstruction::Call(n) => InstrView::Call(n@),
            GaiaInstruction::Return => InstrView::Return,
            GaiaInstruction::Add => InstrView::Add,
            GaiaInstruction::Subtract => InstrView::Subtract,
            GaiaInstruction::Multiply => InstrView::Multiply,
            GaiaInstruction::Divide => InstrView::Divide,
            GaiaInstruction::Duplicate => InstrView::Duplicate,
            GaiaInstruction::Pop => InstrView::Pop,
            GaiaInstruction::Comment(s) => InstrView::Comment(s@),
        }
    }
}

pub open spec fn instr_views(s: Seq<GaiaInstruction>) -> Seq<InstrView> {
    s.map_values(|i: GaiaInstruction| i@)
}

/// All instructions of a program's functions, in order.
pub open spec fn program_instructions(fs: Seq<GaiaFunction>) -> Seq<GaiaInstruction>
    decreases fs.len(),
{
    if fs.len() == 0 {
        Seq::empty()
    } else {
        program_instructions(fs.drop_last()) + fs.last().instructions@
    }
}

} // verus!
