//! The editor-facing front end: program descriptors, source trees, code
//! completion, validation and simple optimisations.
use vstd::prelude::*;

pub mod lexical;
pub mod utils;

verus! {

/// Entry point of the assembler interface (assemble, disassemble, validate).
pub struct AssemblerImpl;

/// Entry point of the quick-test interface (exit-code and console programs).
pub struct EasyTestImpl;

/// Entry point of the metadata interface (program, symbol and platform info).
pub struct MetadataImpl;

/// A position in source text.
#[derive(Debug, Clone, Copy, PartialEq, Eq, Structural)]
pub struct SourceLocation {
    pub line: u32,
    pub column: u32,
}

/// A span of source text, both ends included.
#[derive(Debug, Clone, Copy, PartialEq, Eq, Structural)]
pub struct SourceRange {
    pub start: SourceLocation,
    pub end: SourceLocation,
}

/// Kinds of syntax-tree nodes.
#[derive(Debug, Clone, Copy, PartialEq, Eq, Structural)]
pub enum AstNodeType {
    Program,
    FunctionDef,
    Block,
    VariableDecl,
    Instruction,
    Expression,
    Literal,
}

/// A syntax-tree node: kind, optional text, children and source span.
#[derive(Debug)]
pub struct AstNode {
    pub node_type: AstNodeType,
    pub value: Option<String>,
    pub children: Vec<AstNode>,
    pub location: Option<SourceRange>,
}

/// Kinds of completion suggestions.
#[derive(Debug, Clone, Copy, PartialEq, Eq, Structural)]
pub enum CompletionType {
    Keyword,
    Type,
    Variable,
    Function,
}

/// A completion suggestion.
#[derive(Debug, Clone)]
pub struct CompletionItem {
    pub label: String,
    pub kind: CompletionType,
    pub detail: Option<String>,
    pub documentation: Option<String>,
    pub insert_text: Option<String>,
    pub filter_text: Option<String>,
    pub sort_text: Option<String>,
    pub additional_text_edits: Vec<String>,
}

/// Kinds of symbols.
#[derive(Debug, Clone, Copy, PartialEq, Eq, Structural)]
pub enum SymbolType {
    Variable,
    Function,
    Label,
    Constant,
}

/// Value types of symbols.
#[derive(Debug, Clone, Copy, PartialEq, Eq, Structural)]
pub enum DataType {
    I32,
    I64,
    F32,
    F64,
    Bool,
    Str,
    Void,
}

/// A symbol of a program.
#[derive(Debug, Clone)]
pub struct SymbolInfo {
    pub name: String,
    pub symbol_type: SymbolType,
    pub data_type: DataType,
    pub location: Option<SourceRange>,
}

/// An instruction of a descriptor; a call names its target by index.
#[derive(Debug, Clone, Copy, PartialEq, Eq, Structural)]
pub enum Instruction {
    Call(u32),
    Nop,
    Return,
}

/// An instruction with its source span.
#[derive(Debug, Clone)]
pub struct InstructionEntry {
    pub instruction: Instruction,
    pub location: Option<SourceRange>,
}

/// A node of the control-flow graph.
#[derive(Debug, Clone, Copy, PartialEq, Eq, Structural)]
pub struct ControlFlowNode {
    pub id: u32,
}

/// An edge of the control-flow graph.
#[derive(Debug, Clone, Copy, PartialEq, Eq, Structural)]
pub struct ControlFlowEdge {
    pub from: u32,
    pub to: u32,
}

/// The control-flow graph of a program.
#[derive(Debug, Clone)]
pub struct ControlFlow {
    pub nodes: Vec<ControlFlowNode>,
    pub edges: Vec<ControlFlowEdge>,
}

/// A program as the editor sees it.
#[derive(Debug, Clone)]
pub struct GaiaDescriptor {
    pub instructions: Vec<InstructionEntry>,
    pub symbols: Vec<SymbolInfo>,
    pub control_flow: ControlFlow,
}

/// Target platforms of templates.
#[derive(Debug, Clone, Copy, PartialEq, Eq, Structural)]
pub enum Target {
    Clr,
    Jvm,
    Pe,
    Wasi,
}

/// Formatting options.
#[derive(Debug, Clone, Copy)]
pub struct FormatOptions {
    pub indent_size: u32,
    pub use_tabs: bool,
}

/// Optimisation switches; a missing switch takes its default.
#[derive(Debug, Clone, Copy)]
pub struct OptimizationOptions {
    pub constant_folding: Option<bool>,
    pub dead_code_elimination: Option<bool>,
    pub instruction_combining: Option<bool>,
}

/// Formats a descriptor can be converted to.
#[derive(Debug, Clone, Copy, PartialEq, Eq, Structural)]
pub enum DescriptorFormat {
    Binary,
    Json,
    Xml,
    Yaml,
}

/// A diagnostic message.
#[derive(Debug, Clone)]
pub struct Diagnostic {
    pub message: String,
    pub location: Option<SourceRange>,
}

/// An error found by validation.
#[derive(Debug, Clone)]
pub struct ValidationError {
    pub message: String,
    pub location: Option<SourceRange>,
    pub error_code: String,
}

/// A warning found by validation.
#[derive(Debug, Clone)]
pub struct ValidationWarning {
    pub message: String,
    pub location: Option<SourceRange>,
    pub warning_code: String,
}

/// The outcome of validation.
#[derive(Debug, Clone)]
pub struct ValidationResult {
    pub is_valid: bool,
    pub errors: Vec<ValidationError>,
    pub warnings: Vec<ValidationWarning>,
}

} // verus!
