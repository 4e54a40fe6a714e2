//! Compilation targets: the build architecture, the host ABI and the target
//! API, with a spec view in which text is a `Seq<char>` and an executable
//! comparison tied to it.
use vstd::prelude::*;
use crate::text::str_eq;

verus! {

/// Instruction-set architecture of a build.
#[derive(Debug, Clone)]
pub enum Architecture {
    Unknown,
    X86_64,
    CLR,
    JVM,
    WASM32,
    WASM64,
    RISCV64,
    NvSass,
    Other(String),
}

/// Binary interface of the produced artifact.
#[derive(Debug, Clone, Copy, PartialEq, Eq, Structural, Hash)]
pub enum AbiCompatible {
    Unknown,
    ELF,
    PE,
    MachO,
    GCN,
    PTX,
    JavaAssembly,
    MicrosoftIntermediateLanguage,
    WebAssemblyTextFormat,
    LuaBytecode,
    PythonBytecode,
    LlvmIr,
    MSL,
    SPIRV,
}

/// Runtime or system API the artifact is written against.
#[derive(Debug, Clone, Copy, PartialEq, Eq, Structural, Hash)]
pub enum ApiCompatible {
    Unknown,
    Linux,
    Apple,
    Metal,
    MicrosoftVisualC,
    WASI,
    ClrRuntime(u32),
    JvmRuntime(u32),
}

/// A compilation target: architecture, ABI and API together.
#[derive(Debug, Clone)]
pub struct CompilationTarget {
    pub build: Architecture,
    pub host: AbiCompatible,
    pub target: ApiCompatible,
}

/// Spec view of an architecture, with text as a character sequence.
pub enum ArchitectureView {
    Unknown,
    X86_64,
    CLR,
    JVM,
    WASM32,
    WASM64,
    RISCV64,
    NvSass,
    Other(Seq<char>),
}

/// Spec view of a compilation target.
pub struct TargetView {
    pub build: ArchitectureView,
    pub host: AbiCompatible,
    pub target: ApiCompatible,
}

impl View for Architecture {
    type V = ArchitectureView;

    open spec fn view(&self) -> ArchitectureView {
        match self {
            Architecture::Unknown => ArchitectureView::Unknown,
            Architecture::X86_64 => ArchitectureView::X86_64,
            Architecture::CLR => ArchitectureView::CLR,
            Architecture::JVM => ArchitectureView::JVM,
            Architecture::WASM32 => ArchitectureView::WASM32,
            Architecture::WASM64 => ArchitectureView::WASM64,
            Architecture::RISCV64 => ArchitectureView::RISCV64,
            Architecture::NvSass => ArchitectureView::NvSass,
            Architecture::Other(s) => ArchitectureView::Other(s@),
        }
    }
}

impl View for CompilationTarget {
    type V = TargetView;

    open spec fn view(&self) -> TargetView {
        TargetView { build: self.build@, host: self.host, target: self.target }
    }
}

/// Whether two architectures are the same (same variant, same text).
pub fn same_architecture(a: &Architecture, b: &Architecture) -> (r: bool)
    ensures
        r == (a@ == b@),
{
    match (a, b) {
        (Architecture::Unknown, Architecture::Unknown) => true,
        (Architecture::X86_64, Architecture::X86_64) => true,
        (Architecture::CLR, Architecture::CLR) => true,
        (Architecture::JVM, Architecture::JVM) => true,
        (Architecture::WASM32, Architecture::WASM32) => true,
        (Architecture::WASM64, Architecture::WASM64) => true,
        (Architecture::RISCV64, Architecture::RISCV64) => true,
        (Architecture::NvSass, Architecture::NvSass) => true,
        (Architecture::Other(x), Architecture::Other(y)) => str_eq(x.as_str(), y.as_str()),
        _ => false,
    }
}

/// Whether two targets are the same.
pub fn same_target(a: &CompilationTarget, b: &CompilationTarget) -> (r: bool)
    ensures
        r == (a@ == b@),
{
    same_architecture(&a.build, &b.build) && a.host == b.host && a.target == b.target
}

/// A copy of a target with the same view.
pub fn copy_target(t: &CompilationTarget) -> (r: CompilationTarget)
    ensures
        r@ == t@,
{
    let build = match &t.build {
        Architecture::Unknown => Architecture::Unknown,
        Architecture::X86_64 => Architecture::X86_64,
        Architecture::CLR => Architecture::CLR,
        Architecture::JVM => Architecture::JVM,
        Architecture::WASM32 => Architecture::WASM32,
        Architecture::WASM64 => Architecture::WASM64,
        Architecture::RISCV64 => Architecture::RISCV64,
        Architecture::NvSass => Architecture::NvSass,
        Architecture::Other(s) => Architecture::Other(s.clone()),
    };
    CompilationTarget { build, host: t.host, target: t.target }
}

/// The target that the IL platform name stands for in function mappings.
pub fn il_target() -> (t: CompilationTarget)
    ensures
        t@ == il_target_view(),
{
    CompilationTarget {
        build: Architecture::CLR,
        host: AbiCompatible::MicrosoftIntermediateLanguage,
        target: ApiCompatible::ClrRuntime(4),
    }
}

/// The target that the JVM platform name stands for in function mappings.
pub fn jvm_target() -> (t: CompilationTarget)
    ensures
        t@ == jvm_target_view(),
{
    CompilationTarget {
        build: Architecture::JVM,
        host: AbiCompatible::JavaAssembly,
        target: ApiCompatible::JvmRuntime(8),
    }
}

/// The target that the PE platform name stands for in function mappings.
pub fn pe_target() -> (t: CompilationTarget)
    ensures
        t@ == pe_target_view(),
{
    CompilationTarget {
        build: Architecture::X86_64,
        host: AbiCompatible::PE,
        target: ApiCompatible::MicrosoftVisualC,
    }
}

/// The target that the WASI platform name stands for in function mappings.
pub fn wasi_target() -> (t: CompilationTarget)
    ensures
        t@ == wasi_target_view(),
{
    CompilationTarget {
        build: Architecture::WASM32,
        host: AbiCompatible::WebAssemblyTextFormat,
        target: ApiCompatible::WASI,
    }
}

pub open spec fn il_target_view() -> TargetView {
    TargetView {
        build: ArchitectureView::CLR,
        host: AbiCompatible::MicrosoftIntermediateLanguage,
        target: ApiCompatible::ClrRuntime(4),
    }
}

pub open spec fn jvm_target_view() -> TargetView {
    TargetView {
        build: ArchitectureView::JVM,
        host: AbiCompatible::JavaAssembly,
        target: ApiCompatible::JvmRuntime(8),
    }
}

pub open spec fn pe_target_view() -> TargetView {
    TargetView {
        build: ArchitectureView::X86_64,
        host: AbiCompatible::PE,
        target: ApiCompatible::MicrosoftVisualC,
    }
}

pub open spec fn wasi_target_view() -> TargetView {
    TargetView {
        build: ArchitectureView::WASM32,
        host: AbiCompatible::WebAssemblyTextFormat,
        target: ApiCompatible::WASI,
    }
}

} // verus!
