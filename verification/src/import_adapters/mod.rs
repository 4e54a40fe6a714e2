//! Import adapters: from each platform's instruction form to the flat
//! instruction set.
use vstd::prelude::*;
use crate::error::GaiaError;
use crate::ir::{GaiaInstruction, GaiaProgram, InstrView};
use crate::target::ArchitectureView;

pub mod il_import;
pub mod jvm_import;
pub mod pe_import;
pub mod wasi_import;

pub use il_import::{IlImportAdapter, IlImportConfig};
pub use crate::export_adapters::IlInstruction;
pub use jvm_import::{JvmImportAdapter, JvmImportConfig};
pub use crate::export_adapters::JvmInstruction;
pub use pe_import::{PeImportAdapter, PeImportConfig};
pub use crate::export_adapters::PeInstruction;
pub use wasi_import::WasiImportAdapter;
pub use wasi_import::WasiImportConfig;
pub use crate::export_adapters::WasiInstruction;

verus! {

/// Conversion from a platform's instructions to the flat instruction set.
pub trait ImportAdapter<T> {
    /// Converts one instruction.
    fn import_instruction(&self, platform_instruction: &T) -> Result<GaiaInstruction, GaiaError>;

    /// Converts a sequence of instructions into a one-function program.
    fn import_program(&self, platform_program: &[T]) -> Result<GaiaProgram, GaiaError>;

    /// The adapter's name.
    fn adapter_name(&self) -> &'static str;
}

/// What importing one instruction gives: an instruction, a refusal with its
/// message, or a float operand left to a float parser.
pub enum ImportView {
    Instr(InstrView),
    Invalid(Seq<char>),
    FloatOperand(Seq<char>, Seq<char>),
}

/// Whether an import result is what `spec` says, refusals being reported
/// for the architecture `arch`.
pub open spec fn import_matches(
    r: Result<GaiaInstruction, GaiaError>,
    spec: ImportView,
    arch: ArchitectureView,
) -> bool {
    match r {
        Ok(g) => spec == ImportView::Instr(g@),
        Err(GaiaError::InvalidInstruction { instruction, architecture }) => spec
            == ImportView::Invalid(instruction@) && architecture@ == arch,
        Err(GaiaError::FloatLiteral { opcode, text }) => spec == ImportView::FloatOperand(
            opcode@,
            text@,
        ),
        Err(_) => false,
    }
}

/// The four import adapters, one per platform.
#[derive(Debug)]
pub struct ImportAdapterManager {
    pe_adapter: PeImportAdapter,
    il_adapter: IlImportAdapter,
    jvm_adapter: JvmImportAdapter,
    wasi_adapter: WasiImportAdapter,
}

impl ImportAdapterManager {
    /// A manager holding an adapter with default options for each platform.
    pub fn new() -> (r: Self)
        ensures
            r.pe_spec().config().is_default(),
            r.il_spec().config().is_default(),
            r.jvm_spec().config().is_default(),
            r.wasi_spec().config().is_default(),
            r.pe_spec().config().parse_relocations,
            r.il_spec().config().parse_metadata,
            r.jvm_spec().config().target_jvm_version == 17,
            r.wasi_spec().config().target_wasm_version == 1,
    {
        ImportAdapterManager {
            pe_adapter: PeImportAdapter::new(),
            il_adapter: IlImportAdapter::new(),
            jvm_adapter: JvmImportAdapter::new(),
            wasi_adapter: WasiImportAdapter::new(),
        }
    }

    pub closed spec fn pe_spec(&self) -> PeImportAdapter {
        self.pe_adapter
    }

    /// The PE adapter.
    pub fn pe(&self) -> (r: &PeImportAdapter)
        ensures
            *r == self.pe_spec(),
    {
        &self.pe_adapter
    }

    pub closed spec fn il_spec(&self) -> IlImportAdapter {
        self.il_adapter
    }

    /// The IL adapter.
    pub fn il(&self) -> (r: &IlImportAdapter)
        ensures
            *r == self.il_spec(),
    {
        &self.il_adapter
    }

    pub closed spec fn jvm_spec(&self) -> JvmImportAdapter {
        self.jvm_adapter
    }

    /// The JVM adapter.
    pub fn jvm(&self) -> (r: &JvmImportAdapter)
        ensures
            *r == self.jvm_spec(),
    {
        &self.jvm_adapter
    }

    pub closed spec fn wasi_spec(&self) -> WasiImportAdapter {
        self.wasi_adapter
    }

    /// The WASI adapter.
    pub fn wasi(&self) -> (r: &WasiImportAdapter)
        ensures
            *r == self.wasi_spec(),
    {
        &self.wasi_adapter
    }
}

impl Default for ImportAdapterManager {
    fn default() -> (r: Self)
        ensures
            r.pe_spec().config().is_default(),
            r.il_spec().config().is_default(),
            r.jvm_spec().config().is_default(),
            r.wasi_spec().config().is_default(),
            r.pe_spec().config().parse_relocations,
            r.il_spec().config().parse_metadata,
            r.jvm_spec().config().target_jvm_version == 17,
            r.wasi_spec().config().target_wasm_version == 1,
    {
        Self::new()
    }
}

} // verus!
