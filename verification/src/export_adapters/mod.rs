//! Export adapters: from the flat instruction set to each platform's
//! instruction form, and from there to a binary.
use vstd::prelude::*;
use crate::error::GaiaError;
use crate::ir::{GaiaInstruction, GaiaProgram};

pub mod il_export;
pub mod jvm_export;
pub mod pe_export;
pub mod wasi_export;

pub use il_export::{IlExportAdapter, IlExportConfig, IlInstruction};
pub use jvm_export::{JvmExportAdapter, JvmExportConfig, JvmInstruction};
pub use pe_export::{PeExportAdapter, PeExportConfig, PeInstruction};
pub use wasi_export::{WasiExportAdapter, WasiExportConfig, WasiInstruction};

verus! {

/// Conversion from the flat instruction set to a platform's instructions.
pub trait ExportAdapter<T> {
    /// Converts one instruction.
    fn export_instruction(&self, gaia_instruction: &GaiaInstruction) -> Result<T, GaiaError>;

    /// Converts a whole program.
    fn export_program(&self, gaia_program: &GaiaProgram) -> Result<Vec<T>, GaiaError>;

    /// The adapter's name.
    fn adapter_name(&self) -> &'static str;

    /// The binary made of platform instructions.
    fn generate_binary(&self, platform_program: &[T]) -> Result<Vec<u8>, GaiaError>;
}

/// Spec view of an instruction in byte form: opcode, operand bytes, and an
/// optional note.
pub struct CodeView {
    pub opcode: u8,
    pub operands: Seq<u8>,
    pub metadata: Option<Seq<char>>,
}

pub open spec fn code_view(opcode: u8, operands: Seq<u8>, metadata: Option<Seq<char>>) -> CodeView {
    CodeView { opcode, operands, metadata }
}

pub open spec fn text_view(m: Option<String>) -> Option<Seq<char>> {
    match m {
        Some(s) => Some(s@),
        None => None,
    }
}

/// Code bytes of instructions: each opcode followed by its operands.
pub open spec fn code_bytes(s: Seq<CodeView>) -> Seq<u8>
    decreases s.len(),
{
    if s.len() == 0 {
        Seq::empty()
    } else {
        code_bytes(s.drop_last()) + seq![s.last().opcode] + s.last().operands
    }
}

/// The four export adapters, one per platform.
#[derive(Debug)]
pub struct ExportAdapterManager {
    pe_adapter: PeExportAdapter,
    il_adapter: IlExportAdapter,
    jvm_adapter: JvmExportAdapter,
    wasi_adapter: WasiExportAdapter,
}

impl ExportAdapterManager {
    /// A manager holding an adapter with default options for each platform.
    pub fn new() -> (r: Self)
        ensures
            r.pe_spec().config().is_default(),
            r.il_spec().config().is_default(),
            r.jvm_spec().config().is_default(),
            r.wasi_spec().config().is_default(),
            r.pe_spec().config().entry_point@ == "main"@,
            r.il_spec().config().target_framework@ == "net8.0"@,
            r.jvm_spec().config().target_jvm_version == 17,
            r.wasi_spec().config().target_wasm_version == 1,
    {
        ExportAdapterManager {
            pe_adapter: PeExportAdapter::new(),
            il_adapter: IlExportAdapter::new(),
            jvm_adapter: JvmExportAdapter::new(),
            wasi_adapter: WasiExportAdapter::new(),
        }
    }

    pub closed spec fn pe_spec(&self) -> PeExportAdapter {
        self.pe_adapter
    }

    /// The PE adapter.
    pub fn pe(&self) -> (r: &PeExportAdapter)
        ensures
            *r == self.pe_spec(),
    {
        &self.pe_adapter
    }

    pub closed spec fn il_spec(&self) -> IlExportAdapter {
        self.il_adapter
    }

    /// The IL adapter.
    pub fn il(&self) -> (r: &IlExportAdapter)
        ensures
            *r == self.il_spec(),
    {
        &self.il_adapter
    }

    pub closed spec fn jvm_spec(&self) -> JvmExportAdapter {
        self.jvm_adapter
    }

    /// The JVM adapter.
    pub fn jvm(&self) -> (r: &JvmExportAdapter)
        ensures
            *r == self.jvm_spec(),
    {
        &self.jvm_adapter
    }

    pub closed spec fn wasi_spec(&self) -> WasiExportAdapter {
        self.wasi_adapter
    }

    /// The WASI adapter.
    pub fn wasi(&self) -> (r: &WasiExportAdapter)
        ensures
            *r == self.wasi_spec(),
    {
        &self.wasi_adapter
    }
}

impl Default for ExportAdapterManager {
    fn default() -> (r: Self)
        ensures
            r.pe_spec().config().is_default(),
            r.il_spec().config().is_default(),
            r.jvm_spec().config().is_default(),
            r.wasi_spec().config().is_default(),
            r.pe_spec().config().entry_point@ == "main"@,
            r.il_spec().config().target_framework@ == "net8.0"@,
            r.jvm_spec().config().target_jvm_version == 17,
            r.wasi_spec().config().target_wasm_version == 1,
    {
        Self::new()
    }
}

} // verus!
