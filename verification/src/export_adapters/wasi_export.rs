//! Export to WebAssembly (WASI) instructions and a minimal module.
use vstd::prelude::*;
use super::{code_bytes, code_view, text_view, CodeView, ExportAdapter};
use crate::bytes::{encode_leb128_u32, i32_le, i64_le, le_bytes, le_bytes_u, leb128, u32_le, u64_le};
use crate::error::GaiaError;
use crate::ir::{program_instructions, GaiaConstant, GaiaFunction, GaiaInstruction, GaiaProgram};
use crate::text::{owned, push_str};

verus! {

/// Options of the WASI export.
#[derive(Debug, Clone)]
pub struct WasiExportConfig {
    pub generate_debug_info: bool,
    pub optimize_wasm: bool,
    pub target_wasm_version: u32,
    pub generate_wasi_imports: bool,
}

impl WasiExportConfig {
    /// The default options.
    pub open spec fn is_default(&self) -> bool {
        &&& !self.generate_debug_info
        &&& !self.optimize_wasm
        &&& self.target_wasm_version == 1
        &&& self.generate_wasi_imports
    }
}

impl Default for WasiExportConfig {
    fn default() -> (r: Self)
        ensures
            r.is_default(),
            !r.generate_debug_info,
            !r.optimize_wasm,
            r.target_wasm_version == 1,
            r.generate_wasi_imports,
    {
        WasiExportConfig {
            generate_debug_info: false,
            optimize_wasm: false,
            target_wasm_version: 1,
            generate_wasi_imports: true,
        }
    }
}

/// Export adapter to WebAssembly.
#[derive(Debug, Clone)]
pub struct WasiExportAdapter {
    config: WasiExportConfig,
}

/// A WebAssembly instruction: opcode byte, operand bytes, and an optional note.
#[derive(Debug, Clone)]
pub struct WasiInstruction {
    pub opcode: u8,
    pub operands: Vec<u8>,
    pub metadata: Option<String>,
}

impl View for WasiInstruction {
    type V = CodeView;

    open spec fn view(&self) -> CodeView {
        CodeView {
            opcode: self.opcode,
            operands: self.operands@,
            metadata: text_view(self.metadata),
        }
    }
}

/// The WebAssembly instruction that each flat instruction becomes.
pub open spec fn wasi_export_view(i: GaiaInstruction) -> CodeView {
    match i {
        GaiaInstruction::LoadConstant(c) => match c {
            GaiaConstant::Integer8(v) => code_view(0x41, le_bytes(v as int, 4), None),
            GaiaConstant::Integer16(v) => code_view(0x41, le_bytes(v as int, 4), None),
            GaiaConstant::Integer32(v) => code_view(0x41, le_bytes(v as int, 4), None),
            GaiaConstant::Integer64(v) => code_view(0x42, le_bytes(v as int, 8), None),
            GaiaConstant::Float32 { bits, .. } => code_view(0x43, le_bytes_u(bits as int, 4), None),
            GaiaConstant::Float64 { bits, .. } => code_view(0x44, le_bytes_u(bits as int, 8), None),
            GaiaConstant::String(_) => code_view(
                0x41,
                seq![0u8, 0u8, 0u8, 0u8],
                Some("string constant address"@),
            ),
            GaiaConstant::Boolean(b) => code_view(0x41, le_bytes(if b { 1 } else { 0 }, 4), None),
            GaiaConstant::Null => code_view(0x41, le_bytes(0, 4), None),
        },
        GaiaInstruction::LoadLocal(index) => code_view(0x20, leb128(index as nat), None),
        GaiaInstruction::StoreLocal(index) => code_view(0x21, leb128(index as nat), None),
        GaiaInstruction::LoadArgument(index) => code_view(0x20, leb128(index as nat), None),
        GaiaInstruction::StoreArgument(index) => code_view(0x21, leb128(index as nat), None),
        GaiaInstruction::Call(name) => code_view(0x10, seq![0u8], Some("call "@ + name@)),
        GaiaInstruction::Return => code_view(0x0F, Seq::empty(), None),
        GaiaInstruction::Add => code_view(0x6A, Seq::empty(), None),
        GaiaInstruction::Subtract => code_view(0x6B, Seq::empty(), None),
        GaiaInstruction::Multiply => code_view(0x6C, Seq::empty(), None),
        GaiaInstruction::Divide => code_view(0x6D, Seq::empty(), None),
        GaiaInstruction::Duplicate => code_view(0x22, seq![0u8], Some("duplicate simulation"@)),
        GaiaInstruction::Pop => code_view(0x1A, Seq::empty(), None),
        GaiaInstruction::Comment(_) => code_view(0x01, Seq::empty(), None),
    }
}

pub open spec fn wasi_views(s: Seq<WasiInstruction>) -> Seq<CodeView> {
    s.map_values(|w: WasiInstruction| w@)
}

pub open spec fn wasi_export_views(s: Seq<GaiaInstruction>) -> Seq<CodeView> {
    s.map_values(|i: GaiaInstruction| wasi_export_view(i))
}

/// The body of the single exported function: no locals, the code, `end`.
pub open spec fn wasi_function_body(s: Seq<CodeView>) -> Seq<u8> {
    seq![0x00u8] + code_bytes(s) + seq![0x0Bu8]
}

/// The code section's content: one body, prefixed by its size.
pub open spec fn wasi_code_section(s: Seq<CodeView>) -> Seq<u8> {
    let body = wasi_function_body(s);
    seq![0x01u8] + leb128((body.len() as u32) as nat) + body
}

/// The fixed part of the module: magic, version, type, function and export sections.
pub open spec fn wasi_module_prefix() -> Seq<u8> {
    seq![
        0x00u8, 0x61, 0x73, 0x6D, 0x01, 0x00, 0x00, 0x00,
        0x01, 0x07, 0x01, 0x60, 0x00, 0x01, 0x7F,
        0x03, 0x02, 0x01, 0x00,
        0x07, 0x07, 0x01, 0x04, 0x6D, 0x61, 0x69, 0x6E, 0x00, 0x00,
        0x0A
    ]
}

/// The module that wraps the instructions as the body of an exported `main`.
pub open spec fn wasi_module(s: Seq<CodeView>) -> Seq<u8> {
    let section = wasi_code_section(s);
    wasi_module_prefix() + leb128((section.len() as u32) as nat) + section
}

proof fn lemma_program_instructions_step(fs: Seq<GaiaFunction>, i: int)
    requires
        0 <= i < fs.len(),
    ensures
        program_instructions(fs.take(i + 1)) == program_instructions(fs.take(i))
            + fs[i].instructions@,
{
    assert(fs.take(i + 1).drop_last() =~= fs.take(i));
}

fn wasi(opcode: u8, operands: Vec<u8>) -> (r: WasiInstruction)
    ensures
        r@ == code_view(opcode, operands@, None),
{
    WasiInstruction { opcode, operands, metadata: None }
}

impl WasiExportAdapter {
    /// An adapter with the default options.
    pub fn new() -> (r: Self)
        ensures
            r.config().is_default(),
            r.config().target_wasm_version == 1,
            r.config().generate_wasi_imports,
    {
        WasiExportAdapter { config: WasiExportConfig::default() }
    }

    /// An adapter with the given options.
    pub fn with_config(config: WasiExportConfig) -> (r: Self)
        ensures
            r.config() == config,
    {
        WasiExportAdapter { config }
    }

    pub closed spec fn config(&self) -> WasiExportConfig {
        self.config
    }

    /// Sets the WebAssembly version to target.
    pub fn set_target_wasm_version(&mut self, version: u32)
        ensures
            final(self).config() == (WasiExportConfig {
                target_wasm_version: version,
                ..old(self).config()
            }),
    {
        self.config.target_wasm_version = version;
    }

    /// Unsigned LEB128 encoding of a 32-bit value: one to five bytes.
    pub fn encode_leb128_u32(&self, value: u32) -> (r: Vec<u8>)
        ensures
            r@ == leb128(value as nat),
            1 <= r@.len() <= 5,
    {
        proof {
            crate::bytes::lemma_leb128_u32_length(value);
        }
        encode_leb128_u32(value)
    }
}

impl Default for WasiExportAdapter {
    fn default() -> (r: Self)
        ensures
            r.config().target_wasm_version == 1,
    {
        Self::new()
    }
}

impl ExportAdapter<WasiInstruction> for WasiExportAdapter {
    fn export_instruction(&self, gaia_instruction: &GaiaInstruction) -> (r: Result<
        WasiInstruction,
        GaiaError,
    >)
        ensures
            r matches Ok(w) && w@ == wasi_export_view(*gaia_instruction),
    {
        match gaia_instruction {
            GaiaInstruction::LoadConstant(constant) => match constant {
                GaiaConstant::Integer8(value) => Ok(wasi(0x41, i32_le(*value as i32))),
                GaiaConstant::Integer16(value) => Ok(wasi(0x41, i32_le(*value as i32))),
                GaiaConstant::Integer32(value) => Ok(wasi(0x41, i32_le(*value))),
                GaiaConstant::Integer64(value) => Ok(wasi(0x42, i64_le(*value))),
                GaiaConstant::Float32 { bits, .. } => Ok(wasi(0x43, u32_le(*bits))),
                GaiaConstant::Float64 { bits, .. } => Ok(wasi(0x44, u64_le(*bits))),
                GaiaConstant::String(_value) => {
                    let operands: Vec<u8> = vec![0, 0, 0, 0];
                    assert(operands@ =~= seq![0u8, 0u8, 0u8, 0u8]);
                    Ok(
                        WasiInstruction {
                            opcode: 0x41,
                            operands,
                            metadata: Some(owned("string constant address")),
                        },
                    )
                },
                GaiaConstant::Boolean(value) => Ok(
                    wasi(
                        0x41,
                        i32_le(
                            if *value {
                                1i32
                            } else {
                                0i32
                            },
                        ),
                    ),
                ),
                GaiaConstant::Null => Ok(wasi(0x41, i32_le(0i32))),
            },
            GaiaInstruction::LoadLocal(index) => Ok(wasi(0x20, self.encode_leb128_u32(*index))),
            GaiaInstruction::StoreLocal(index) => Ok(wasi(0x21, self.encode_leb128_u32(*index))),
            GaiaInstruction::LoadArgument(index) => Ok(wasi(0x20, self.encode_leb128_u32(*index))),
            GaiaInstruction::StoreArgument(index) => Ok(
                wasi(0x21, self.encode_leb128_u32(*index)),
            ),
            GaiaInstruction::Call(function_name) => {
                let mut note = owned("call ");
                push_str(&mut note, function_name.as_str());
                let operands: Vec<u8> = vec![0];
                assert(operands@ =~= seq![0u8]);
                Ok(WasiInstruction { opcode: 0x10, operands, metadata: Some(note) })
            },
            GaiaInstruction::Return => Ok(wasi(0x0F, Vec::new())),
            GaiaInstruction::Add => Ok(wasi(0x6A, Vec::new())),
            GaiaInstruction::Subtract => Ok(wasi(0x6B, Vec::new())),
            GaiaInstruction::Multiply => Ok(wasi(0x6C, Vec::new())),
            GaiaInstruction::Divide => Ok(wasi(0x6D, Vec::new())),
            GaiaInstruction::Duplicate => {
                let operands: Vec<u8> = vec![0];
                assert(operands@ =~= seq![0u8]);
                Ok(
                    WasiInstruction {
                        opcode: 0x22,
                        operands,
                        metadata: Some(owned("duplicate simulation")),
                    },
                )
            },
            GaiaInstruction::Pop => Ok(wasi(0x1A, Vec::new())),
            GaiaInstruction::Comment(_) => Ok(wasi(0x01, Vec::new())),
        }
    }

    fn export_program(&self, gaia_program: &GaiaProgram) -> (r: Result<
        Vec<WasiInstruction>,
        GaiaError,
    >)
        ensures
            r matches Ok(v) && wasi_views(v@) == wasi_export_views(
                program_instructions(gaia_program.functions@),
            ),
    {
        let mut out: Vec<WasiInstruction> = Vec::new();
        let fs = &gaia_program.functions;
        let mut i: usize = 0;
        while i < fs.len()
            invariant
                i <= fs.len(),
                wasi_views(out@) == wasi_export_views(program_instructions(fs@.take(i as int))),
            decreases fs.len() - i,
        {
            let instrs = &fs[i].instructions;
            let mut j: usize = 0;
            while j < instrs.len()
                invariant
                    i < fs.len(),
                    instrs == fs@[i as int].instructions,
                    j <= instrs.len(),
                    wasi_views(out@) == wasi_export_views(
                        program_instructions(fs@.take(i as int)) + instrs@.take(j as int),
                    ),
                decreases instrs.len() - j,
            {
                let r = self.export_instruction(&instrs[j]);
                match r {
                    Ok(w) => {
                        let ghost before = out@;
                        out.push(w);
                        proof {
                            let p = program_instructions(fs@.take(i as int));
                            assert(p + instrs@.take(j + 1) =~= (p + instrs@.take(j as int)).push(
                                instrs@[j as int],
                            ));
                            assert(wasi_views(out@) =~= wasi_views(before).push(w@));
                        }
                        j = j + 1;
                        assert(wasi_views(out@) =~= wasi_export_views(
                            program_instructions(fs@.take(i as int)) + instrs@.take(j as int),
                        ));
                    },
                    Err(e) => {
                        return Err(e);
                    },
                }
            }
            proof {
                lemma_program_instructions_step(fs@, i as int);
                assert(instrs@.take(j as int) =~= instrs@);
            }
            i = i + 1;
        }
        assert(fs@.take(i as int) =~= fs@);
        Ok(out)
    }

    fn adapter_name(&self) -> (r: &'static str)
        ensures
            r@ == "WASI Export Adapter"@,
    {
        "WASI Export Adapter"
    }

    fn generate_binary(&self, wasi_instructions: &[WasiInstruction]) -> (r: Result<
        Vec<u8>,
        GaiaError,
    >)
        ensures
            r matches Ok(b) && b@ == wasi_module(wasi_views(wasi_instructions@)),
    {
        let ghost views = wasi_views(wasi_instructions@);
        let mut module: Vec<u8> = vec![
            0x00, 0x61, 0x73, 0x6D, 0x01, 0x00, 0x00, 0x00,
            0x01, 0x07, 0x01, 0x60, 0x00, 0x01, 0x7F,
            0x03, 0x02, 0x01, 0x00,
            0x07, 0x07, 0x01, 0x04, 0x6D, 0x61, 0x69, 0x6E, 0x00, 0x00,
            0x0A
        ];
        assert(module@ =~= wasi_module_prefix());
        let mut body: Vec<u8> = vec![0x00];
        let mut k: usize = 0;
        while k < wasi_instructions.len()
            invariant
                k <= wasi_instructions@.len(),
                views == wasi_views(wasi_instructions@),
                body@ == seq![0x00u8] + code_bytes(views.take(k as int)),
            decreases wasi_instructions@.len() - k,
        {
            let ins = &wasi_instructions[k];
            body.push(ins.opcode);
            let mut m: usize = 0;
            let ghost base = body@;
            while m < ins.operands.len()
                invariant
                    m <= ins.operands@.len(),
                    body@ == base + ins.operands@.take(m as int),
                decreases ins.operands@.len() - m,
            {
                body.push(ins.operands[m]);
                m = m + 1;
                assert(body@ =~= base + ins.operands@.take(m as int));
            }
            proof {
                assert(ins.operands@.take(m as int) =~= ins.operands@);
                assert(views.take(k + 1).drop_last() =~= views.take(k as int));
                assert(views[k as int] == ins@);
            }
            k = k + 1;
            assert(body@ =~= seq![0x00u8] + code_bytes(views.take(k as int)));
        }
        body.push(0x0B);
        assert(views.take(k as int) =~= views);
        assert(body@ =~= wasi_function_body(views));
        let mut section: Vec<u8> = vec![0x01];
        let body_size = self.encode_leb128_u32(body.len() as u32);
        section.extend_from_slice(body_size.as_slice());
        section.extend_from_slice(body.as_slice());
        assert(section@ =~= wasi_code_section(views));
        let section_size = self.encode_leb128_u32(section.len() as u32);
        module.extend_from_slice(section_size.as_slice());
        module.extend_from_slice(section.as_slice());
        assert(module@ =~= wasi_module(views));
        Ok(module)
    }
}

} // verus!
