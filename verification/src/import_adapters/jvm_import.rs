//! Import from JVM bytecode instructions.
use vstd::prelude::*;
use super::{import_matches, ImportAdapter, ImportView};
use crate::bytes::be_bytes;
use crate::error::GaiaError;
use crate::export_adapters::jvm_export::{jvm_export_view, JvmInstruction};
use crate::export_adapters::CodeView;
use crate::ir::{ConstView, GaiaConstant, GaiaFunction, GaiaInstruction, GaiaProgram, GaiaType, InstrView};
use crate::target::{Architecture, ArchitectureView};
use crate::text::owned;

verus! {

/// Options of the JVM import.
#[derive(Debug, Clone)]
pub struct JvmImportConfig {
    pub parse_debug_info: bool,
    pub parse_annotations: bool,
    pub parse_generics: bool,
    pub target_jvm_version: u16,
}

impl JvmImportConfig {
    /// The default options.
    pub open spec fn is_default(&self) -> bool {
        &&& !self.parse_debug_info
        &&& !self.parse_annotations
        &&& !self.parse_generics
        &&& self.target_jvm_version == 17
    }
}

impl Default for JvmImportConfig {
    fn default() -> (r: Self)
        ensures
            r.is_default(),
            !r.parse_debug_info,
            !r.parse_annotations,
            !r.parse_generics,
            r.target_jvm_version == 17,
    {
        JvmImportConfig {
            parse_debug_info: false,
            parse_annotations: false,
            parse_generics: false,
            target_jvm_version: 17,
        }
    }
}

/// Import adapter from JVM bytecode.
#[derive(Debug, Clone)]
pub struct JvmImportAdapter {
    config: JvmImportConfig,
}

pub open spec fn jvm_arch() -> ArchitectureView {
    ArchitectureView::Other("JVM"@)
}

/// Signed value of two big-endian bytes.
pub open spec fn be_i16(hi: u8, lo: u8) -> int {
    let u = hi * 256 + lo;
    if u >= 32768 {
        u - 65536
    } else {
        u
    }
}

/// Signed value of one byte.
pub open spec fn signed_byte(b: u8) -> int {
    if b >= 128 {
        b - 256
    } else {
        b as int
    }
}

pub open spec fn instr(i: InstrView) -> ImportView {
    ImportView::Instr(i)
}

/// What each JVM instruction becomes.
pub open spec fn jvm_import_view(j: CodeView) -> ImportView {
    let op = j.opcode;
    let ops = j.operands;
    if op == 0x01 {
        instr(InstrView::LoadConstant(ConstView::Null))
    } else if 0x02 <= op <= 0x08 {
        instr(InstrView::LoadConstant(ConstView::Integer32((op - 3) as i32)))
    } else if op == 0x09 {
        instr(InstrView::LoadConstant(ConstView::Integer64(0)))
    } else if op == 0x0A {
        instr(InstrView::LoadConstant(ConstView::Integer64(1)))
    } else if op == 0x0B {
        instr(InstrView::LoadConstant(ConstView::Float32 { bits: 0, text: "0"@ }))
    } else if op == 0x0C {
        instr(InstrView::LoadConstant(ConstView::Float32 { bits: 0x3F80_0000, text: "1"@ }))
    } else if op == 0x0D {
        instr(InstrView::LoadConstant(ConstView::Float32 { bits: 0x4000_0000, text: "2"@ }))
    } else if op == 0x0E {
        instr(InstrView::LoadConstant(ConstView::Float64 { bits: 0, text: "0"@ }))
    } else if op == 0x0F {
        instr(
            InstrView::LoadConstant(ConstView::Float64 { bits: 0x3FF0_0000_0000_0000, text: "1"@ }),
        )
    } else if op == 0x10 {
        if ops.len() > 0 {
            instr(InstrView::LoadConstant(ConstView::Integer32(signed_byte(ops[0]) as i32)))
        } else {
            ImportView::Invalid("bipush requires operand"@)
        }
    } else if op == 0x11 {
        if ops.len() >= 2 {
            instr(InstrView::LoadConstant(ConstView::Integer32(be_i16(ops[0], ops[1]) as i32)))
        } else {
            ImportView::Invalid("sipush requires 2 operands"@)
        }
    } else if 0x15 <= op <= 0x18 {
        instr(InstrView::LoadLocal((op - 0x15) as u32))
    } else if 0x1A <= op <= 0x1D {
        instr(InstrView::LoadLocal((op - 0x1A) as u32))
    } else if 0x1E <= op <= 0x21 {
        instr(InstrView::LoadLocal((op - 0x1E) as u32))
    } else if 0x22 <= op <= 0x25 {
        instr(InstrView::LoadLocal((op - 0x22) as u32))
    } else if 0x2A <= op <= 0x2D {
        instr(InstrView::LoadLocal((op - 0x2A) as u32))
    } else if 0x3B <= op <= 0x3E {
        instr(InstrView::StoreLocal((op - 0x3B) as u32))
    } else if 0x40 <= op <= 0x43 {
        instr(InstrView::StoreLocal((op - 0x40) as u32))
    } else if 0x44 <= op <= 0x47 {
        instr(InstrView::StoreLocal((op - 0x44) as u32))
    } else if 0x48 <= op <= 0x4B {
        instr(InstrView::StoreLocal((op - 0x48) as u32))
    } else if 0x4C <= op <= 0x4F {
        instr(InstrView::StoreLocal((op - 0x4C) as u32))
    } else if 0x60 <= op <= 0x63 {
        instr(InstrView::Add)
    } else if 0x64 <= op <= 0x67 {
        instr(InstrView::Subtract)
    } else if 0x68 <= op <= 0x6B {
        instr(InstrView::Multiply)
    } else if 0x6C <= op <= 0x6F {
        instr(InstrView::Divide)
    } else if op == 0x59 {
        instr(InstrView::Duplicate)
    } else if op == 0x57 || op == 0x58 {
        instr(InstrView::Pop)
    } else if op == 0xB6 {
        instr(InstrView::Call("virtual_method"@))
    } else if op == 0xB7 {
        instr(InstrView::Call("special_method"@))
    } else if op == 0xB8 {
        instr(InstrView::Call("static_method"@))
    } else if op == 0xB9 {
        instr(InstrView::Call("interface_method"@))
    } else if op == 0xB1 || 0xAC <= op <= 0xB0 {
        instr(InstrView::Return)
    } else {
        instr(InstrView::Comment("Unsupported JVM instruction"@))
    }
}

fn err(message: &str) -> (r: Result<GaiaInstruction, GaiaError>)
    ensures
        import_matches(r, ImportView::Invalid(message@), jvm_arch()),
{
    Err(GaiaError::invalid_instruction(message, Architecture::Other(owned("JVM"))))
}

fn konst(c: GaiaConstant) -> (r: Result<GaiaInstruction, GaiaError>)
    ensures
        r matches Ok(g) && g@ == InstrView::LoadConstant(c@),
{
    Ok(GaiaInstruction::LoadConstant(c))
}

impl JvmImportAdapter {
    /// An adapter with the default options.
    pub fn new() -> (r: Self)
        ensures
            r.config().is_default(),
            r.config().target_jvm_version == 17,
    {
        JvmImportAdapter { config: JvmImportConfig::default() }
    }

    /// An adapter with the given options.
    pub fn with_config(config: JvmImportConfig) -> (r: Self)
        ensures
            r.config() == config,
    {
        JvmImportAdapter { config }
    }

    pub closed spec fn config(&self) -> JvmImportConfig {
        self.config
    }

    /// Sets the JVM version to target.
    pub fn set_target_jvm_version(&mut self, version: u16)
        ensures
            final(self).config() == (JvmImportConfig {
                target_jvm_version: version,
                ..old(self).config()
            }),
    {
        self.config.target_jvm_version = version;
    }
}

impl Default for JvmImportAdapter {
    fn default() -> (r: Self)
        ensures
            r.config().target_jvm_version == 17,
    {
        Self::new()
    }
}

impl ImportAdapter<JvmInstruction> for JvmImportAdapter {
    fn import_instruction(&self, jvm_instruction: &JvmInstruction) -> (r: Result<
        GaiaInstruction,
        GaiaError,
    >)
        ensures
            import_matches(r, jvm_import_view(jvm_instruction@), jvm_arch()),
    {
        let op = jvm_instruction.opcode;
        let ops = &jvm_instruction.operands;
        if op == 0x01 {
            konst(GaiaConstant::Null)
        } else if 0x02 <= op && op <= 0x08 {
            konst(GaiaConstant::Integer32(op as i32 - 3))
        } else if op == 0x09 {
            konst(GaiaConstant::Integer64(0))
        } else if op == 0x0A {
            konst(GaiaConstant::Integer64(1))
        } else if op == 0x0B {
            konst(GaiaConstant::Float32 { bits: 0, text: owned("0") })
        } else if op == 0x0C {
            konst(GaiaConstant::Float32 { bits: 0x3F80_0000, text: owned("1") })
        } else if op == 0x0D {
            konst(GaiaConstant::Float32 { bits: 0x4000_0000, text: owned("2") })
        } else if op == 0x0E {
            konst(GaiaConstant::Float64 { bits: 0, text: owned("0") })
        } else if op == 0x0F {
            konst(GaiaConstant::Float64 { bits: 0x3FF0_0000_0000_0000, text: owned("1") })
        } else if op == 0x10 {
            if ops.len() > 0 {
                let b = ops[0];
                let v: i32 = if b >= 128 {
                    b as i32 - 256
                } else {
                    b as i32
                };
                konst(GaiaConstant::Integer32(v))
            } else {
                err("bipush requires operand")
            }
        } else if op == 0x11 {
            if ops.len() >= 2 {
                let u: i32 = ops[0] as i32 * 256 + ops[1] as i32;
                let v: i32 = if u >= 32768 {
                    u - 65536
                } else {
                    u
                };
                konst(GaiaConstant::Integer32(v))
            } else {
                err("sipush requires 2 operands")
            }
        } else if 0x15 <= op && op <= 0x18 {
            Ok(GaiaInstruction::LoadLocal((op - 0x15) as u32))
        } else if 0x1A <= op && op <= 0x1D {
            Ok(GaiaInstruction::LoadLocal((op - 0x1A) as u32))
        } else if 0x1E <= op && op <= 0x21 {
            Ok(GaiaInstruction::LoadLocal((op - 0x1E) as u32))
        } else if 0x22 <= op && op <= 0x25 {
            Ok(GaiaInstruction::LoadLocal((op - 0x22) as u32))
        } else if 0x2A <= op && op <= 0x2D {
            Ok(GaiaInstruction::LoadLocal((op - 0x2A) as u32))
        } else if 0x3B <= op && op <= 0x3E {
            Ok(GaiaInstruction::StoreLocal((op - 0x3B) as u32))
        } else if 0x40 <= op && op <= 0x43 {
            Ok(GaiaInstruction::StoreLocal((op - 0x40) as u32))
        } else if 0x44 <= op && op <= 0x47 {
            Ok(GaiaInstruction::StoreLocal((op - 0x44) as u32))
        } else if 0x48 <= op && op <= 0x4B {
            Ok(GaiaInstruction::StoreLocal((op - 0x48) as u32))
        } else if 0x4C <= op && op <= 0x4F {
            Ok(GaiaInstruction::StoreLocal((op - 0x4C) as u32))
        } else if 0x60 <= op && op <= 0x63 {
            Ok(GaiaInstruction::Add)
        } else if 0x64 <= op && op <= 0x67 {
            Ok(GaiaInstruction::Subtract)
        } else if 0x68 <= op && op <= 0x6B {
            Ok(GaiaInstruction::Multiply)
        } else if 0x6C <= op && op <= 0x6F {
            Ok(GaiaInstruction::Divide)
        } else if op == 0x59 {
            Ok(GaiaInstruction::Duplicate)
        } else if op == 0x57 || op == 0x58 {
            Ok(GaiaInstruction::Pop)
        } else if op == 0xB6 {
            Ok(GaiaInstruction::Call(owned("virtual_method")))
        } else if op == 0xB7 {
            Ok(GaiaInstruction::Call(owned("special_method")))
        } else if op == 0xB8 {
            Ok(GaiaInstruction::Call(owned("static_method")))
        } else if op == 0xB9 {
            Ok(GaiaInstruction::Call(owned("interface_method")))
        } else if op == 0xB1 || (0xAC <= op && op <= 0xB0) {
            Ok(GaiaInstruction::Return)
        } else {
            Ok(GaiaInstruction::Comment(owned("Unsupported JVM instruction")))
        }
    }

    fn import_program(&self, jvm_instructions: &[JvmInstruction]) -> (r: Result<
        GaiaProgram,
        GaiaError,
    >)
        ensures
            match r {
                Ok(p) => {
                    &&& p.name@ == "ImportedJvmProgram"@
                    &&& p.constants@.len() == 0
                    &&& p.functions@.len() == 1
                    &&& p.functions@[0].name@ == "main"@
                    &&& p.functions@[0].parameters@.len() == 0
                    &&& p.functions@[0].return_type matches Some(GaiaType::Integer32)
                    &&& p.functions@[0].locals@.len() == 0
                    &&& p.functions@[0].instructions@.len() == jvm_instructions@.len()
                    &&& forall|k: int|
                        0 <= k < jvm_instructions@.len() ==> jvm_import_view(
                            #[trigger] jvm_instructions@[k]@,
                        ) == ImportView::Instr(p.functions@[0].instructions@[k]@)
                },
                Err(e) => exists|k: int|
                    0 <= k < jvm_instructions@.len() && (forall|j: int|
                        0 <= j < k ==> #[trigger] jvm_import_view(jvm_instructions@[j]@) is Instr)
                        && import_matches(
                        Err(e),
                        jvm_import_view(jvm_instructions@[k]@),
                        jvm_arch(),
                    ),
            },
    {
        let mut instructions: Vec<GaiaInstruction> = Vec::new();
        let mut k: usize = 0;
        while k < jvm_instructions.len()
            invariant
                k <= jvm_instructions@.len(),
                instructions@.len() == k,
                forall|j: int|
                    0 <= j < k ==> jvm_import_view(#[trigger] jvm_instructions@[j]@)
                        == ImportView::Instr(instructions@[j]@),
            decreases jvm_instructions@.len() - k,
        {
            let r = self.import_instruction(&jvm_instructions[k]);
            match r {
                Ok(g) => {
                    instructions.push(g);
                },
                Err(e) => {
                    assert(forall|j: int|
                        0 <= j < k ==> #[trigger] jvm_import_view(jvm_instructions@[j]@) is Instr);
                    return Err(e);
                },
            }
            k = k + 1;
        }
        let main_function = GaiaFunction {
            name: owned("main"),
            parameters: Vec::new(),
            return_type: Some(GaiaType::Integer32),
            locals: Vec::new(),
            instructions,
        };
        Ok(
            GaiaProgram {
                name: owned("ImportedJvmProgram"),
                functions: vec![main_function],
                constants: Vec::new(),
            },
        )
    }

    fn adapter_name(&self) -> (r: &'static str)
        ensures
            r@ == "JVM Import Adapter"@,
    {
        "JVM Import Adapter"
    }
}

/// The flat instructions that come back unchanged from JVM bytecode: ints
/// that fit a short, the long constants 0 and 1, `null`, locals 0 to 3,
/// returns, the four arithmetic operations, `Duplicate` and `Pop`.
pub open spec fn jvm_round_trips(i: InstrView) -> bool {
    match i {
        InstrView::LoadConstant(ConstView::Integer32(v)) => -32768 <= v <= 32767,
        InstrView::LoadConstant(ConstView::Integer64(v)) => v == 0 || v == 1,
        InstrView::LoadConstant(ConstView::Null) => true,
        InstrView::LoadLocal(index) => index < 4,
        InstrView::StoreLocal(index) => index < 4,
        InstrView::Return => true,
        InstrView::Add => true,
        InstrView::Subtract => true,
        InstrView::Multiply => true,
        InstrView::Divide => true,
        InstrView::Duplicate => true,
        InstrView::Pop => true,
        _ => false,
    }
}

/// Exporting an instruction to JVM bytecode and importing the result gives
/// the instruction back, for every instruction that the bytecode carries
/// whole.
pub proof fn law_jvm_round_trip(i: GaiaInstruction)
    requires
        jvm_round_trips(i@),
    ensures
        jvm_import_view(jvm_export_view(i)) == ImportView::Instr(i@),
{
    crate::bytes::lemma_pow256_values();
    reveal_with_fuel(crate::bytes::le_bytes_u, 3);
    match i {
        GaiaInstruction::LoadConstant(GaiaConstant::Integer32(v)) => {
            if -1 <= v <= 5 {
            } else if -128 <= v <= 127 {
                let b = be_bytes(v as int, 1);
                assert(b[0] as int == crate::bytes::twos(v as int, 1) % 256);
            } else {
                let b = be_bytes(v as int, 2);
                let u = crate::bytes::twos(v as int, 2);
                assert(b[0] as int == (u / 256) % 256);
                assert(b[1] as int == u % 256);
                assert(u == (u / 256) * 256 + u % 256) by (nonlinear_arith);
            }
        },
        _ => {},
    }
}

} // verus!
