//! Export to JVM bytecode instructions and a minimal class file.
use vstd::prelude::*;
use super::{code_bytes, code_view, text_view, CodeView, ExportAdapter};
use crate::bytes::{be_bytes, be_bytes_of, le_bytes_u, signed_be};
use crate::error::GaiaError;
use crate::ir::{program_instructions, GaiaConstant, GaiaFunction, GaiaInstruction, GaiaProgram};
use crate::text::{decimal_text, format_i64, owned, push_str};

verus! {

/// Options of the JVM export.
#[derive(Debug, Clone)]
pub struct JvmExportConfig {
    pub generate_debug_info: bool,
    pub optimize_bytecode: bool,
    pub target_jvm_version: u16,
    pub generate_stack_map_table: bool,
}

impl JvmExportConfig {
    /// The default options.
    pub open spec fn is_default(&self) -> bool {
        &&& !self.generate_debug_info
        &&& !self.optimize_bytecode
        &&& self.target_jvm_version == 17
        &&& self.generate_stack_map_table
    }
}

impl Default for JvmExportConfig {
    fn default() -> (r: Self)
        ensures
            r.is_default(),
            !r.generate_debug_info,
            !r.optimize_bytecode,
            r.target_jvm_version == 17,
            r.generate_stack_map_table,
    {
        JvmExportConfig {
            generate_debug_info: false,
            optimize_bytecode: false,
            target_jvm_version: 17,
            generate_stack_map_table: true,
        }
    }
}

/// Export adapter to JVM bytecode.
#[derive(Debug, Clone)]
pub struct JvmExportAdapter {
    config: JvmExportConfig,
}

/// A JVM instruction: opcode byte, operand bytes, and an optional note.
#[derive(Debug, Clone)]
pub struct JvmInstruction {
    pub opcode: u8,
    pub operands: Vec<u8>,
    pub metadata: Option<String>,
}

impl View for JvmInstruction {
    type V = CodeView;

    open spec fn view(&self) -> CodeView {
        CodeView {
            opcode: self.opcode,
            operands: self.operands@,
            metadata: text_view(self.metadata),
        }
    }
}

/// The `iconst_<n>` instruction (`iconst_m1` for -1) that pushes a small int.
pub open spec fn iconst(v: int) -> CodeView {
    code_view((v + 3) as u8, Seq::empty(), None)
}

/// How an int constant is pushed: `iconst_<n>` for -1..=5, `bipush` for a
/// byte, `sipush` for a short, and `ldc` of a pool entry otherwise.
pub open spec fn jvm_int_view(v: int) -> CodeView {
    if -1 <= v <= 5 {
        iconst(v)
    } else if -128 <= v <= 127 {
        code_view(0x10, be_bytes(v, 1), None)
    } else if -32768 <= v <= 32767 {
        code_view(0x11, be_bytes(v, 2), None)
    } else {
        code_view(0x12, seq![1u8], Some("constant: "@ + decimal_text(v)))
    }
}

/// Whether 32-bit float bits stand for zero (of either sign).
pub open spec fn f32_is_zero(bits: u32) -> bool {
    bits == 0 || bits == 0x8000_0000
}

/// Whether 64-bit float bits stand for zero (of either sign).
pub open spec fn f64_is_zero(bits: u64) -> bool {
    bits == 0 || bits == 0x8000_0000_0000_0000
}

/// A local-variable access: the short form for slots 0..=3, else the long
/// form with the slot's low byte.
pub open spec fn jvm_slot_view(index: u32, short_base: u8, long_opcode: u8) -> CodeView {
    if index < 4 {
        code_view((short_base + index) as u8, Seq::empty(), None)
    } else {
        code_view(long_opcode, seq![(index % 256) as u8], None)
    }
}

/// The JVM instruction that each flat instruction becomes.
pub open spec fn jvm_export_view(i: GaiaInstruction) -> CodeView {
    match i {
        GaiaInstruction::LoadConstant(c) => match c {
            GaiaConstant::Integer8(v) => if -1 <= v <= 5 {
                iconst(v as int)
            } else {
                code_view(0x10, be_bytes(v as int, 1), None)
            },
            GaiaConstant::Integer16(v) => if -1 <= v <= 5 {
                iconst(v as int)
            } else if -128 <= v <= 127 {
                code_view(0x10, be_bytes(v as int, 1), None)
            } else {
                code_view(0x11, be_bytes(v as int, 2), None)
            },
            GaiaConstant::Integer32(v) => jvm_int_view(v as int),
            GaiaConstant::Integer64(v) => if v == 0 {
                code_view(0x09, Seq::empty(), None)
            } else if v == 1 {
                code_view(0x0A, Seq::empty(), None)
            } else {
                code_view(0x14, seq![0u8, 1u8], Some("long constant: "@ + decimal_text(v as int)))
            },
            GaiaConstant::Float32 { bits, text } => if f32_is_zero(bits) {
                code_view(0x0B, Seq::empty(), None)
            } else if bits == 0x3F80_0000 {
                code_view(0x0C, Seq::empty(), None)
            } else if bits == 0x4000_0000 {
                code_view(0x0D, Seq::empty(), None)
            } else {
                code_view(0x12, seq![1u8], Some("float constant: "@ + text@))
            },
            GaiaConstant::Float64 { bits, text } => if f64_is_zero(bits) {
                code_view(0x0E, Seq::empty(), None)
            } else if bits == 0x3FF0_0000_0000_0000 {
                code_view(0x0F, Seq::empty(), None)
            } else {
                code_view(0x14, seq![0u8, 1u8], Some("double constant: "@ + text@))
            },
            GaiaConstant::String(_) => code_view(0x12, seq![1u8], Some("string constant"@)),
            GaiaConstant::Boolean(b) => code_view(
                if b {
                    0x04
                } else {
                    0x03
                },
                Seq::empty(),
                None,
            ),
            GaiaConstant::Null => code_view(0x01, Seq::empty(), None),
        },
        GaiaInstruction::LoadLocal(index) => jvm_slot_view(index, 0x1A, 0x19),
        GaiaInstruction::StoreLocal(index) => jvm_slot_view(index, 0x4C, 0x3A),
        GaiaInstruction::LoadArgument(index) => jvm_slot_view(index, 0x2A, 0x19),
        GaiaInstruction::Call(_) => code_view(0xB8, seq![0u8, 1u8], Some("method call"@)),
        GaiaInstruction::Return => code_view(0xB1, Seq::empty(), None),
        GaiaInstruction::Add => code_view(0x60, Seq::empty(), None),
        GaiaInstruction::Subtract => code_view(0x64, Seq::empty(), None),
        GaiaInstruction::Multiply => code_view(0x68, Seq::empty(), None),
        GaiaInstruction::Divide => code_view(0x6C, Seq::empty(), None),
        GaiaInstruction::Duplicate => code_view(0x59, Seq::empty(), None),
        GaiaInstruction::Pop => code_view(0x57, Seq::empty(), None),
        _ => code_view(0x00, Seq::empty(), None),
    }
}

pub open spec fn jvm_views(s: Seq<JvmInstruction>) -> Seq<CodeView> {
    s.map_values(|j: JvmInstruction| j@)
}

pub open spec fn jvm_export_views(s: Seq<GaiaInstruction>) -> Seq<CodeView> {
    s.map_values(|i: GaiaInstruction| jvm_export_view(i))
}

/// Four big-endian bytes of the low 32 bits of `x`.
pub open spec fn be4(x: int) -> Seq<u8> {
    le_bytes_u(x % 0x1_0000_0000, 4).reverse()
}

/// The fixed start of the class file, up to the Code attribute's length.
pub open spec fn jvm_class_prefix() -> Seq<u8> {
    seq![
        0xCAu8, 0xFE, 0xBA, 0xBE, 0x00, 0x00, 0x00, 0x3D,
        0x00, 0x01, 0x00, 0x21, 0x00, 0x00, 0x00, 0x00,
        0x00, 0x00, 0x00, 0x00, 0x00, 0x01,
        0x00, 0x09, 0x00, 0x00, 0x00, 0x00, 0x00, 0x01,
        0x00, 0x00
    ]
}

/// The class file around the instructions: the Code attribute's length is
/// the code bytes plus four, and its code-length field holds the number of
/// instructions.
pub open spec fn jvm_class(s: Seq<CodeView>) -> Seq<u8> {
    let code = code_bytes(s);
    jvm_class_prefix() + be4(code.len() + 4int) + seq![0x00u8, 0x02, 0x00, 0x01] + be4(s.len() as int)
        + code + seq![0x00u8, 0x00, 0x00, 0x00] + seq![0x00u8, 0x00]
}

fn jvm(opcode: u8) -> (r: JvmInstruction)
    ensures
        r@ == code_view(opcode, Seq::empty(), None),
{
    let operands: Vec<u8> = Vec::new();
    JvmInstruction { opcode, operands, metadata: None }
}

fn jvm_noted(opcode: u8, operands: Vec<u8>, note: String) -> (r: JvmInstruction)
    ensures
        r@ == code_view(opcode, operands@, Some(note@)),
{
    JvmInstruction { opcode, operands, metadata: Some(note) }
}

fn note(prefix: &str, rest: &String) -> (r: String)
    ensures
        r@ == prefix@ + rest@,
{
    let mut s = owned(prefix);
    push_str(&mut s, rest.as_str());
    s
}

fn pool1() -> (r: Vec<u8>)
    ensures
        r@ == seq![1u8],
{
    let v: Vec<u8> = vec![1];
    assert(v@ =~= seq![1u8]);
    v
}

fn pool2() -> (r: Vec<u8>)
    ensures
        r@ == seq![0u8, 1u8],
{
    let v: Vec<u8> = vec![0, 1];
    assert(v@ =~= seq![0u8, 1u8]);
    v
}

/// Pushes an int of any size (`iconst`, `bipush`, `sipush` or `ldc`).
fn push_int(v: i64) -> (r: JvmInstruction)
    requires
        i32::MIN <= v <= i32::MAX,
    ensures
        r@ == jvm_int_view(v as int),
{
    proof {
        crate::bytes::lemma_pow256_values();
    }
    if -1 <= v && v <= 5 {
        jvm((v + 3) as u8)
    } else if -128 <= v && v <= 127 {
        JvmInstruction { opcode: 0x10, operands: signed_be(v, 1), metadata: None }
    } else if -32768 <= v && v <= 32767 {
        JvmInstruction { opcode: 0x11, operands: signed_be(v, 2), metadata: None }
    } else {
        let digits = format_i64(v);
        jvm_noted(0x12, pool1(), note("constant: ", &digits))
    }
}

/// A local-variable access in short or long form.
fn slot(index: u32, short_base: u8, long_opcode: u8) -> (r: JvmInstruction)
    requires
        short_base <= 252,
    ensures
        r@ == jvm_slot_view(index, short_base, long_opcode),
{
    if index < 4 {
        jvm(short_base + index as u8)
    } else {
        let operands: Vec<u8> = vec![(index % 256) as u8];
        assert(operands@ =~= seq![(index % 256) as u8]);
        JvmInstruction { opcode: long_opcode, operands, metadata: None }
    }
}

impl JvmExportAdapter {
    /// An adapter with the default options.
    pub fn new() -> (r: Self)
        ensures
            r.config().is_default(),
            r.config().target_jvm_version == 17,
            r.config().generate_stack_map_table,
    {
        JvmExportAdapter { config: JvmExportConfig::default() }
    }

    /// An adapter with the given options.
    pub fn with_config(config: JvmExportConfig) -> (r: Self)
        ensures
            r.config() == config,
    {
        JvmExportAdapter { config }
    }

    pub closed spec fn config(&self) -> JvmExportConfig {
        self.config
    }

    /// Sets the JVM version to target.
    pub fn set_target_jvm_version(&mut self, version: u16)
        ensures
            final(self).config() == (JvmExportConfig {
                target_jvm_version: version,
                ..old(self).config()
            }),
    {
        self.config.target_jvm_version = version;
    }
}

impl Default for JvmExportAdapter {
    fn default() -> (r: Self)
        ensures
            r.config().target_jvm_version == 17,
    {
        Self::new()
    }
}

impl ExportAdapter<JvmInstruction> for JvmExportAdapter {
    fn export_instruction(&self, gaia_instruction: &GaiaInstruction) -> (r: Result<
        JvmInstruction,
        GaiaError,
    >)
        ensures
            r matches Ok(j) && j@ == jvm_export_view(*gaia_instruction),
    {
        proof {
            crate::bytes::lemma_pow256_values();
        }
        match gaia_instruction {
            GaiaInstruction::LoadConstant(constant) => match constant {
                GaiaConstant::Integer8(value) => {
                    let v = *value as i64;
                    if -1 <= v && v <= 5 {
                        Ok(jvm((v + 3) as u8))
                    } else {
                        Ok(JvmInstruction { opcode: 0x10, operands: signed_be(v, 1), metadata: None })
                    }
                },
                GaiaConstant::Integer16(value) => {
                    let v = *value as i64;
                    if -1 <= v && v <= 5 {
                        Ok(jvm((v + 3) as u8))
                    } else if -128 <= v && v <= 127 {
                        Ok(JvmInstruction { opcode: 0x10, operands: signed_be(v, 1), metadata: None })
                    } else {
                        Ok(JvmInstruction { opcode: 0x11, operands: signed_be(v, 2), metadata: None })
                    }
                },
                GaiaConstant::Integer32(value) => Ok(push_int(*value as i64)),
                GaiaConstant::Integer64(value) => {
                    if *value == 0 {
                        Ok(jvm(0x09))
                    } else if *value == 1 {
                        Ok(jvm(0x0A))
                    } else {
                        let digits = format_i64(*value);
                        Ok(jvm_noted(0x14, pool2(), note("long constant: ", &digits)))
                    }
                },
                GaiaConstant::Float32 { bits, text } => {
                    if *bits == 0 || *bits == 0x8000_0000 {
                        Ok(jvm(0x0B))
                    } else if *bits == 0x3F80_0000 {
                        Ok(jvm(0x0C))
                    } else if *bits == 0x4000_0000 {
                        Ok(jvm(0x0D))
                    } else {
                        Ok(jvm_noted(0x12, pool1(), note("float constant: ", text)))
                    }
                },
                GaiaConstant::Float64 { bits, text } => {
                    if *bits == 0 || *bits == 0x8000_0000_0000_0000 {
                        Ok(jvm(0x0E))
                    } else if *bits == 0x3FF0_0000_0000_0000 {
                        Ok(jvm(0x0F))
                    } else {
                        Ok(jvm_noted(0x14, pool2(), note("double constant: ", text)))
                    }
                },
                GaiaConstant::String(_value) => Ok(
                    jvm_noted(0x12, pool1(), owned("string constant")),
                ),
                GaiaConstant::Boolean(value) => Ok(
                    jvm(
                        if *value {
                            0x04
                        } else {
                            0x03
                        },
                    ),
                ),
                GaiaConstant::Null => Ok(jvm(0x01)),
            },
            GaiaInstruction::LoadLocal(index) => Ok(slot(*index, 0x1A, 0x19)),
            GaiaInstruction::StoreLocal(index) => Ok(slot(*index, 0x4C, 0x3A)),
            GaiaInstruction::LoadArgument(index) => Ok(slot(*index, 0x2A, 0x19)),
            GaiaInstruction::Call(_function_name) => Ok(
                jvm_noted(0xB8, pool2(), owned("method call")),
            ),
            GaiaInstruction::Return => Ok(jvm(0xB1)),
            GaiaInstruction::Add => Ok(jvm(0x60)),
            GaiaInstruction::Subtract => Ok(jvm(0x64)),
            GaiaInstruction::Multiply => Ok(jvm(0x68)),
            GaiaInstruction::Divide => Ok(jvm(0x6C)),
            GaiaInstruction::Duplicate => Ok(jvm(0x59)),
            GaiaInstruction::Pop => Ok(jvm(0x57)),
            _ => Ok(jvm(0x00)),
        }
    }

    fn export_program(&self, gaia_program: &GaiaProgram) -> (r: Result<
        Vec<JvmInstruction>,
        GaiaError,
    >)
        ensures
            r matches Ok(v) && jvm_views(v@) == jvm_export_views(
                program_instructions(gaia_program.functions@),
            ),
    {
        let mut out: Vec<JvmInstruction> = Vec::new();
        let fs = &gaia_program.functions;
        let mut i: usize = 0;
        while i < fs.len()
            invariant
                i <= fs.len(),
                jvm_views(out@) == jvm_export_views(program_instructions(fs@.take(i as int))),
            decreases fs.len() - i,
        {
            let instrs = &fs[i].instructions;
            let mut j: usize = 0;
            while j < instrs.len()
                invariant
                    i < fs.len(),
                    instrs == fs@[i as int].instructions,
                    j <= instrs.len(),
                    jvm_views(out@) == jvm_export_views(
                        program_instructions(fs@.take(i as int)) + instrs@.take(j as int),
                    ),
                decreases instrs.len() - j,
            {
                let r = self.export_instruction(&instrs[j]);
                match r {
                    Ok(w) => {
                        let ghost before = out@;
                        out.push(w);
                        proof {
                            let p = program_instructions(fs@.take(i as int));
                            assert(p + instrs@.take(j + 1) =~= (p + instrs@.take(j as int)).push(
                                instrs@[j as int],
                            ));
                            assert(jvm_views(out@) =~= jvm_views(before).push(w@));
                        }
                        j = j + 1;
                        assert(jvm_views(out@) =~= jvm_export_views(
                            program_instructions(fs@.take(i as int)) + instrs@.take(j as int),
                        ));
                    },
                    Err(e) => {
                        return Err(e);
                    },
                }
            }
            proof {
                assert(fs@.take(i + 1).drop_last() =~= fs@.take(i as int));
                assert(instrs@.take(j as int) =~= instrs@);
            }
            i = i + 1;
        }
        assert(fs@.take(i as int) =~= fs@);
        Ok(out)
    }

    fn adapter_name(&self) -> (r: &'static str)
        ensures
            r@ == "JVM Export Adapter"@,
    {
        "JVM Export Adapter"
    }

    fn generate_binary(&self, jvm_instructions: &[JvmInstruction]) -> (r: Result<
        Vec<u8>,
        GaiaError,
    >)
        ensures
            r matches Ok(b) && b@ == jvm_class(jvm_views(jvm_instructions@)),
    {
        let ghost views = jvm_views(jvm_instructions@);
        let mut code: Vec<u8> = Vec::new();
        let mut k: usize = 0;
        while k < jvm_instructions.len()
            invariant
                k <= jvm_instructions@.len(),
                views == jvm_views(jvm_instructions@),
                code@ == code_bytes(views.take(k as int)),
            decreases jvm_instructions@.len() - k,
        {
            let ins = &jvm_instructions[k];
            code.push(ins.opcode);
            let mut m: usize = 0;
            let ghost base = code@;
            while m < ins.operands.len()
                invariant
                    m <= ins.operands@.len(),
                    code@ == base + ins.operands@.take(m as int),
                decreases ins.operands@.len() - m,
            {
                code.push(ins.operands[m]);
                m = m + 1;
                assert(code@ =~= base + ins.operands@.take(m as int));
            }
            proof {
                assert(ins.operands@.take(m as int) =~= ins.operands@);
                assert(views.take(k + 1).drop_last() =~= views.take(k as int));
                assert(views[k as int] == ins@);
            }
            k = k + 1;
            assert(code@ =~= code_bytes(views.take(k as int)));
        }
        assert(views.take(k as int) =~= views);
        let mut bytecode: Vec<u8> = vec![
            0xCA, 0xFE, 0xBA, 0xBE, 0x00, 0x00, 0x00, 0x3D,
            0x00, 0x01, 0x00, 0x21, 0x00, 0x00, 0x00, 0x00,
            0x00, 0x00, 0x00, 0x00, 0x00, 0x01,
            0x00, 0x09, 0x00, 0x00, 0x00, 0x00, 0x00, 0x01,
            0x00, 0x00
        ];
        assert(bytecode@ =~= jvm_class_prefix());
        let attr_len: u128 = (code.len() as u128 + 4) % 0x1_0000_0000;
        let attr = be_bytes_of(attr_len, 4);
        bytecode.extend_from_slice(attr.as_slice());
        let limits: Vec<u8> = vec![0x00, 0x02, 0x00, 0x01];
        bytecode.extend_from_slice(limits.as_slice());
        let count: u128 = (jvm_instructions.len() as u128) % 0x1_0000_0000;
        let count_bytes = be_bytes_of(count, 4);
        bytecode.extend_from_slice(count_bytes.as_slice());
        bytecode.extend_from_slice(code.as_slice());
        let tail: Vec<u8> = vec![0x00, 0x00, 0x00, 0x00, 0x00, 0x00];
        bytecode.extend_from_slice(tail.as_slice());
        assert(bytecode@ =~= jvm_class(views));
        Ok(bytecode)
    }
}

} // verus!
