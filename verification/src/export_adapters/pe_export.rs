//! Export to x86-64 assembly instructions and a sketch PE binary.
use vstd::prelude::*;
use super::ExportAdapter;
use crate::bytes::{i32_le, le_bytes};
use crate::error::GaiaError;
use crate::ir::{GaiaConstant, GaiaFunction, GaiaInstruction, GaiaProgram};
use crate::target::Architecture;
use crate::text::{
    copy_string, decimal_text, format_i64, format_u64, owned, parse_i32, parse_i32_spec, push_str,
    str_eq, string_views,
};

verus! {

/// Options of the PE export.
#[derive(Debug, Clone)]
pub struct PeExportConfig {
    pub target_arch: Architecture,
    pub generate_debug_info: bool,
    pub optimize: bool,
    pub entry_point: String,
}

impl PeExportConfig {
    /// The default options.
    pub open spec fn is_default(&self) -> bool {
        &&& self.target_arch@ == crate::target::ArchitectureView::X86_64
        &&& !self.generate_debug_info
        &&& !self.optimize
        &&& self.entry_point@ == "main"@
    }
}

impl Default for PeExportConfig {
    fn default() -> (r: Self)
        ensures
            r.is_default(),
            r.target_arch@ == crate::target::ArchitectureView::X86_64,
            !r.generate_debug_info,
            !r.optimize,
            r.entry_point@ == "main"@,
    {
        PeExportConfig {
            target_arch: Architecture::X86_64,
            generate_debug_info: false,
            optimize: false,
            entry_point: owned("main"),
        }
    }
}

/// Export adapter to x86-64 assembly for PE images.
#[derive(Debug, Clone)]
pub struct PeExportAdapter {
    config: PeExportConfig,
}

/// An assembly instruction: mnemonic and operand texts.
#[derive(Debug, Clone)]
pub struct PeInstruction {
    pub opcode: String,
    pub operands: Vec<String>,
}

/// Spec view of an assembly instruction.
pub struct PeView {
    pub opcode: Seq<char>,
    pub operands: Seq<Seq<char>>,
}

impl View for PeInstruction {
    type V = PeView;

    open spec fn view(&self) -> PeView {
        PeView { opcode: self.opcode@, operands: string_views(self.operands@) }
    }
}

pub open spec fn pe(opcode: Seq<char>, operands: Seq<Seq<char>>) -> PeView {
    PeView { opcode, operands }
}

/// The stack slot of local `index`: `[rbp-<4 * (index + 1)>]`.
pub open spec fn pe_local_slot(index: u32) -> Seq<char> {
    "[rbp-"@ + decimal_text((index + 1) * 4) + "]"@
}

/// The assembly instruction that each flat instruction becomes.
pub open spec fn pe_export_view(i: GaiaInstruction) -> PeView {
    match i {
        GaiaInstruction::LoadConstant(c) => match c {
            GaiaConstant::Integer8(v) => pe("mov"@, seq!["al"@, decimal_text(v as int)]),
            GaiaConstant::Integer16(v) => pe("mov"@, seq!["ax"@, decimal_text(v as int)]),
            GaiaConstant::Integer32(v) => pe("mov"@, seq!["eax"@, decimal_text(v as int)]),
            GaiaConstant::Integer64(v) => pe("mov"@, seq!["rax"@, decimal_text(v as int)]),
            GaiaConstant::String(s) => pe("lea"@, seq!["rax"@, "["@ + s@ + "]"@]),
            GaiaConstant::Boolean(b) => pe(
                "mov"@,
                seq![
                    "eax"@,
                    if b {
                        "1"@
                    } else {
                        "0"@
                    },
                ],
            ),
            _ => pe("nop"@, Seq::empty()),
        },
        GaiaInstruction::LoadLocal(index) => pe("mov"@, seq!["eax"@, pe_local_slot(index)]),
        GaiaInstruction::StoreLocal(index) => pe("mov"@, seq![pe_local_slot(index), "eax"@]),
        GaiaInstruction::Call(name) => pe("call"@, seq![name@]),
        GaiaInstruction::Return => pe("ret"@, Seq::empty()),
        GaiaInstruction::Add => pe("add"@, seq!["eax"@, "ebx"@]),
        GaiaInstruction::Subtract => pe("sub"@, seq!["eax"@, "ebx"@]),
        _ => pe("nop"@, Seq::empty()),
    }
}

pub open spec fn pe_export_views(s: Seq<GaiaInstruction>) -> Seq<PeView> {
    s.map_values(|i: GaiaInstruction| pe_export_view(i))
}

pub open spec fn pe_views(s: Seq<PeInstruction>) -> Seq<PeView> {
    s.map_values(|i: PeInstruction| i@)
}

pub open spec fn has_return(s: Seq<GaiaInstruction>) -> bool {
    exists|k: int| 0 <= k < s.len() && s[k] is Return
}

/// A function: its label, the prologue, its body, and an epilogue when the
/// body has no `Return`.
pub open spec fn pe_function_views(f: GaiaFunction) -> Seq<PeView> {
    seq![
        pe("label"@, seq![f.name@]),
        pe("push"@, seq!["rbp"@]),
        pe("mov"@, seq!["rbp"@, "rsp"@]),
    ] + pe_export_views(f.instructions@) + (if has_return(f.instructions@) {
        Seq::empty()
    } else {
        seq![pe("pop"@, seq!["rbp"@]), pe("ret"@, Seq::empty())]
    })
}

pub open spec fn pe_functions_views(fs: Seq<GaiaFunction>) -> Seq<PeView>
    decreases fs.len(),
{
    if fs.len() == 0 {
        Seq::empty()
    } else {
        pe_functions_views(fs.drop_last()) + pe_function_views(fs.last())
    }
}

/// A program: the text section, then each function.
pub open spec fn pe_program_views(fs: Seq<GaiaFunction>) -> Seq<PeView> {
    seq![pe("section"@, seq![".text"@])] + pe_functions_views(fs)
}

/// The bytes of one instruction: `mov` with its immediate when the second
/// operand reads as an `i32`, `call rel32` with a zero offset, `ret`, and
/// `nop` for the rest.
pub open spec fn pe_instruction_bytes(v: PeView) -> Seq<u8> {
    if v.opcode == "mov"@ {
        seq![0xB8u8] + (if v.operands.len() >= 2 {
            match parse_i32_spec(v.operands[1]) {
                Some(x) => le_bytes(x as int, 4),
                None => Seq::empty(),
            }
        } else {
            Seq::empty()
        })
    } else if v.opcode == "call"@ {
        seq![0xE8u8, 0, 0, 0, 0]
    } else if v.opcode == "ret"@ {
        seq![0xC3u8]
    } else {
        seq![0x90u8]
    }
}

pub open spec fn pe_code(s: Seq<PeView>) -> Seq<u8>
    decreases s.len(),
{
    if s.len() == 0 {
        Seq::empty()
    } else {
        pe_code(s.drop_last()) + pe_instruction_bytes(s.last())
    }
}

/// The DOS signature padded to 64 bytes, the PE signature, then the code.
pub open spec fn pe_image(s: Seq<PeView>) -> Seq<u8> {
    seq![0x4Du8, 0x5A] + Seq::new(62, |i: int| 0u8) + seq![0x50u8, 0x45, 0, 0] + pe_code(s)
}

fn ins(opcode: &str, operands: Vec<String>) -> (r: PeInstruction)
    ensures
        r@ == pe(opcode@, string_views(operands@)),
{
    PeInstruction { opcode: owned(opcode), operands }
}

fn none() -> (r: Vec<String>)
    ensures
        string_views(r@) == Seq::<Seq<char>>::empty(),
{
    let v: Vec<String> = Vec::new();
    assert(string_views(v@) =~= Seq::<Seq<char>>::empty());
    v
}

fn one(a: String) -> (r: Vec<String>)
    ensures
        string_views(r@) == seq![a@],
{
    let v: Vec<String> = vec![a];
    assert(string_views(v@) =~= seq![a@]);
    v
}

fn two(a: String, b: String) -> (r: Vec<String>)
    ensures
        string_views(r@) == seq![a@, b@],
{
    let v: Vec<String> = vec![a, b];
    assert(string_views(v@) =~= seq![a@, b@]);
    v
}

fn local_slot(index: u32) -> (r: String)
    ensures
        r@ == pe_local_slot(index),
{
    let mut s = owned("[rbp-");
    let offset: u64 = (index as u64 + 1) * 4;
    let digits = format_u64(offset);
    push_str(&mut s, digits.as_str());
    push_str(&mut s, "]");
    s
}

impl PeExportAdapter {
    /// An adapter with the default options.
    pub fn new() -> (r: Self)
        ensures
            r.config().is_default(),
            r.config().entry_point@ == "main"@,
    {
        PeExportAdapter { config: PeExportConfig::default() }
    }

    /// An adapter with the given options.
    pub fn with_config(config: PeExportConfig) -> (r: Self)
        ensures
            r.config() == config,
    {
        PeExportAdapter { config }
    }

    pub closed spec fn config(&self) -> PeExportConfig {
        self.config
    }

    /// Sets the architecture to target.
    pub fn set_target_arch(&mut self, arch: Architecture)
        ensures
            final(self).config() == (PeExportConfig { target_arch: arch, ..old(self).config() }),
    {
        self.config.target_arch = arch;
    }

    /// Sets the entry point's name.
    pub fn set_entry_point(&mut self, entry_point: String)
        ensures
            final(self).config() == (PeExportConfig {
                entry_point: entry_point,
                ..old(self).config()
            }),
    {
        self.config.entry_point = entry_point;
    }
}

impl Default for PeExportAdapter {
    fn default() -> (r: Self)
        ensures
            r.config().entry_point@ == "main"@,
    {
        Self::new()
    }
}

impl ExportAdapter<PeInstruction> for PeExportAdapter {
    fn export_instruction(&self, gaia_instruction: &GaiaInstruction) -> (r: Result<
        PeInstruction,
        GaiaError,
    >)
        ensures
            r matches Ok(x) && x@ == pe_export_view(*gaia_instruction),
    {
        match gaia_instruction {
            GaiaInstruction::LoadConstant(constant) => match constant {
                GaiaConstant::Integer8(value) => Ok(
                    ins("mov", two(owned("al"), format_i64(*value as i64))),
                ),
                GaiaConstant::Integer16(value) => Ok(
                    ins("mov", two(owned("ax"), format_i64(*value as i64))),
                ),
                GaiaConstant::Integer32(value) => Ok(
                    ins("mov", two(owned("eax"), format_i64(*value as i64))),
                ),
                GaiaConstant::Integer64(value) => Ok(
                    ins("mov", two(owned("rax"), format_i64(*value))),
                ),
                GaiaConstant::String(value) => {
                    let mut address = owned("[");
                    push_str(&mut address, value.as_str());
                    push_str(&mut address, "]");
                    Ok(ins("lea", two(owned("rax"), address)))
                },
                GaiaConstant::Boolean(value) => Ok(
                    ins(
                        "mov",
                        two(
                            owned("eax"),
                            if *value {
                                owned("1")
                            } else {
                                owned("0")
                            },
                        ),
                    ),
                ),
                _ => Ok(ins("nop", none())),
            },
            GaiaInstruction::LoadLocal(index) => Ok(
                ins("mov", two(owned("eax"), local_slot(*index))),
            ),
            GaiaInstruction::StoreLocal(index) => Ok(
                ins("mov", two(local_slot(*index), owned("eax"))),
            ),
            GaiaInstruction::Call(function_name) => Ok(
                ins("call", one(copy_string(function_name))),
            ),
            GaiaInstruction::Return => Ok(ins("ret", none())),
            GaiaInstruction::Add => Ok(ins("add", two(owned("eax"), owned("ebx")))),
            GaiaInstruction::Subtract => Ok(ins("sub", two(owned("eax"), owned("ebx")))),
            _ => Ok(ins("nop", none())),
        }
    }

    fn export_program(&self, gaia_program: &GaiaProgram) -> (r: Result<
        Vec<PeInstruction>,
        GaiaError,
    >)
        ensures
            r matches Ok(v) && pe_views(v@) == pe_program_views(gaia_program.functions@),
    {
        let mut out: Vec<PeInstruction> = Vec::new();
        out.push(ins("section", one(owned(".text"))));
        let fs = &gaia_program.functions;
        assert(pe_views(out@) =~= pe_program_views(fs@.take(0)));
        let mut i: usize = 0;
        while i < fs.len()
            invariant
                i <= fs.len(),
                pe_views(out@) == pe_program_views(fs@.take(i as int)),
            decreases fs.len() - i,
        {
            let f = &fs[i];
            let ghost start = pe_views(out@);
            out.push(ins("label", one(copy_string(&f.name))));
            out.push(ins("push", one(owned("rbp"))));
            out.push(ins("mov", two(owned("rbp"), owned("rsp"))));
            let ghost head = pe_views(out@);
            assert(head =~= start + seq![
                pe("label"@, seq![f.name@]),
                pe("push"@, seq!["rbp"@]),
                pe("mov"@, seq!["rbp"@, "rsp"@]),
            ]);
            let instrs = &f.instructions;
            let mut saw_return = false;
            let mut j: usize = 0;
            while j < instrs.len()
                invariant
                    i < fs.len(),
                    f == &fs@[i as int],
                    instrs == f.instructions,
                    j <= instrs.len(),
                    pe_views(out@) == head + pe_export_views(instrs@.take(j as int)),
                    saw_return == has_return(instrs@.take(j as int)),
                decreases instrs.len() - j,
            {
                let is_ret = matches!(instrs[j], GaiaInstruction::Return);
                let r = self.export_instruction(&instrs[j]);
                match r {
                    Ok(x) => {
                        let ghost before = out@;
                        out.push(x);
                        proof {
                            assert(pe_views(out@) =~= pe_views(before).push(x@));
                            let t = instrs@.take(j + 1);
                            assert(t =~= instrs@.take(j as int).push(instrs@[j as int]));
                            assert(pe_export_views(t) =~= pe_export_views(
                                instrs@.take(j as int),
                            ).push(pe_export_view(instrs@[j as int])));
                            if is_ret {
                                assert(t[j as int] is Return);
                            }
                            if has_return(t) && !is_ret {
                                let k = choose|k: int| 0 <= k < t.len() && t[k] is Return;
                                assert(instrs@.take(j as int)[k] is Return);
                            }
                            if saw_return {
                                let k = choose|k: int|
                                    0 <= k < j && instrs@.take(j as int)[k] is Return;
                                assert(t[k] is Return);
                            }
                        }
                        saw_return = saw_return || is_ret;
                        j = j + 1;
                    },
                    Err(e) => {
                        return Err(e);
                    },
                }
            }
            assert(instrs@.take(j as int) =~= instrs@);
            let ghost body_end = pe_views(out@);
            if !saw_return {
                out.push(ins("pop", one(owned("rbp"))));
                out.push(ins("ret", none()));
                assert(pe_views(out@) =~= body_end + seq![pe("pop"@, seq!["rbp"@]), pe("ret"@, Seq::empty())]);
            } else {
                assert(pe_views(out@) =~= body_end + Seq::<PeView>::empty());
            }
            proof {
                assert(fs@.take(i + 1).drop_last() =~= fs@.take(i as int));
                assert(pe_views(out@) =~= start + pe_function_views(fs@[i as int]));
            }
            i = i + 1;
            assert(pe_views(out@) =~= pe_program_views(fs@.take(i as int)));
        }
        assert(fs@.take(i as int) =~= fs@);
        Ok(out)
    }

    fn adapter_name(&self) -> (r: &'static str)
        ensures
            r@ == "PE Export Adapter"@,
    {
        "PE Export Adapter"
    }

    fn generate_binary(&self, pe_instructions: &[PeInstruction]) -> (r: Result<
        Vec<u8>,
        GaiaError,
    >)
        ensures
            r matches Ok(b) && b@ == pe_image(pe_views(pe_instructions@)),
    {
        let ghost views = pe_views(pe_instructions@);
        let mut binary: Vec<u8> = vec![0x4D, 0x5A];
        let mut z: usize = 0;
        while z < 62
            invariant
                z <= 62,
                binary@ == seq![0x4Du8, 0x5A] + Seq::new(z as nat, |i: int| 0u8),
            decreases 62 - z,
        {
            binary.push(0);
            z = z + 1;
            assert(binary@ =~= seq![0x4Du8, 0x5A] + Seq::new(z as nat, |i: int| 0u8));
        }
        binary.push(0x50);
        binary.push(0x45);
        binary.push(0);
        binary.push(0);
        let ghost header = binary@;
        let mut k: usize = 0;
        while k < pe_instructions.len()
            invariant
                k <= pe_instructions@.len(),
                views == pe_views(pe_instructions@),
                binary@ == header + pe_code(views.take(k as int)),
            decreases pe_instructions@.len() - k,
        {
            let x = &pe_instructions[k];
            let ghost before = binary@;
            if str_eq(x.opcode.as_str(), "mov") {
                binary.push(0xB8);
                if x.operands.len() >= 2 {
                    match parse_i32(x.operands[1].as_str()) {
                        Some(value) => {
                            let b = i32_le(value);
                            binary.extend_from_slice(b.as_slice());
                        },
                        None => {},
                    }
                }
            } else if str_eq(x.opcode.as_str(), "call") {
                binary.push(0xE8);
                binary.push(0);
                binary.push(0);
                binary.push(0);
                binary.push(0);
            } else if str_eq(x.opcode.as_str(), "ret") {
                binary.push(0xC3);
            } else {
                binary.push(0x90);
            }
            proof {
                assert(views[k as int] == x@);
                assert(binary@ =~= before + pe_instruction_bytes(x@));
                assert(views.take(k + 1).drop_last() =~= views.take(k as int));
            }
            k = k + 1;
        }
        assert(views.take(k as int) =~= views);
        assert(binary@ =~= pe_image(views));
        Ok(binary)
    }
}

} // verus!
