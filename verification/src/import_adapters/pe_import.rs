//! Import from x86-64 assembly instructions.
use vstd::prelude::*;
use super::{import_matches, ImportAdapter, ImportView};
use crate::error::GaiaError;
use crate::export_adapters::pe_export::{pe_export_view, PeInstruction, PeView};
use crate::ir::{ConstView, GaiaConstant, GaiaFunction, GaiaInstruction, GaiaProgram, InstrView};
use crate::target::{Architecture, ArchitectureView};
use crate::text::{
    copy_string, decimal_text, lemma_parse_decimal_text, owned, parse_i32, parse_i32_spec, str_eq,
};

verus! {

/// Options of the PE import.
#[derive(Debug, Clone)]
pub struct PeImportConfig {
    pub parse_debug_info: bool,
    pub parse_relocations: bool,
}

impl PeImportConfig {
    /// The default options.
    pub open spec fn is_default(&self) -> bool {
        &&& !self.parse_debug_info
        &&& self.parse_relocations
    }
}

impl Default for PeImportConfig {
    fn default() -> (r: Self)
        ensures
            r.is_default(),
            !r.parse_debug_info,
            r.parse_relocations,
    {
        PeImportConfig { parse_debug_info: false, parse_relocations: true }
    }
}

/// Import adapter from x86-64 assembly.
#[derive(Debug, Clone)]
pub struct PeImportAdapter {
    config: PeImportConfig,
}

/// What each assembly instruction becomes: `mov` loads its second operand
/// when that reads as an `i32` (else local 0), `call` calls its target, `ret`
/// returns; anything else is refused with the mnemonic as the message.
pub open spec fn pe_import_view(v: PeView) -> ImportView {
    let op = v.opcode;
    let ops = v.operands;
    if op == "mov"@ {
        if ops.len() >= 2 {
            match parse_i32_spec(ops[1]) {
                Some(x) => ImportView::Instr(InstrView::LoadConstant(ConstView::Integer32(x))),
                None => ImportView::Instr(InstrView::LoadLocal(0)),
            }
        } else {
            ImportView::Invalid(op)
        }
    } else if op == "call"@ {
        if ops.len() > 0 {
            ImportView::Instr(InstrView::Call(ops[0]))
        } else {
            ImportView::Invalid(op)
        }
    } else if op == "ret"@ {
        ImportView::Instr(InstrView::Return)
    } else {
        ImportView::Invalid(op)
    }
}

fn refuse(opcode: &String) -> (r: Result<GaiaInstruction, GaiaError>)
    ensures
        import_matches(r, ImportView::Invalid(opcode@), ArchitectureView::X86_64),
{
    Err(GaiaError::invalid_instruction(opcode.as_str(), Architecture::X86_64))
}

impl PeImportAdapter {
    /// An adapter with the default options.
    pub fn new() -> (r: Self)
        ensures
            r.config().is_default(),
            r.config().parse_relocations,
    {
        PeImportAdapter { config: PeImportConfig::default() }
    }

    /// An adapter with the given options.
    pub fn with_config(config: PeImportConfig) -> (r: Self)
        ensures
            r.config() == config,
    {
        PeImportAdapter { config }
    }

    pub closed spec fn config(&self) -> PeImportConfig {
        self.config
    }
}

impl Default for PeImportAdapter {
    fn default() -> (r: Self)
        ensures
            r.config().parse_relocations,
    {
        Self::new()
    }
}

impl ImportAdapter<PeInstruction> for PeImportAdapter {
    fn import_instruction(&self, pe_instruction: &PeInstruction) -> (r: Result<
        GaiaInstruction,
        GaiaError,
    >)
        ensures
            import_matches(r, pe_import_view(pe_instruction@), ArchitectureView::X86_64),
    {
        let op = pe_instruction.opcode.as_str();
        let ops = &pe_instruction.operands;
        if str_eq(op, "mov") {
            if ops.len() >= 2 {
                match parse_i32(ops[1].as_str()) {
                    Some(value) => Ok(GaiaInstruction::LoadConstant(GaiaConstant::Integer32(value))),
                    None => Ok(GaiaInstruction::LoadLocal(0)),
                }
            } else {
                refuse(&pe_instruction.opcode)
            }
        } else if str_eq(op, "call") {
            if ops.len() > 0 {
                Ok(GaiaInstruction::Call(copy_string(&ops[0])))
            } else {
                refuse(&pe_instruction.opcode)
            }
        } else if str_eq(op, "ret") {
            Ok(GaiaInstruction::Return)
        } else {
            refuse(&pe_instruction.opcode)
        }
    }

    fn import_program(&self, pe_instructions: &[PeInstruction]) -> (r: Result<
        GaiaProgram,
        GaiaError,
    >)
        ensures
            match r {
                Ok(p) => {
                    &&& p.name@ == "imported_pe_program"@
                    &&& p.constants@.len() == 0
                    &&& p.functions@.len() == 1
                    &&& p.functions@[0].name@ == "main"@
                    &&& p.functions@[0].parameters@.len() == 0
                    &&& p.functions@[0].return_type is None
                    &&& p.functions@[0].locals@.len() == 0
                    &&& p.functions@[0].instructions@.len() == pe_instructions@.len()
                    &&& forall|k: int|
                        0 <= k < pe_instructions@.len() ==> pe_import_view(
                            #[trigger] pe_instructions@[k]@,
                        ) == ImportView::Instr(p.functions@[0].instructions@[k]@)
                },
                Err(e) => exists|k: int|
                    0 <= k < pe_instructions@.len() && (forall|j: int|
                        0 <= j < k ==> #[trigger] pe_import_view(pe_instructions@[j]@) is Instr)
                        && import_matches(
                        Err(e),
                        pe_import_view(pe_instructions@[k]@),
                        ArchitectureView::X86_64,
                    ),
            },
    {
        let mut instructions: Vec<GaiaInstruction> = Vec::new();
        let mut k: usize = 0;
        while k < pe_instructions.len()
            invariant
                k <= pe_instructions@.len(),
                instructions@.len() == k,
                forall|j: int|
                    0 <= j < k ==> pe_import_view(#[trigger] pe_instructions@[j]@)
                        == ImportView::Instr(instructions@[j]@),
            decreases pe_instructions@.len() - k,
        {
            let r = self.import_instruction(&pe_instructions[k]);
            match r {
                Ok(g) => {
                    instructions.push(g);
                },
                Err(e) => {
                    assert(forall|j: int|
                        0 <= j < k ==> #[trigger] pe_import_view(pe_instructions@[j]@) is Instr);
                    return Err(e);
                },
            }
            k = k + 1;
        }
        let main_function = GaiaFunction {
            name: owned("main"),
            parameters: Vec::new(),
            return_type: None,
            locals: Vec::new(),
            instructions,
        };
        Ok(
            GaiaProgram {
                name: owned("imported_pe_program"),
                functions: vec![main_function],
                constants: Vec::new(),
            },
        )
    }

    fn adapter_name(&self) -> (r: &'static str)
        ensures
            r@ == "PE Import Adapter"@,
    {
        "PE Import Adapter"
    }
}

/// The flat instructions that come back unchanged from assembly: 32-bit
/// integer constants, calls and returns.
pub open spec fn pe_round_trips(i: InstrView) -> bool {
    match i {
        InstrView::LoadConstant(ConstView::Integer32(_)) => true,
        InstrView::Call(_) => true,
        InstrView::Return => true,
        _ => false,
    }
}

/// Exporting an instruction to assembly and importing the result gives the
/// instruction back, for every instruction that assembly carries whole.
pub proof fn law_pe_round_trip(i: GaiaInstruction)
    requires
        pe_round_trips(i@),
    ensures
        pe_import_view(pe_export_view(i)) == ImportView::Instr(i@),
{
    reveal_strlit("mov");
    reveal_strlit("call");
    reveal_strlit("ret");
    assert("mov"@[0] == 'm' && "call"@[0] == 'c' && "ret"@[0] == 'r');
    assert("mov"@.len() == 3 && "call"@.len() == 4 && "ret"@.len() == 3);
    match i {
        GaiaInstruction::LoadConstant(GaiaConstant::Integer32(v)) => {
            lemma_parse_decimal_text(v as int, i32::MIN as int, i32::MAX as int, true);
            assert(parse_i32_spec(decimal_text(v as int)) == Some(v));
            assert(pe_export_view(i).opcode == "mov"@);
            assert(pe_export_view(i).operands[1] == decimal_text(v as int));
        },
        _ => {},
    }
}

} // verus!
