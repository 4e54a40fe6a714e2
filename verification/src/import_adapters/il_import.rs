//! Import from .NET IL instructions.
use vstd::prelude::*;
use super::{import_matches, ImportAdapter, ImportView};
use crate::error::GaiaError;
use crate::export_adapters::il_export::{il_export_view, IlInstruction, IlView};
use crate::ir::{ConstView, GaiaConstant, GaiaFunction, GaiaInstruction, GaiaProgram, InstrView};
use crate::target::{Architecture, ArchitectureView};
use crate::text::{
    copy_string, decimal_text, lemma_parse_decimal_text, owned, parse_i32, parse_i32_spec,
    parse_i64, parse_i64_spec, parse_u32, parse_u32_spec, str_eq,
};

verus! {

/// Options of the IL import.
#[derive(Debug, Clone)]
pub struct IlImportConfig {
    pub parse_metadata: bool,
    pub parse_debug_info: bool,
}

impl IlImportConfig {
    /// The default options.
    pub open spec fn is_default(&self) -> bool {
        &&& self.parse_metadata
        &&& !self.parse_debug_info
    }
}

impl Default for IlImportConfig {
    fn default() -> (r: Self)
        ensures
            r.is_default(),
            r.parse_metadata,
            !r.parse_debug_info,
    {
        IlImportConfig { parse_metadata: true, parse_debug_info: false }
    }
}

/// Import adapter from .NET IL.
#[derive(Debug, Clone)]
pub struct IlImportAdapter {
    config: IlImportConfig,
}

pub open spec fn il_arch() -> ArchitectureView {
    ArchitectureView::Other("IL"@)
}

/// The slot that `ldloc`/`stloc` name: the operand read as a `u32`, 0 when
/// it is missing or is not a `u32`.
pub open spec fn il_slot_operand(ops: Seq<Seq<char>>) -> u32 {
    if ops.len() > 0 {
        match parse_u32_spec(ops[0]) {
            Some(v) => v,
            None => 0,
        }
    } else {
        0
    }
}

/// What each IL instruction becomes; an unknown opcode is refused with the
/// opcode as the message.
pub open spec fn il_import_view(v: IlView) -> ImportView {
    let op = v.opcode;
    let ops = v.operands;
    let refused = ImportView::Invalid(op);
    if op == "ldconst"@ || op == "ldc.i4"@ {
        if ops.len() > 0 {
            match parse_i32_spec(ops[0]) {
                Some(x) => ImportView::Instr(InstrView::LoadConstant(ConstView::Integer32(x))),
                None => refused,
            }
        } else {
            refused
        }
    } else if op == "ldc.i8"@ {
        if ops.len() > 0 {
            match parse_i64_spec(ops[0]) {
                Some(x) => ImportView::Instr(InstrView::LoadConstant(ConstView::Integer64(x))),
                None => refused,
            }
        } else {
            refused
        }
    } else if op == "ldc.r4"@ || op == "ldc.r8"@ {
        if ops.len() > 0 {
            ImportView::FloatOperand(op, ops[0])
        } else {
            refused
        }
    } else if op == "ldstr"@ {
        if ops.len() > 0 {
            ImportView::Instr(InstrView::LoadConstant(ConstView::String(ops[0])))
        } else {
            refused
        }
    } else if op == "ldloc"@ {
        ImportView::Instr(InstrView::LoadLocal(il_slot_operand(ops)))
    } else if op == "ldloc.0"@ {
        ImportView::Instr(InstrView::LoadLocal(0))
    } else if op == "ldloc.1"@ {
        ImportView::Instr(InstrView::LoadLocal(1))
    } else if op == "ldloc.2"@ {
        ImportView::Instr(InstrView::LoadLocal(2))
    } else if op == "ldloc.3"@ {
        ImportView::Instr(InstrView::LoadLocal(3))
    } else if op == "stloc"@ {
        ImportView::Instr(InstrView::StoreLocal(il_slot_operand(ops)))
    } else if op == "stloc.0"@ {
        ImportView::Instr(InstrView::StoreLocal(0))
    } else if op == "stloc.1"@ {
        ImportView::Instr(InstrView::StoreLocal(1))
    } else if op == "stloc.2"@ {
        ImportView::Instr(InstrView::StoreLocal(2))
    } else if op == "stloc.3"@ {
        ImportView::Instr(InstrView::StoreLocal(3))
    } else if op == "call"@ {
        if ops.len() > 0 {
            ImportView::Instr(InstrView::Call(ops[0]))
        } else {
            refused
        }
    } else if op == "ret"@ {
        ImportView::Instr(InstrView::Return)
    } else if op == "add"@ {
        ImportView::Instr(InstrView::Add)
    } else if op == "sub"@ {
        ImportView::Instr(InstrView::Subtract)
    } else if op == "mul"@ {
        ImportView::Instr(InstrView::Multiply)
    } else if op == "div"@ {
        ImportView::Instr(InstrView::Divide)
    } else if op == "dup"@ {
        ImportView::Instr(InstrView::Duplicate)
    } else if op == "pop"@ {
        ImportView::Instr(InstrView::Pop)
    } else {
        refused
    }
}

fn refuse(opcode: &String) -> (r: Result<GaiaInstruction, GaiaError>)
    ensures
        import_matches(r, ImportView::Invalid(opcode@), il_arch()),
{
    Err(GaiaError::invalid_instruction(opcode.as_str(), Architecture::Other(owned("IL"))))
}

fn slot_operand(ops: &Vec<String>) -> (r: u32)
    ensures
        r == il_slot_operand(crate::text::string_views(ops@)),
{
    if ops.len() > 0 {
        match parse_u32(ops[0].as_str()) {
            Some(v) => v,
            None => 0,
        }
    } else {
        0
    }
}

impl IlImportAdapter {
    /// An adapter with the default options.
    pub fn new() -> (r: Self)
        ensures
            r.config().is_default(),
            r.config().parse_metadata,
    {
        IlImportAdapter { config: IlImportConfig::default() }
    }

    /// An adapter with the given options.
    pub fn with_config(config: IlImportConfig) -> (r: Self)
        ensures
            r.config() == config,
    {
        IlImportAdapter { config }
    }

    pub closed spec fn config(&self) -> IlImportConfig {
        self.config
    }
}

impl Default for IlImportAdapter {
    fn default() -> (r: Self)
        ensures
            r.config().parse_metadata,
    {
        Self::new()
    }
}

impl ImportAdapter<IlInstruction> for IlImportAdapter {
    fn import_instruction(&self, il_instruction: &IlInstruction) -> (r: Result<
        GaiaInstruction,
        GaiaError,
    >)
        ensures
            import_matches(r, il_import_view(il_instruction@), il_arch()),
    {
        let op = il_instruction.opcode.as_str();
        let ops = &il_instruction.operands;
        let has = ops.len() > 0;
        if str_eq(op, "ldconst") || str_eq(op, "ldc.i4") {
            if has {
                match parse_i32(ops[0].as_str()) {
                    Some(x) => Ok(GaiaInstruction::LoadConstant(GaiaConstant::Integer32(x))),
                    None => refuse(&il_instruction.opcode),
                }
            } else {
                refuse(&il_instruction.opcode)
            }
        } else if str_eq(op, "ldc.i8") {
            if has {
                match parse_i64(ops[0].as_str()) {
                    Some(x) => Ok(GaiaInstruction::LoadConstant(GaiaConstant::Integer64(x))),
                    None => refuse(&il_instruction.opcode),
                }
            } else {
                refuse(&il_instruction.opcode)
            }
        } else if str_eq(op, "ldc.r4") || str_eq(op, "ldc.r8") {
            if has {
                Err(
                    GaiaError::FloatLiteral {
                        opcode: copy_string(&il_instruction.opcode),
                        text: copy_string(&ops[0]),
                    },
                )
            } else {
                refuse(&il_instruction.opcode)
            }
        } else if str_eq(op, "ldstr") {
            if has {
                Ok(GaiaInstruction::LoadConstant(GaiaConstant::String(copy_string(&ops[0]))))
            } else {
                refuse(&il_instruction.opcode)
            }
        } else if str_eq(op, "ldloc") {
            Ok(GaiaInstruction::LoadLocal(slot_operand(ops)))
        } else if str_eq(op, "ldloc.0") {
            Ok(GaiaInstruction::LoadLocal(0))
        } else if str_eq(op, "ldloc.1") {
            Ok(GaiaInstruction::LoadLocal(1))
        } else if str_eq(op, "ldloc.2") {
            Ok(GaiaInstruction::LoadLocal(2))
        } else if str_eq(op, "ldloc.3") {
            Ok(GaiaInstruction::LoadLocal(3))
        } else if str_eq(op, "stloc") {
            Ok(GaiaInstruction::StoreLocal(slot_operand(ops)))
        } else if str_eq(op, "stloc.0") {
            Ok(GaiaInstruction::StoreLocal(0))
        } else if str_eq(op, "stloc.1") {
            Ok(GaiaInstruction::StoreLocal(1))
        } else if str_eq(op, "stloc.2") {
            Ok(GaiaInstruction::StoreLocal(2))
        } else if str_eq(op, "stloc.3") {
            Ok(GaiaInstruction::StoreLocal(3))
        } else if str_eq(op, "call") {
            if has {
                Ok(GaiaInstruction::Call(copy_string(&ops[0])))
            } else {
                refuse(&il_instruction.opcode)
            }
        } else if str_eq(op, "ret") {
            Ok(GaiaInstruction::Return)
        } else if str_eq(op, "add") {
            Ok(GaiaInstruction::Add)
        } else if str_eq(op, "sub") {
            Ok(GaiaInstruction::Subtract)
        } else if str_eq(op, "mul") {
            Ok(GaiaInstruction::Multiply)
        } else if str_eq(op, "div") {
            Ok(GaiaInstruction::Divide)
        } else if str_eq(op, "dup") {
            Ok(GaiaInstruction::Duplicate)
        } else if str_eq(op, "pop") {
            Ok(GaiaInstruction::Pop)
        } else {
            refuse(&il_instruction.opcode)
        }
    }

    fn import_program(&self, il_instructions: &[IlInstruction]) -> (r: Result<
        GaiaProgram,
        GaiaError,
    >)
        ensures
            match r {
                Ok(p) => {
                    &&& p.name@ == "imported_il_program"@
                    &&& p.constants@.len() == 0
                    &&& p.functions@.len() == 1
                    &&& p.functions@[0].name@ == "main"@
                    &&& p.functions@[0].parameters@.len() == 0
                    &&& p.functions@[0].return_type is None
                    &&& p.functions@[0].locals@.len() == 0
                    &&& p.functions@[0].instructions@.len() == il_instructions@.len()
                    &&& forall|k: int|
                        0 <= k < il_instructions@.len() ==> il_import_view(
                            #[trigger] il_instructions@[k]@,
                        ) == ImportView::Instr(p.functions@[0].instructions@[k]@)
                },
                Err(e) => exists|k: int|
                    0 <= k < il_instructions@.len() && (forall|j: int|
                        0 <= j < k ==> #[trigger] il_import_view(il_instructions@[j]@) is Instr)
                        && import_matches(Err(e), il_import_view(il_instructions@[k]@), il_arch()),
            },
    {
        let mut instructions: Vec<GaiaInstruction> = Vec::new();
        let mut k: usize = 0;
        while k < il_instructions.len()
            invariant
                k <= il_instructions@.len(),
                instructions@.len() == k,
                forall|j: int|
                    0 <= j < k ==> il_import_view(#[trigger] il_instructions@[j]@)
                        == ImportView::Instr(instructions@[j]@),
            decreases il_instructions@.len() - k,
        {
            let r = self.import_instruction(&il_instructions[k]);
            match r {
                Ok(g) => {
                    instructions.push(g);
                },
                Err(e) => {
                    assert(forall|j: int|
                        0 <= j < k ==> #[trigger] il_import_view(il_instructions@[j]@) is Instr);
                    return Err(e);
                },
            }
            k = k + 1;
        }
        let main_function = GaiaFunction {
            name: owned("main"),
            parameters: Vec::new(),
            return_type: None,
            locals: Vec::new(),
            instructions,
        };
        Ok(
            GaiaProgram {
                name: owned("imported_il_program"),
                functions: vec![main_function],
                constants: Vec::new(),
            },
        )
    }

    fn adapter_name(&self) -> (r: &'static str)
        ensures
            r@ == "IL Import Adapter"@,
    {
        "IL Import Adapter"
    }
}

} // verus!

verus! {

/// The flat instructions that come back unchanged from IL: integer
/// constants of 32 and 64 bits, locals, calls, returns, the four arithmetic
/// operations, `Duplicate` and `Pop`.
pub open spec fn il_round_trips(i: InstrView) -> bool {
    match i {
        InstrView::LoadConstant(ConstView::Integer32(_)) => true,
        InstrView::LoadConstant(ConstView::Integer64(_)) => true,
        InstrView::LoadLocal(_) => true,
        InstrView::StoreLocal(_) => true,
        InstrView::Call(_) => true,
        InstrView::Return => true,
        InstrView::Add => true,
        InstrView::Subtract => true,
        InstrView::Multiply => true,
        InstrView::Divide => true,
        InstrView::Duplicate => true,
        InstrView::Pop => true,
        _ => false,
    }
}


/// Lengths and characters of the IL opcodes, which tell them apart.
proof fn lemma_il_opcode_chars()
    ensures
        "ldconst"@.len() == 7,
        "ldconst"@[0] == 'l',
        "ldconst"@[1] == 'd',
        "ldconst"@[2] == 'c',
        "ldconst"@[3] == 'o',
        "ldconst"@[4] == 'n',
        "ldconst"@[5] == 's',
        "ldconst"@[6] == 't',
        "ldc.i4"@.len() == 6,
        "ldc.i4"@[0] == 'l',
        "ldc.i4"@[1] == 'd',
        "ldc.i4"@[2] == 'c',
        "ldc.i4"@[3] == '.',
        "ldc.i4"@[4] == 'i',
        "ldc.i4"@[5] == '4',
        "ldc.i8"@.len() == 6,
        "ldc.i8"@[0] == 'l',
        "ldc.i8"@[1] == 'd',
        "ldc.i8"@[2] == 'c',
        "ldc.i8"@[3] == '.',
        "ldc.i8"@[4] == 'i',
        "ldc.i8"@[5] == '8',
        "ldc.r4"@.len() == 6,
        "ldc.r4"@[0] == 'l',
        "ldc.r4"@[1] == 'd',
        "ldc.r4"@[2] == 'c',
        "ldc.r4"@[3] == '.',
        "ldc.r4"@[4] == 'r',
        "ldc.r4"@[5] == '4',
        "ldc.r8"@.len() == 6,
        "ldc.r8"@[0] == 'l',
        "ldc.r8"@[1] == 'd',
        "ldc.r8"@[2] == 'c',
        "ldc.r8"@[3] == '.',
        "ldc.r8"@[4] == 'r',
        "ldc.r8"@[5] == '8',
        "ldstr"@.len() == 5,
        "ldstr"@[0] == 'l',
        "ldstr"@[1] == 'd',
        "ldstr"@[2] == 's',
        "ldstr"@[3] == 't',
        "ldstr"@[4] == 'r',
        "ldloc"@.len() == 5,
        "ldloc"@[0] == 'l',
        "ldloc"@[1] == 'd',
        "ldloc"@[2] == 'l',
        "ldloc"@[3] == 'o',
        "ldloc"@[4] == 'c',
        "ldloc.0"@.len() == 7,
        "ldloc.0"@[0] == 'l',
        "ldloc.0"@[1] == 'd',
        "ldloc.0"@[2] == 'l',
        "ldloc.0"@[3] == 'o',
        "ldloc.0"@[4] == 'c',
        "ldloc.0"@[5] == '.',
        "ldloc.0"@[6] == '0',
        "ldloc.1"@.len() == 7,
        "ldloc.1"@[0] == 'l',
        "ldloc.1"@[1] == 'd',
        "ldloc.1"@[2] == 'l',
        "ldloc.1"@[3] == 'o',
        "ldloc.1"@[4] == 'c',
        "ldloc.1"@[5] == '.',
        "ldloc.1"@[6] == '1',
        "ldloc.2"@.len() == 7,
        "ldloc.2"@[0] == 'l',
        "ldloc.2"@[1] == 'd',
        "ldloc.2"@[2] == 'l',
        "ldloc.2"@[3] == 'o',
        "ldloc.2"@[4] == 'c',
        "ldloc.2"@[5] == '.',
        "ldloc.2"@[6] == '2',
        "ldloc.3"@.len() == 7,
        "ldloc.3"@[0] == 'l',
        "ldloc.3"@[1] == 'd',
        "ldloc.3"@[2] == 'l',
        "ldloc.3"@[3] == 'o',
        "ldloc.3"@[4] == 'c',
        "ldloc.3"@[5] == '.',
        "ldloc.3"@[6] == '3',
        "stloc"@.len() == 5,
        "stloc"@[0] == 's',
        "stloc"@[1] == 't',
        "stloc"@[2] == 'l',
        "stloc"@[3] == 'o',
        "stloc"@[4] == 'c',
        "stloc.0"@.len() == 7,
        "stloc.0"@[0] == 's',
        "stloc.0"@[1] == 't',
        "stloc.0"@[2] == 'l',
        "stloc.0"@[3] == 'o',
        "stloc.0"@[4] == 'c',
        "stloc.0"@[5] == '.',
        "stloc.0"@[6] == '0',
        "stloc.1"@.len() == 7,
        "stloc.1"@[0] == 's',
        "stloc.1"@[1] == 't',
        "stloc.1"@[2] == 'l',
        "stloc.1"@[3] == 'o',
        "stloc.1"@[4] == 'c',
        "stloc.1"@[5] == '.',
        "stloc.1"@[6] == '1',
        "stloc.2"@.len() == 7,
        "stloc.2"@[0] == 's',
        "stloc.2"@[1] == 't',
        "stloc.2"@[2] == 'l',
        "stloc.2"@[3] == 'o',
        "stloc.2"@[4] == 'c',
        "stloc.2"@[5] == '.',
        "stloc.2"@[6] == '2',
        "stloc.3"@.len() == 7,
        "stloc.3"@[0] == 's',
        "stloc.3"@[1] == 't',
        "stloc.3"@[2] == 'l',
        "stloc.3"@[3] == 'o',
        "stloc.3"@[4] == 'c',
        "stloc.3"@[5] == '.',
        "stloc.3"@[6] == '3',
        "call"@.len() == 4,
        "call"@[0] == 'c',
        "call"@[1] == 'a',
        "call"@[2] == 'l',
        "call"@[3] == 'l',
        "ret"@.len() == 3,
        "ret"@[0] == 'r',
        "ret"@[1] == 'e',
        "ret"@[2] == 't',
        "add"@.len() == 3,
        "add"@[0] == 'a',
        "add"@[1] == 'd',
        "add"@[2] == 'd',
        "sub"@.len() == 3,
        "sub"@[0] == 's',
        "sub"@[1] == 'u',
        "sub"@[2] == 'b',
        "mul"@.len() == 3,
        "mul"@[0] == 'm',
        "mul"@[1] == 'u',
        "mul"@[2] == 'l',
        "div"@.len() == 3,
        "div"@[0] == 'd',
        "div"@[1] == 'i',
        "div"@[2] == 'v',
        "dup"@.len() == 3,
        "dup"@[0] == 'd',
        "dup"@[1] == 'u',
        "dup"@[2] == 'p',
        "pop"@.len() == 3,
        "pop"@[0] == 'p',
        "pop"@[1] == 'o',
        "pop"@[2] == 'p',
{
    reveal_strlit("ldconst");
    reveal_strlit("ldc.i4");
    reveal_strlit("ldc.i8");
    reveal_strlit("ldc.r4");
    reveal_strlit("ldc.r8");
    reveal_strlit("ldstr");
    reveal_strlit("ldloc");
    reveal_strlit("ldloc.0");
    reveal_strlit("ldloc.1");
    reveal_strlit("ldloc.2");
    reveal_strlit("ldloc.3");
    reveal_strlit("stloc");
    reveal_strlit("stloc.0");
    reveal_strlit("stloc.1");
    reveal_strlit("stloc.2");
    reveal_strlit("stloc.3");
    reveal_strlit("call");
    reveal_strlit("ret");
    reveal_strlit("add");
    reveal_strlit("sub");
    reveal_strlit("mul");
    reveal_strlit("div");
    reveal_strlit("dup");
    reveal_strlit("pop");
}

#[verifier::spinoff_prover]
proof fn lemma_il_rt_i32(i: GaiaInstruction)
    requires
        i matches GaiaInstruction::LoadConstant(GaiaConstant::Integer32(_)),
    ensures
        il_import_view(il_export_view(i)) == ImportView::Instr(i@),
{
    lemma_il_opcode_chars();
    reveal_strlit(".");
    if let GaiaInstruction::LoadConstant(GaiaConstant::Integer32(v)) = i {
        lemma_parse_decimal_text(v as int, i32::MIN as int, i32::MAX as int, true);
    }
}

#[verifier::spinoff_prover]
proof fn lemma_il_rt_i64(i: GaiaInstruction)
    requires
        i matches GaiaInstruction::LoadConstant(GaiaConstant::Integer64(_)),
    ensures
        il_import_view(il_export_view(i)) == ImportView::Instr(i@),
{
    lemma_il_opcode_chars();
    reveal_strlit(".");
    if let GaiaInstruction::LoadConstant(GaiaConstant::Integer64(v)) = i {
        lemma_parse_decimal_text(v as int, i64::MIN as int, i64::MAX as int, true);
        assert(parse_i64_spec(decimal_text(v as int)) == Some(v));
    }
}

#[verifier::spinoff_prover]
proof fn lemma_il_rt_load(i: GaiaInstruction)
    requires
        i matches GaiaInstruction::LoadLocal(_),
    ensures
        il_import_view(il_export_view(i)) == ImportView::Instr(i@),
{
    lemma_il_opcode_chars();
    reveal_strlit(".");
    if let GaiaInstruction::LoadLocal(index) = i {
        lemma_parse_decimal_text(index as int, 0, u32::MAX as int, false);
        if index < 4 {
            assert(decimal_text(index as int) == seq![crate::text::digit_char(index as int)]);
            if index == 0 {
                assert("ldloc"@ + "."@ + decimal_text(index as int) =~= "ldloc.0"@);
            } else if index == 1 {
                assert("ldloc"@ + "."@ + decimal_text(index as int) =~= "ldloc.1"@);
            } else if index == 2 {
                assert("ldloc"@ + "."@ + decimal_text(index as int) =~= "ldloc.2"@);
            } else {
                assert("ldloc"@ + "."@ + decimal_text(index as int) =~= "ldloc.3"@);
            }
        }
    }
}

#[verifier::spinoff_prover]
proof fn lemma_il_rt_store(i: GaiaInstruction)
    requires
        i matches GaiaInstruction::StoreLocal(_),
    ensures
        il_import_view(il_export_view(i)) == ImportView::Instr(i@),
{
    lemma_il_opcode_chars();
    reveal_strlit(".");
    if let GaiaInstruction::StoreLocal(index) = i {
        lemma_parse_decimal_text(index as int, 0, u32::MAX as int, false);
        if index < 4 {
            assert(decimal_text(index as int) == seq![crate::text::digit_char(index as int)]);
            if index == 0 {
                assert("stloc"@ + "."@ + decimal_text(index as int) =~= "stloc.0"@);
            } else if index == 1 {
                assert("stloc"@ + "."@ + decimal_text(index as int) =~= "stloc.1"@);
            } else if index == 2 {
                assert("stloc"@ + "."@ + decimal_text(index as int) =~= "stloc.2"@);
            } else {
                assert("stloc"@ + "."@ + decimal_text(index as int) =~= "stloc.3"@);
            }
        }
    }
}

#[verifier::spinoff_prover]
proof fn lemma_il_rt_call(i: GaiaInstruction)
    requires
        i matches GaiaInstruction::Call(_),
    ensures
        il_import_view(il_export_view(i)) == ImportView::Instr(i@),
{
    lemma_il_opcode_chars();
    reveal_strlit(".");
}

#[verifier::spinoff_prover]
proof fn lemma_il_rt_return(i: GaiaInstruction)
    requires
        i matches GaiaInstruction::Return,
    ensures
        il_import_view(il_export_view(i)) == ImportView::Instr(i@),
{
    lemma_il_opcode_chars();
    reveal_strlit(".");
}

#[verifier::spinoff_prover]
proof fn lemma_il_rt_add(i: GaiaInstruction)
    requires
        i matches GaiaInstruction::Add,
    ensures
        il_import_view(il_export_view(i)) == ImportView::Instr(i@),
{
    lemma_il_opcode_chars();
    reveal_strlit(".");
}

#[verifier::spinoff_prover]
proof fn lemma_il_rt_subtract(i: GaiaInstruction)
    requires
        i matches GaiaInstruction::Subtract,
    ensures
        il_import_view(il_export_view(i)) == ImportView::Instr(i@),
{
    lemma_il_opcode_chars();
    reveal_strlit(".");
}

#[verifier::spinoff_prover]
proof fn lemma_il_rt_multiply(i: GaiaInstruction)
    requires
        i matches GaiaInstruction::Multiply,
    ensures
        il_import_view(il_export_view(i)) == ImportView::Instr(i@),
{
    lemma_il_opcode_chars();
    reveal_strlit(".");
}

#[verifier::spinoff_prover]
proof fn lemma_il_rt_divide(i: GaiaInstruction)
    requires
        i matches GaiaInstruction::Divide,
    ensures
        il_import_view(il_export_view(i)) == ImportView::Instr(i@),
{
    lemma_il_opcode_chars();
    reveal_strlit(".");
}

#[verifier::spinoff_prover]
proof fn lemma_il_rt_duplicate(i: GaiaInstruction)
    requires
        i matches GaiaInstruction::Duplicate,
    ensures
        il_import_view(il_export_view(i)) == ImportView::Instr(i@),
{
    lemma_il_opcode_chars();
    reveal_strlit(".");
}

#[verifier::spinoff_prover]
proof fn lemma_il_rt_pop(i: GaiaInstruction)
    requires
        i matches GaiaInstruction::Pop,
    ensures
        il_import_view(il_export_view(i)) == ImportView::Instr(i@),
{
    lemma_il_opcode_chars();
    reveal_strlit(".");
}

/// Exporting an instruction to IL and importing the result gives the
/// instruction back, for every instruction that IL carries whole.
pub proof fn law_il_round_trip(i: GaiaInstruction)
    requires
        il_round_trips(i@),
    ensures
        il_import_view(il_export_view(i)) == ImportView::Instr(i@),
{
    match i {
        GaiaInstruction::LoadConstant(GaiaConstant::Integer32(_)) => lemma_il_rt_i32(i),
        GaiaInstruction::LoadConstant(GaiaConstant::Integer64(_)) => lemma_il_rt_i64(i),
        GaiaInstruction::LoadLocal(_) => lemma_il_rt_load(i),
        GaiaInstruction::StoreLocal(_) => lemma_il_rt_store(i),
        GaiaInstruction::Call(_) => lemma_il_rt_call(i),
        GaiaInstruction::Return => lemma_il_rt_return(i),
        GaiaInstruction::Add => lemma_il_rt_add(i),
        GaiaInstruction::Subtract => lemma_il_rt_subtract(i),
        GaiaInstruction::Multiply => lemma_il_rt_multiply(i),
        GaiaInstruction::Divide => lemma_il_rt_divide(i),
        GaiaInstruction::Duplicate => lemma_il_rt_duplicate(i),
        GaiaInstruction::Pop => lemma_il_rt_pop(i),
        _ => {},
    }
}

} // verus!
