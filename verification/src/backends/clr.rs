//! The CLR backend's program model: a module lowered to types, methods
//! and instructions of a CLR assembly, which a DLL writer lays out in
//! binary. The lowering follows the intermediate-language text output
//! (`msil`), instruction for instruction.
use vstd::prelude::*;
use crate::adapters::{apply_mappings, default_table, FunctionMapper, MappingTable};
use crate::backends::jvm::FieldTypes;
use crate::backends::msil::{
    gaia_type_to_msil_name, msil_blocks, msil_callee, msil_classes, msil_field_type, msil_field_types, msil_functions,
    msil_instr, msil_instrs, msil_module, msil_type_name,
};
use crate::config::GaiaSettings;
use crate::error::GaiaError;
use crate::instruction::{CmpCondition, CoreInstruction, GaiaInstruction};
use crate::program::{GaiaBlock, GaiaClass, GaiaConstant, GaiaField, GaiaFunction, GaiaModule, GaiaStruct, GaiaTerminator};
use crate::target::il_target;
use crate::text::{copy_string, decimal_text, format_u64, owned, push_str, str_eq};
use crate::types::GaiaType;

verus! {

/// The operation codes the lowering writes.
#[derive(Debug, Clone, Copy, PartialEq, Eq, Structural)]
pub enum ClrOpcode {
    LdcI4,
    LdcI8,
    LdcR4,
    LdcR8,
    Ldstr,
    Ldnull,
    Ldloc,
    Stloc,
    Ldarg,
    Starg,
    Add,
    Sub,
    Mul,
    Div,
    Ceq,
    Cgt,
    Clt,
    Br,
    Brtrue,
    Brfalse,
    Call,
    Ret,
    Dup,
    Pop,
    Newarr,
    Ldelem,
    Stelem,
    Ldlen,
    LdindI4,
    LdindI8,
    LdindR4,
    LdindR8,
    LdindRef,
    StindI4,
    StindI8,
    StindR4,
    StindR8,
    StindRef,
    Newobj,
    Ldfld,
    Stfld,
}

/// An instruction with its operand.
#[derive(Debug, Clone, PartialEq, Eq)]
pub enum ClrInstruction {
    Simple { opcode: ClrOpcode },
    WithImmediate { opcode: ClrOpcode, value: i32 },
    WithImmediate64 { opcode: ClrOpcode, value: i64 },
    /// A 32-bit float operand by its bits.
    WithFloat32 { opcode: ClrOpcode, bits: u32 },
    /// A 64-bit float operand by its bits.
    WithFloat64 { opcode: ClrOpcode, bits: u64 },
    WithString { opcode: ClrOpcode, value: String },
    WithLocalVar { opcode: ClrOpcode, index: u16 },
    WithParameter { opcode: ClrOpcode, index: u16 },
    WithMethod { opcode: ClrOpcode, method_ref: String },
    WithLabel { opcode: ClrOpcode, label: String },
    WithType { opcode: ClrOpcode, type_ref: String },
    WithField { opcode: ClrOpcode, field_ref: String },
}

/// Spec view of an instruction, with text as character sequences.
pub enum ClrInstrView {
    Simple { opcode: ClrOpcode },
    WithImmediate { opcode: ClrOpcode, value: i32 },
    WithImmediate64 { opcode: ClrOpcode, value: i64 },
    WithFloat32 { opcode: ClrOpcode, bits: u32 },
    WithFloat64 { opcode: ClrOpcode, bits: u64 },
    WithString { opcode: ClrOpcode, value: Seq<char> },
    WithLocalVar { opcode: ClrOpcode, index: u16 },
    WithParameter { opcode: ClrOpcode, index: u16 },
    WithMethod { opcode: ClrOpcode, method_ref: Seq<char> },
    WithLabel { opcode: ClrOpcode, label: Seq<char> },
    WithType { opcode: ClrOpcode, type_ref: Seq<char> },
    WithField { opcode: ClrOpcode, field_ref: Seq<char> },
}

impl View for ClrInstruction {
    type V = ClrInstrView;

    open spec fn view(&self) -> ClrInstrView {
        match self {
            ClrInstruction::Simple { opcode } => ClrInstrView::Simple { opcode: *opcode },
            ClrInstruction::WithImmediate { opcode, value } => ClrInstrView::WithImmediate { opcode: *opcode, value: *value },
            ClrInstruction::WithImmediate64 { opcode, value } => ClrInstrView::WithImmediate64 { opcode: *opcode, value: *value },
            ClrInstruction::WithFloat32 { opcode, bits } => ClrInstrView::WithFloat32 { opcode: *opcode, bits: *bits },
            ClrInstruction::WithFloat64 { opcode, bits } => ClrInstrView::WithFloat64 { opcode: *opcode, bits: *bits },
            ClrInstruction::WithString { opcode, value } => ClrInstrView::WithString { opcode: *opcode, value: value@ },
            ClrInstruction::WithLocalVar { opcode, index } => ClrInstrView::WithLocalVar { opcode: *opcode, index: *index },
            ClrInstruction::WithParameter { opcode, index } => ClrInstrView::WithParameter { opcode: *opcode, index: *index },
            ClrInstruction::WithMethod { opcode, method_ref } => ClrInstrView::WithMethod {
                opcode: *opcode,
                method_ref: method_ref@,
            },
            ClrInstruction::WithLabel { opcode, label } => ClrInstrView::WithLabel { opcode: *opcode, label: label@ },
            ClrInstruction::WithType { opcode, type_ref } => ClrInstrView::WithType { opcode: *opcode, type_ref: type_ref@ },
            ClrInstruction::WithField { opcode, field_ref } => ClrInstrView::WithField {
                opcode: *opcode,
                field_ref: field_ref@,
            },
        }
    }
}

pub open spec fn instr_views(v: Seq<ClrInstruction>) -> Seq<ClrInstrView> {
    v.map_values(|i: ClrInstruction| i@)
}

pub open spec fn simple(op: ClrOpcode) -> ClrInstrView {
    ClrInstrView::Simple { opcode: op }
}

pub open spec fn ldc_i4(v: i32) -> ClrInstrView {
    ClrInstrView::WithImmediate { opcode: ClrOpcode::LdcI4, value: v }
}

/// The instruction that loads a constant, or none for a constant without one.
pub open spec fn clr_constant(c: GaiaConstant) -> Option<Seq<ClrInstrView>> {
    match c {
        GaiaConstant::I8(v) => Some(seq![ldc_i4(v as i32)]),
        GaiaConstant::U8(v) => Some(seq![ldc_i4(v as i32)]),
        GaiaConstant::I16(v) => Some(seq![ldc_i4(v as i32)]),
        GaiaConstant::U16(v) => Some(seq![ldc_i4(v as i32)]),
        GaiaConstant::I32(v) => Some(seq![ldc_i4(v)]),
        GaiaConstant::U32(v) => Some(seq![ldc_i4(v as i32)]),
        GaiaConstant::I64(v) => Some(seq![ClrInstrView::WithImmediate64 { opcode: ClrOpcode::LdcI8, value: v }]),
        GaiaConstant::U64(v) => Some(seq![ClrInstrView::WithImmediate64 { opcode: ClrOpcode::LdcI8, value: v as i64 }]),
        GaiaConstant::F32 { bits, text } => Some(seq![ClrInstrView::WithFloat32 { opcode: ClrOpcode::LdcR4, bits }]),
        GaiaConstant::F64 { bits, text } => Some(seq![ClrInstrView::WithFloat64 { opcode: ClrOpcode::LdcR8, bits }]),
        GaiaConstant::String(s) => Some(seq![ClrInstrView::WithString { opcode: ClrOpcode::Ldstr, value: s@ }]),
        GaiaConstant::Bool(b) => Some(seq![ldc_i4(if b { 1 } else { 0 })]),
        GaiaConstant::Null => Some(seq![simple(ClrOpcode::Ldnull)]),
        _ => None,
    }
}

/// The load through an address of a type.
pub open spec fn clr_load_op(t: GaiaType) -> ClrOpcode {
    match t {
        GaiaType::I8 => ClrOpcode::LdindI4,
        GaiaType::I16 => ClrOpcode::LdindI4,
        GaiaType::I32 => ClrOpcode::LdindI4,
        GaiaType::I64 => ClrOpcode::LdindI8,
        GaiaType::F32 => ClrOpcode::LdindR4,
        GaiaType::F64 => ClrOpcode::LdindR8,
        _ => ClrOpcode::LdindRef,
    }
}

/// The store through an address of a type.
pub open spec fn clr_store_op(t: GaiaType) -> ClrOpcode {
    match t {
        GaiaType::I8 => ClrOpcode::StindI4,
        GaiaType::I16 => ClrOpcode::StindI4,
        GaiaType::I32 => ClrOpcode::StindI4,
        GaiaType::I64 => ClrOpcode::StindI8,
        GaiaType::F32 => ClrOpcode::StindR4,
        GaiaType::F64 => ClrOpcode::StindR8,
        _ => ClrOpcode::StindRef,
    }
}

/// The instructions of a comparison.
pub open spec fn clr_compare(c: CmpCondition) -> Seq<ClrInstrView> {
    match c {
        CmpCondition::Eq => seq![simple(ClrOpcode::Ceq)],
        CmpCondition::Ne => seq![simple(ClrOpcode::Ceq), ldc_i4(0), simple(ClrOpcode::Ceq)],
        CmpCondition::Lt => seq![simple(ClrOpcode::Clt)],
        CmpCondition::Le => seq![simple(ClrOpcode::Cgt), ldc_i4(0), simple(ClrOpcode::Ceq)],
        CmpCondition::Gt => seq![simple(ClrOpcode::Cgt)],
        CmpCondition::Ge => seq![simple(ClrOpcode::Clt), ldc_i4(0), simple(ClrOpcode::Ceq)],
    }
}

pub open spec fn with_label(op: ClrOpcode, l: Seq<char>) -> ClrInstrView {
    ClrInstrView::WithLabel { opcode: op, label: l }
}

pub open spec fn with_method(op: ClrOpcode, m: Seq<char>) -> ClrInstrView {
    ClrInstrView::WithMethod { opcode: op, method_ref: m }
}

/// The instructions of an instruction, as in the text output; labels write
/// nothing, and local and argument slots are taken modulo 2^16.
pub open spec fn clr_instr(i: GaiaInstruction, ft: Map<(Seq<char>, Seq<char>), Seq<char>>, tb: MappingTable) -> Option<
    Seq<ClrInstrView>,
> {
    match i {
        GaiaInstruction::Core(c) => match c {
            CoreInstruction::PushConstant(k) => clr_constant(k),
            CoreInstruction::Load(t) => Some(seq![simple(clr_load_op(t))]),
            CoreInstruction::Store(t) => Some(seq![simple(clr_store_op(t))]),
            CoreInstruction::Add(_) => Some(seq![simple(ClrOpcode::Add)]),
            CoreInstruction::Sub(_) => Some(seq![simple(ClrOpcode::Sub)]),
            CoreInstruction::Mul(_) => Some(seq![simple(ClrOpcode::Mul)]),
            CoreInstruction::Div(_) => Some(seq![simple(ClrOpcode::Div)]),
            CoreInstruction::Pop => Some(seq![simple(ClrOpcode::Pop)]),
            CoreInstruction::Dup => Some(seq![simple(ClrOpcode::Dup)]),
            CoreInstruction::Cmp(cond, _) => Some(clr_compare(cond)),
            CoreInstruction::Ret => Some(seq![simple(ClrOpcode::Ret)]),
            CoreInstruction::Br(l) => Some(seq![with_label(ClrOpcode::Br, l@)]),
            CoreInstruction::BrTrue(l) => Some(seq![with_label(ClrOpcode::Brtrue, l@)]),
            CoreInstruction::BrFalse(l) => Some(seq![with_label(ClrOpcode::Brfalse, l@)]),
            CoreInstruction::Label(_) => Some(seq![]),
            CoreInstruction::Call(name, _) => Some(seq![with_method(ClrOpcode::Call, msil_callee(tb, name@))]),
            CoreInstruction::LoadLocal(k, _) => Some(seq![ClrInstrView::WithLocalVar { opcode: ClrOpcode::Ldloc, index: k as u16 }]),
            CoreInstruction::StoreLocal(k, _) => Some(seq![ClrInstrView::WithLocalVar { opcode: ClrOpcode::Stloc, index: k as u16 }]),
            CoreInstruction::LoadArg(k, _) => Some(seq![ClrInstrView::WithParameter { opcode: ClrOpcode::Ldarg, index: k as u16 }]),
            CoreInstruction::StoreArg(k, _) => Some(seq![ClrInstrView::WithParameter { opcode: ClrOpcode::Starg, index: k as u16 }]),
            CoreInstruction::New(t) => Some(seq![with_method(ClrOpcode::Newobj, "instance void "@ + t@ + "::.ctor()"@)]),
            CoreInstruction::NewArray(t, _) => Some(seq![ClrInstrView::WithType { opcode: ClrOpcode::Newarr, type_ref: msil_type_name(t) }]),
            CoreInstruction::LoadField(t, f) => Some(
                seq![ClrInstrView::WithField { opcode: ClrOpcode::Ldfld, field_ref: msil_field_type(ft, t@, f@) + " "@ + t@ + "::"@ + f@ }],
            ),
            CoreInstruction::StoreField(t, f) => Some(
                seq![ClrInstrView::WithField { opcode: ClrOpcode::Stfld, field_ref: msil_field_type(ft, t@, f@) + " "@ + t@ + "::"@ + f@ }],
            ),
            CoreInstruction::LoadElement(t) => Some(seq![ClrInstrView::WithType { opcode: ClrOpcode::Ldelem, type_ref: msil_type_name(t) }]),
            CoreInstruction::StoreElement(t) => Some(seq![ClrInstrView::WithType { opcode: ClrOpcode::Stelem, type_ref: msil_type_name(t) }]),
            CoreInstruction::ArrayLength => Some(seq![simple(ClrOpcode::Ldlen)]),
            _ => Some(seq![]),
        },
        _ => Some(seq![]),
    }
}

/// The instructions of a block's ending.
pub open spec fn clr_terminator(t: GaiaTerminator) -> Seq<ClrInstrView> {
    match t {
        GaiaTerminator::Jump(l) => seq![with_label(ClrOpcode::Br, l@)],
        GaiaTerminator::Branch { true_label, false_label } => seq![
            with_label(ClrOpcode::Brtrue, true_label@),
            with_label(ClrOpcode::Br, false_label@),
        ],
        GaiaTerminator::Return => seq![simple(ClrOpcode::Ret)],
        GaiaTerminator::Call { callee, args_count, next_block } => seq![
            with_method(ClrOpcode::Call, callee@),
            with_label(ClrOpcode::Br, next_block@),
        ],
        GaiaTerminator::Halt => seq![ldc_i4(0), with_method(ClrOpcode::Call, "ExitProcess"@)],
    }
}

pub open spec fn clr_instrs(is: Seq<GaiaInstruction>, ft: Map<(Seq<char>, Seq<char>), Seq<char>>, tb: MappingTable) -> Option<
    Seq<ClrInstrView>,
>
    decreases is.len(),
{
    if is.len() == 0 {
        Some(seq![])
    } else {
        match clr_instrs(is.drop_last(), ft, tb) {
            Some(a) => match clr_instr(is.last(), ft, tb) {
                Some(b) => Some(a + b),
                None => None,
            },
            None => None,
        }
    }
}

/// The body of a function: each block's instructions and ending.
pub open spec fn clr_body(bs: Seq<GaiaBlock>, ft: Map<(Seq<char>, Seq<char>), Seq<char>>, tb: MappingTable) -> Option<
    Seq<ClrInstrView>,
>
    decreases bs.len(),
{
    if bs.len() == 0 {
        Some(seq![])
    } else {
        match clr_body(bs.drop_last(), ft, tb) {
            Some(a) => match clr_instrs(bs.last().instructions@, ft, tb) {
                Some(b) => Some(a + b + clr_terminator(bs.last().terminator)),
                None => None,
            },
            None => None,
        }
    }
}

fn unsupported_constant() -> (e: GaiaError)
    ensures
        e matches GaiaError::Custom { message } && message@ == "Unsupported constant type for CLR"@,
{
    GaiaError::custom_error("Unsupported constant type for CLR")
}

fn clr_constant_into(out: &mut Vec<ClrInstruction>, c: &GaiaConstant) -> (r: Result<(), GaiaError>)
    ensures
        match clr_constant(*c) {
            Some(s) => r is Ok && instr_views(final(out)@) == instr_views(old(out)@) + s,
            None => r matches Err(GaiaError::Custom { message }) && message@ == "Unsupported constant type for CLR"@,
        },
{
    let i = match c {
        GaiaConstant::I8(v) => ClrInstruction::WithImmediate { opcode: ClrOpcode::LdcI4, value: *v as i32 },
        GaiaConstant::U8(v) => ClrInstruction::WithImmediate { opcode: ClrOpcode::LdcI4, value: *v as i32 },
        GaiaConstant::I16(v) => ClrInstruction::WithImmediate { opcode: ClrOpcode::LdcI4, value: *v as i32 },
        GaiaConstant::U16(v) => ClrInstruction::WithImmediate { opcode: ClrOpcode::LdcI4, value: *v as i32 },
        GaiaConstant::I32(v) => ClrInstruction::WithImmediate { opcode: ClrOpcode::LdcI4, value: *v },
        GaiaConstant::U32(v) => ClrInstruction::WithImmediate { opcode: ClrOpcode::LdcI4, value: *v as i32 },
        GaiaConstant::I64(v) => ClrInstruction::WithImmediate64 { opcode: ClrOpcode::LdcI8, value: *v },
        GaiaConstant::U64(v) => ClrInstruction::WithImmediate64 { opcode: ClrOpcode::LdcI8, value: *v as i64 },
        GaiaConstant::F32 { bits, text } => ClrInstruction::WithFloat32 { opcode: ClrOpcode::LdcR4, bits: *bits },
        GaiaConstant::F64 { bits, text } => ClrInstruction::WithFloat64 { opcode: ClrOpcode::LdcR8, bits: *bits },
        GaiaConstant::String(s) => ClrInstruction::WithString { opcode: ClrOpcode::Ldstr, value: copy_string(s) },
        GaiaConstant::Bool(b) => ClrInstruction::WithImmediate { opcode: ClrOpcode::LdcI4, value: if *b { 1 } else { 0 } },
        GaiaConstant::Null => ClrInstruction::Simple { opcode: ClrOpcode::Ldnull },
        _ => {
            return Err(unsupported_constant());
        },
    };
    let ghost start = out@;
    out.push(i);
    assert(instr_views(out@) =~= instr_views(start) + clr_constant(*c)->Some_0);
    Ok(())
}

fn push1(out: &mut Vec<ClrInstruction>, i: ClrInstruction)
    ensures
        instr_views(final(out)@) == instr_views(old(out)@) + seq![i@],
{
    let ghost start = out@;
    out.push(i);
    assert(instr_views(out@) =~= instr_views(start) + seq![i@]);
}

fn field_ref(ft: &FieldTypes, t: &String, f: &String) -> (r: String)
    ensures
        r@ == msil_field_type(ft.as_map(), t@, f@) + " "@ + t@ + "::"@ + f@,
{
    let mut l = match ft.get(t.as_str(), f.as_str()) {
        Some(n) => copy_string(n),
        None => owned("object"),
    };
    push_str(&mut l, " ");
    push_str(&mut l, t.as_str());
    push_str(&mut l, "::");
    push_str(&mut l, f.as_str());
    l
}

/// Appends the instructions of an instruction (`clr_instr`); a constant
/// without an instruction gives an error.
fn clr_instr_into(out: &mut Vec<ClrInstruction>, i: &GaiaInstruction, ft: &FieldTypes, mapper: &FunctionMapper) -> (r: Result<
    (),
    GaiaError,
>)
    ensures
        match clr_instr(*i, ft.as_map(), mapper.table()) {
            Some(s) => r is Ok && instr_views(final(out)@) == instr_views(old(out)@) + s,
            None => r matches Err(GaiaError::Custom { message }) && message@ == "Unsupported constant type for CLR"@,
        },
{
    let ghost start = instr_views(out@);
    match i {
        GaiaInstruction::Core(c) => match c {
            CoreInstruction::PushConstant(k) => {
                return clr_constant_into(out, k);
            },
            CoreInstruction::Load(t) => {
                let op = match t {
                    GaiaType::I8 => ClrOpcode::LdindI4,
                    GaiaType::I16 => ClrOpcode::LdindI4,
                    GaiaType::I32 => ClrOpcode::LdindI4,
                    GaiaType::I64 => ClrOpcode::LdindI8,
                    GaiaType::F32 => ClrOpcode::LdindR4,
                    GaiaType::F64 => ClrOpcode::LdindR8,
                    _ => ClrOpcode::LdindRef,
                };
                push1(out, ClrInstruction::Simple { opcode: op });
            },
            CoreInstruction::Store(t) => {
                let op = match t {
                    GaiaType::I8 => ClrOpcode::StindI4,
                    GaiaType::I16 => ClrOpcode::StindI4,
                    GaiaType::I32 => ClrOpcode::StindI4,
                    GaiaType::I64 => ClrOpcode::StindI8,
                    GaiaType::F32 => ClrOpcode::StindR4,
                    GaiaType::F64 => ClrOpcode::StindR8,
                    _ => ClrOpcode::StindRef,
                };
                push1(out, ClrInstruction::Simple { opcode: op });
            },
            CoreInstruction::Add(_) => push1(out, ClrInstruction::Simple { opcode: ClrOpcode::Add }),
            CoreInstruction::Sub(_) => push1(out, ClrInstruction::Simple { opcode: ClrOpcode::Sub }),
            CoreInstruction::Mul(_) => push1(out, ClrInstruction::Simple { opcode: ClrOpcode::Mul }),
            CoreInstruction::Div(_) => push1(out, ClrInstruction::Simple { opcode: ClrOpcode::Div }),
            CoreInstruction::Pop => push1(out, ClrInstruction::Simple { opcode: ClrOpcode::Pop }),
            CoreInstruction::Dup => push1(out, ClrInstruction::Simple { opcode: ClrOpcode::Dup }),
            CoreInstruction::Cmp(cond, _) => {
                let (first, negate) = match cond {
                    CmpCondition::Eq => (ClrOpcode::Ceq, false),
                    CmpCondition::Ne => (ClrOpcode::Ceq, true),
                    CmpCondition::Lt => (ClrOpcode::Clt, false),
                    CmpCondition::Le => (ClrOpcode::Cgt, true),
                    CmpCondition::Gt => (ClrOpcode::Cgt, false),
                    CmpCondition::Ge => (ClrOpcode::Clt, true),
                };
                push1(out, ClrInstruction::Simple { opcode: first });
                if negate {
                    push1(out, ClrInstruction::WithImmediate { opcode: ClrOpcode::LdcI4, value: 0 });
                    push1(out, ClrInstruction::Simple { opcode: ClrOpcode::Ceq });
                }
            },
            CoreInstruction::Ret => push1(out, ClrInstruction::Simple { opcode: ClrOpcode::Ret }),
            CoreInstruction::Br(l) => push1(out, ClrInstruction::WithLabel { opcode: ClrOpcode::Br, label: copy_string(l) }),
            CoreInstruction::BrTrue(l) => push1(out, ClrInstruction::WithLabel { opcode: ClrOpcode::Brtrue, label: copy_string(l) }),
            CoreInstruction::BrFalse(l) => push1(out, ClrInstruction::WithLabel { opcode: ClrOpcode::Brfalse, label: copy_string(l) }),
            CoreInstruction::Label(_) => {},
            CoreInstruction::Call(name, _) => {
                let target = il_target();
                let callee = match mapper.map_function(&target, name.as_str()) {
                    Some(m) => owned(m),
                    None => copy_string(name),
                };
                push1(out, ClrInstruction::WithMethod { opcode: ClrOpcode::Call, method_ref: callee });
            },
            CoreInstruction::LoadLocal(k, _) => push1(out, ClrInstruction::WithLocalVar { opcode: ClrOpcode::Ldloc, index: *k as u16 }),
            CoreInstruction::StoreLocal(k, _) => push1(out, ClrInstruction::WithLocalVar { opcode: ClrOpcode::Stloc, index: *k as u16 }),
            CoreInstruction::LoadArg(k, _) => push1(out, ClrInstruction::WithParameter { opcode: ClrOpcode::Ldarg, index: *k as u16 }),
            CoreInstruction::StoreArg(k, _) => push1(out, ClrInstruction::WithParameter { opcode: ClrOpcode::Starg, index: *k as u16 }),
            CoreInstruction::New(t) => {
                let mut m = owned("instance void ");
                push_str(&mut m, t.as_str());
                push_str(&mut m, "::.ctor()");
                push1(out, ClrInstruction::WithMethod { opcode: ClrOpcode::Newobj, method_ref: m });
            },
            CoreInstruction::NewArray(t, _) => push1(out, ClrInstruction::WithType { opcode: ClrOpcode::Newarr, type_ref: gaia_type_to_msil_name(t) }),
            CoreInstruction::LoadField(t, f) => push1(out, ClrInstruction::WithField { opcode: ClrOpcode::Ldfld, field_ref: field_ref(ft, t, f) }),
            CoreInstruction::StoreField(t, f) => push1(out, ClrInstruction::WithField { opcode: ClrOpcode::Stfld, field_ref: field_ref(ft, t, f) }),
            CoreInstruction::LoadElement(t) => push1(out, ClrInstruction::WithType { opcode: ClrOpcode::Ldelem, type_ref: gaia_type_to_msil_name(t) }),
            CoreInstruction::StoreElement(t) => push1(out, ClrInstruction::WithType { opcode: ClrOpcode::Stelem, type_ref: gaia_type_to_msil_name(t) }),
            CoreInstruction::ArrayLength => push1(out, ClrInstruction::Simple { opcode: ClrOpcode::Ldlen }),
            _ => {},
        },
        _ => {},
    }
    assert(instr_views(out@) =~= start + clr_instr(*i, ft.as_map(), mapper.table())->Some_0);
    Ok(())
}


proof fn lemma_instrs_none(is: Seq<GaiaInstruction>, k: int, ft: Map<(Seq<char>, Seq<char>), Seq<char>>, tb: MappingTable)
    requires
        0 <= k < is.len(),
        clr_instr(is[k], ft, tb) is None,
    ensures
        clr_instrs(is, ft, tb) is None,
    decreases is.len(),
{
    if k < is.len() - 1 {
        assert(is.drop_last()[k] == is[k]);
        lemma_instrs_none(is.drop_last(), k, ft, tb);
    }
}

proof fn lemma_body_none(bs: Seq<GaiaBlock>, k: int, ft: Map<(Seq<char>, Seq<char>), Seq<char>>, tb: MappingTable)
    requires
        0 <= k < bs.len(),
        clr_instrs(bs[k].instructions@, ft, tb) is None,
    ensures
        clr_body(bs, ft, tb) is None,
    decreases bs.len(),
{
    if k < bs.len() - 1 {
        assert(bs.drop_last()[k] == bs[k]);
        lemma_body_none(bs.drop_last(), k, ft, tb);
    }
}

/// The instructions of a function's body (`clr_body`).
fn function_body(f: &GaiaFunction, ft: &FieldTypes, mapper: &FunctionMapper) -> (r: Result<Vec<ClrInstruction>, GaiaError>)
    ensures
        match clr_body(f.blocks@, ft.as_map(), mapper.table()) {
            Some(s) => r matches Ok(v) && instr_views(v@) == s,
            None => r matches Err(GaiaError::Custom { message }) && message@ == "Unsupported constant type for CLR"@,
        },
{
    let ghost m = ft.as_map();
    let ghost tb = mapper.table();
    let mut out: Vec<ClrInstruction> = Vec::new();
    let bs = &f.blocks;
    let mut b: usize = 0;
    assert(bs@.take(0) =~= seq![]);
    assert(instr_views(out@) =~= seq![]);
    while b < bs.len()
        invariant
            b <= bs@.len(),
            bs == &f.blocks,
            m == ft.as_map(),
            tb == mapper.table(),
            clr_body(bs@.take(b as int), m, tb) == Some(instr_views(out@)),
        decreases bs.len() - b,
    {
        proof {
            assert(bs@.take(b + 1).drop_last() =~= bs@.take(b as int));
        }
        let is = &bs[b].instructions;
        let ghost base = instr_views(out@);
        let mut k: usize = 0;
        assert(is@.take(0) =~= seq![]);
        while k < is.len()
            invariant
                k <= is@.len(),
                b < bs@.len(),
                bs == &f.blocks,
                is == &bs@[b as int].instructions,
                m == ft.as_map(),
                tb == mapper.table(),
                clr_instrs(is@.take(k as int), m, tb) matches Some(acc) && instr_views(out@) == base + acc,
            decreases is.len() - k,
        {
            proof {
                assert(is@.take(k + 1).drop_last() =~= is@.take(k as int));
            }
            let ghost acc = clr_instrs(is@.take(k as int), m, tb)->Some_0;
            match clr_instr_into(&mut out, &is[k], ft, mapper) {
                Ok(()) => {},
                Err(e) => {
                    proof {
                        assert(clr_instr(is@[k as int], m, tb) is None);
                        lemma_instrs_none(is@, k as int, m, tb);
                        lemma_body_none(bs@, b as int, m, tb);
                    }
                    return Err(e);
                },
            }
            proof {
                let b2 = clr_instr(is@[k as int], m, tb)->Some_0;
                assert(base + acc + b2 =~= base + (acc + b2));
            }
            k = k + 1;
        }
        assert(is@.take(k as int) =~= is@);
        let ghost mid = instr_views(out@);
        match &bs[b].terminator {
            GaiaTerminator::Jump(l) => push1(&mut out, ClrInstruction::WithLabel { opcode: ClrOpcode::Br, label: copy_string(l) }),
            GaiaTerminator::Branch { true_label, false_label } => {
                push1(&mut out, ClrInstruction::WithLabel { opcode: ClrOpcode::Brtrue, label: copy_string(true_label) });
                push1(&mut out, ClrInstruction::WithLabel { opcode: ClrOpcode::Br, label: copy_string(false_label) });
            },
            GaiaTerminator::Return => push1(&mut out, ClrInstruction::Simple { opcode: ClrOpcode::Ret }),
            GaiaTerminator::Call { callee, args_count, next_block } => {
                push1(&mut out, ClrInstruction::WithMethod { opcode: ClrOpcode::Call, method_ref: copy_string(callee) });
                push1(&mut out, ClrInstruction::WithLabel { opcode: ClrOpcode::Br, label: copy_string(next_block) });
            },
            GaiaTerminator::Halt => {
                push1(&mut out, ClrInstruction::WithImmediate { opcode: ClrOpcode::LdcI4, value: 0 });
                push1(&mut out, ClrInstruction::WithMethod { opcode: ClrOpcode::Call, method_ref: owned("ExitProcess") });
            },
        }
        assert(instr_views(out@) =~= mid + clr_terminator(bs@[b as int].terminator));
        b = b + 1;
    }
    assert(bs@.take(b as int) =~= bs@);
    Ok(out)
}

/// A version number.
#[derive(Debug, Clone, Copy, PartialEq, Eq, Structural)]
pub struct ClrVersion {
    pub major: u16,
    pub minor: u16,
    pub build: u16,
    pub revision: u16,
}

/// Access flags.
#[derive(Debug, Clone, Copy, PartialEq, Eq, Structural)]
pub struct ClrAccessFlags {
    pub is_public: bool,
    pub is_private: bool,
    pub is_security_transparent: bool,
    pub is_retargetable: bool,
}

/// A reference to a type.
#[derive(Debug)]
pub struct ClrTypeReference {
    pub name: String,
    pub namespace: Option<String>,
    pub assembly: Option<String>,
    pub is_value_type: bool,
    pub is_reference_type: bool,
    pub generic_parameters: Vec<String>,
}

/// A method parameter.
#[derive(Debug)]
pub struct ClrParameter {
    pub name: String,
    pub parameter_type: ClrTypeReference,
    pub is_in: bool,
    pub is_out: bool,
    pub is_optional: bool,
}

/// A method: signature, flags and body.
#[derive(Debug)]
pub struct ClrMethod {
    pub name: String,
    pub return_type: ClrTypeReference,
    pub parameters: Vec<ClrParameter>,
    pub access_flags: ClrAccessFlags,
    pub is_managed: bool,
    pub instructions: Vec<ClrInstruction>,
    pub max_stack: u16,
    pub locals: Vec<ClrTypeReference>,
    pub is_entry_point: bool,
}

/// A field of a type.
#[derive(Debug)]
pub struct ClrField {
    pub name: String,
    pub field_type: ClrTypeReference,
    pub access_flags: ClrAccessFlags,
}

/// A type with its fields and methods.
#[derive(Debug)]
pub struct ClrType {
    pub name: String,
    pub namespace: Option<String>,
    pub access_flags: ClrAccessFlags,
    pub base_type: Option<String>,
    pub interfaces: Vec<String>,
    pub fields: Vec<ClrField>,
    pub methods: Vec<ClrMethod>,
}

/// An assembly referenced by the program.
#[derive(Debug)]
pub struct ClrExternalAssembly {
    pub name: String,
    pub version: ClrVersion,
    pub public_key_token: Option<Vec<u8>>,
}

/// A CLR program: an assembly with its module, types and global methods.
#[derive(Debug)]
pub struct ClrProgram {
    pub name: String,
    pub version: ClrVersion,
    pub access_flags: ClrAccessFlags,
    pub external_assemblies: Vec<ClrExternalAssembly>,
    pub module_name: String,
    pub types: Vec<ClrType>,
    pub global_methods: Vec<ClrMethod>,
}

/// The name a type is referred to by.
pub open spec fn clr_type_name(t: GaiaType) -> Seq<char>
    decreases t,
{
    match t {
        GaiaType::Array(elem, _) => clr_type_name(*elem) + "[]"@,
        GaiaType::I8 => "int8"@,
        GaiaType::U8 => "uint8"@,
        GaiaType::I16 => "int16"@,
        GaiaType::U16 => "uint16"@,
        GaiaType::I32 => "int32"@,
        GaiaType::U32 => "uint32"@,
        GaiaType::I64 => "int64"@,
        GaiaType::U64 => "uint64"@,
        GaiaType::F32 => "float32"@,
        GaiaType::F64 => "float64"@,
        GaiaType::String => "string"@,
        GaiaType::Bool => "bool"@,
        GaiaType::Void => "void"@,
        GaiaType::Class(name) => name@,
        GaiaType::Struct(name) => name@,
        _ => "object"@,
    }
}

/// Strings, objects, arrays and classes are reference types.
pub open spec fn clr_is_reference(t: GaiaType) -> bool {
    t is String || t is Object || t is Array || t is Class
}

/// Whether a type reference refers to a type: its name, no namespace,
/// assembly or generic parameters, and whether it is a value or a
/// reference type.
pub open spec fn type_ref_is(r: ClrTypeReference, t: GaiaType) -> bool {
    &&& r.name@ == clr_type_name(t)
    &&& r.namespace is None
    &&& r.assembly is None
    &&& r.generic_parameters@.len() == 0
    &&& r.is_value_type == !clr_is_reference(t)
    &&& r.is_reference_type == clr_is_reference(t)
}

/// Public and nothing else.
pub open spec fn is_public_only(f: ClrAccessFlags) -> bool {
    f == ClrAccessFlags { is_public: true, is_private: false, is_security_transparent: false, is_retargetable: false }
}

/// The method of a function: its name and types, parameters `arg0`,
/// `arg1`, ... passed in, public, managed, the body, a stack of 8, no
/// locals, and the entry point when it is `main`.
pub open spec fn method_is(m: ClrMethod, f: GaiaFunction, body: Seq<ClrInstrView>) -> bool {
    let ps = f.signature.params@;
    &&& m.name@ == f.name@
    &&& type_ref_is(m.return_type, f.signature.return_type)
    &&& m.parameters@.len() == ps.len()
    &&& forall|i: int|
        0 <= i < ps.len() ==> {
            &&& (#[trigger] m.parameters@[i]).name@ == "arg"@ + decimal_text(i)
            &&& type_ref_is(m.parameters@[i].parameter_type, ps[i])
            &&& m.parameters@[i].is_in && !m.parameters@[i].is_out && !m.parameters@[i].is_optional
        }
    &&& is_public_only(m.access_flags)
    &&& m.is_managed
    &&& instr_views(m.instructions@) == body
    &&& m.max_stack == 8
    &&& m.locals@.len() == 0
    &&& m.is_entry_point == (f.name@ == "main"@)
}

/// A public field of a name and type.
pub open spec fn field_is(fd: ClrField, name: Seq<char>, t: GaiaType) -> bool {
    fd.name@ == name && type_ref_is(fd.field_type, t) && is_public_only(fd.access_flags)
}

/// The common shape of a type: its name, no namespace, public, deriving
/// from `System.Object`, no interfaces.
pub open spec fn type_head_is(ty: ClrType, name: Seq<char>) -> bool {
    &&& ty.name@ == name
    &&& ty.namespace is None
    &&& is_public_only(ty.access_flags)
    &&& ty.base_type matches Some(b) && b@ == "System.Object"@
    &&& ty.interfaces@.len() == 0
}

/// The methods of functions, one for one.
pub open spec fn methods_are(
    ms: Seq<ClrMethod>,
    fs: Seq<GaiaFunction>,
    ft: Map<(Seq<char>, Seq<char>), Seq<char>>,
    tb: MappingTable,
) -> bool {
    ms.len() == fs.len() && forall|i: int|
        0 <= i < fs.len() ==> method_is(#[trigger] ms[i], fs[i], clr_body(fs[i].blocks@, ft, tb)->Some_0)
}

/// The type of a structure: its fields, no methods.
pub open spec fn struct_type_is(ty: ClrType, s: GaiaStruct) -> bool {
    &&& type_head_is(ty, s.name@)
    &&& ty.fields@.len() == s.fields@.len()
    &&& forall|i: int| 0 <= i < s.fields@.len() ==> field_is(#[trigger] ty.fields@[i], s.fields@[i].0@, s.fields@[i].1)
    &&& ty.methods@.len() == 0
}

/// The type of a class: its fields and methods.
pub open spec fn class_type_is(
    ty: ClrType,
    c: GaiaClass,
    ft: Map<(Seq<char>, Seq<char>), Seq<char>>,
    tb: MappingTable,
) -> bool {
    &&& type_head_is(ty, c.name@)
    &&& ty.fields@.len() == c.fields@.len()
    &&& forall|i: int| 0 <= i < c.fields@.len() ==> field_is(#[trigger] ty.fields@[i], c.fields@[i].name@, c.fields@[i].ty)
    &&& methods_are(ty.methods@, c.methods@, ft, tb)
}

/// Whether every function has a body: no constant without an instruction.
pub open spec fn all_bodies(fs: Seq<GaiaFunction>, ft: Map<(Seq<char>, Seq<char>), Seq<char>>, tb: MappingTable) -> bool {
    forall|i: int| 0 <= i < fs.len() ==> clr_body((#[trigger] fs[i]).blocks@, ft, tb) is Some
}

/// Whether every method of every class has a body.
pub open spec fn all_class_bodies(
    cs: Seq<GaiaClass>,
    ft: Map<(Seq<char>, Seq<char>), Seq<char>>,
    tb: MappingTable,
) -> bool {
    forall|i: int| 0 <= i < cs.len() ==> all_bodies((#[trigger] cs[i]).methods@, ft, tb)
}

/// The referenced assemblies: `mscorlib` 4.0.0.0 with its public key
/// token, then each imported library once, at version 0.0.0.0.
pub open spec fn extern_names(imports: Seq<crate::program::GaiaImport>) -> Seq<Seq<char>>
    decreases imports.len(),
{
    if imports.len() == 0 {
        seq!["mscorlib"@]
    } else {
        let before = extern_names(imports.drop_last());
        if before.contains(imports.last().library@) {
            before
        } else {
            before.push(imports.last().library@)
        }
    }
}

pub open spec fn mscorlib_token() -> Seq<u8> {
    seq![0xB7u8, 0x7Au8, 0x5Cu8, 0x56u8, 0x19u8, 0x34u8, 0xE0u8, 0x89u8]
}

/// Whether a program is the lowering of a module: its name, version 1.0.0.0,
/// public, the referenced assemblies, the module `<name>.dll`, a type per
/// structure then per class, and a global method per function.
pub open spec fn clr_program_of(
    p: ClrProgram,
    m: GaiaModule,
    ft: Map<(Seq<char>, Seq<char>), Seq<char>>,
    tb: MappingTable,
) -> bool {
    let names = extern_names(m.imports@);
    let ns = m.structs@.len();
    &&& p.name@ == m.name@
    &&& p.version == ClrVersion { major: 1, minor: 0, build: 0, revision: 0 }
    &&& is_public_only(p.access_flags)
    &&& p.external_assemblies@.len() == names.len()
    &&& forall|i: int| 0 <= i < names.len() ==> (#[trigger] p.external_assemblies@[i]).name@ == names[i]
    &&& p.external_assemblies@[0].version == ClrVersion { major: 4, minor: 0, build: 0, revision: 0 }
    &&& p.external_assemblies@[0].public_key_token matches Some(t) && t@ == mscorlib_token()
    &&& forall|i: int|
        1 <= i < names.len() ==> (#[trigger] p.external_assemblies@[i]).version == ClrVersion {
            major: 0,
            minor: 0,
            build: 0,
            revision: 0,
        } && p.external_assemblies@[i].public_key_token is None
    &&& p.module_name@ == m.name@ + ".dll"@
    &&& p.types@.len() == ns + m.classes@.len()
    &&& forall|i: int| 0 <= i < ns ==> struct_type_is(#[trigger] p.types@[i], m.structs@[i])
    &&& forall|j: int| 0 <= j < m.classes@.len() ==> class_type_is(#[trigger] p.types@[ns + j], m.classes@[j], ft, tb)
    &&& methods_are(p.global_methods@, m.functions@, ft, tb)
}

fn public_only() -> (r: ClrAccessFlags)
    ensures
        is_public_only(r),
{
    ClrAccessFlags { is_public: true, is_private: false, is_security_transparent: false, is_retargetable: false }
}

/// The reference to a type (`type_ref_is`).
pub fn gaia_type_to_clr_type(t: &GaiaType) -> (r: ClrTypeReference)
    ensures
        type_ref_is(r, *t),
    decreases t,
{
    match t {
        GaiaType::Array(elem, _) => {
            let inner = gaia_type_to_clr_type(elem);
            let mut name = inner.name;
            push_str(&mut name, "[]");
            ClrTypeReference {
                name,
                namespace: None,
                assembly: None,
                is_value_type: false,
                is_reference_type: true,
                generic_parameters: Vec::new(),
            }
        },
        _ => {
            let name = match t {
                GaiaType::I8 => owned("int8"),
                GaiaType::U8 => owned("uint8"),
                GaiaType::I16 => owned("int16"),
                GaiaType::U16 => owned("uint16"),
                GaiaType::I32 => owned("int32"),
                GaiaType::U32 => owned("uint32"),
                GaiaType::I64 => owned("int64"),
                GaiaType::U64 => owned("uint64"),
                GaiaType::F32 => owned("float32"),
                GaiaType::F64 => owned("float64"),
                GaiaType::String => owned("string"),
                GaiaType::Bool => owned("bool"),
                GaiaType::Void => owned("void"),
                GaiaType::Class(n) => copy_string(n),
                GaiaType::Struct(n) => copy_string(n),
                _ => owned("object"),
            };
            let reference = match t {
                GaiaType::String => true,
                GaiaType::Object => true,
                GaiaType::Class(_) => true,
                _ => false,
            };
            ClrTypeReference {
                name,
                namespace: None,
                assembly: None,
                is_value_type: !reference,
                is_reference_type: reference,
                generic_parameters: Vec::new(),
            }
        },
    }
}

/// The method of a function (`method_is`).
fn method_of(f: &GaiaFunction, ft: &FieldTypes, mapper: &FunctionMapper) -> (r: Result<ClrMethod, GaiaError>)
    ensures
        match clr_body(f.blocks@, ft.as_map(), mapper.table()) {
            Some(s) => r matches Ok(m) && method_is(m, *f, s),
            None => r matches Err(GaiaError::Custom { message }) && message@ == "Unsupported constant type for CLR"@,
        },
{
    let instructions = match function_body(f, ft, mapper) {
        Ok(v) => v,
        Err(e) => {
            return Err(e);
        },
    };
    let ps = &f.signature.params;
    let mut parameters: Vec<ClrParameter> = Vec::new();
    let mut i: usize = 0;
    while i < ps.len()
        invariant
            i <= ps@.len(),
            ps == &f.signature.params,
            parameters@.len() == i,
            forall|j: int|
                0 <= j < i ==> {
                    &&& (#[trigger] parameters@[j]).name@ == "arg"@ + decimal_text(j)
                    &&& type_ref_is(parameters@[j].parameter_type, ps@[j])
                    &&& parameters@[j].is_in && !parameters@[j].is_out && !parameters@[j].is_optional
                },
        decreases ps.len() - i,
    {
        let mut name = owned("arg");
        push_str(&mut name, format_u64(i as u64).as_str());
        parameters.push(
            ClrParameter {
                name,
                parameter_type: gaia_type_to_clr_type(&ps[i]),
                is_in: true,
                is_out: false,
                is_optional: false,
            },
        );
        i = i + 1;
    }
    Ok(
        ClrMethod {
            name: copy_string(&f.name),
            return_type: gaia_type_to_clr_type(&f.signature.return_type),
            parameters,
            access_flags: public_only(),
            is_managed: true,
            instructions,
            max_stack: 8,
            locals: Vec::new(),
            is_entry_point: str_eq(f.name.as_str(), "main"),
        },
    )
}

/// The methods of functions, one for one; the first function whose body
/// has a constant without an instruction gives the error.
fn methods_of(fs: &Vec<GaiaFunction>, ft: &FieldTypes, mapper: &FunctionMapper) -> (r: Result<Vec<ClrMethod>, GaiaError>)
    ensures
        all_bodies(fs@, ft.as_map(), mapper.table()) ==> (r matches Ok(ms) && methods_are(
            ms@,
            fs@,
            ft.as_map(),
            mapper.table(),
        )),
        !all_bodies(fs@, ft.as_map(), mapper.table()) ==> (r matches Err(GaiaError::Custom { message })
            && message@ == "Unsupported constant type for CLR"@),
{
    let mut ms: Vec<ClrMethod> = Vec::new();
    let mut i: usize = 0;
    while i < fs.len()
        invariant
            i <= fs@.len(),
            ms@.len() == i,
            all_bodies(fs@.take(i as int), ft.as_map(), mapper.table()),
            forall|j: int|
                0 <= j < i ==> method_is(
                    #[trigger] ms@[j],
                    fs@[j],
                    clr_body(fs@[j].blocks@, ft.as_map(), mapper.table())->Some_0,
                ),
        decreases fs.len() - i,
    {
        match method_of(&fs[i], ft, mapper) {
            Ok(m) => {
                ms.push(m);
            },
            Err(e) => {
                assert(!all_bodies(fs@, ft.as_map(), mapper.table()));
                return Err(e);
            },
        }
        i = i + 1;
        assert forall|j: int| 0 <= j < i implies clr_body((#[trigger] fs@.take(i as int)[j]).blocks@, ft.as_map(), mapper.table()) is Some by {
            assert(fs@.take(i as int)[j] == fs@[j]);
            if j < i - 1 {
                assert(fs@.take(i - 1)[j] == fs@[j]);
            }
        }
    }
    assert(fs@.take(i as int) =~= fs@);
    Ok(ms)
}

/// The type of a structure (`struct_type_is`).
fn struct_type(s: &GaiaStruct) -> (r: ClrType)
    ensures
        struct_type_is(r, *s),
{
    let mut fields: Vec<ClrField> = Vec::new();
    let mut i: usize = 0;
    while i < s.fields.len()
        invariant
            i <= s.fields@.len(),
            fields@.len() == i,
            forall|j: int| 0 <= j < i ==> field_is(#[trigger] fields@[j], s.fields@[j].0@, s.fields@[j].1),
        decreases s.fields.len() - i,
    {
        fields.push(
            ClrField {
                name: copy_string(&s.fields[i].0),
                field_type: gaia_type_to_clr_type(&s.fields[i].1),
                access_flags: public_only(),
            },
        );
        i = i + 1;
    }
    ClrType {
        name: copy_string(&s.name),
        namespace: None,
        access_flags: public_only(),
        base_type: Some(owned("System.Object")),
        interfaces: Vec::new(),
        fields,
        methods: Vec::new(),
    }
}

/// The type of a class (`class_type_is`).
fn class_type(c: &GaiaClass, ft: &FieldTypes, mapper: &FunctionMapper) -> (r: Result<ClrType, GaiaError>)
    ensures
        all_bodies(c.methods@, ft.as_map(), mapper.table()) ==> (r matches Ok(ty) && class_type_is(
            ty,
            *c,
            ft.as_map(),
            mapper.table(),
        )),
        !all_bodies(c.methods@, ft.as_map(), mapper.table()) ==> (r matches Err(GaiaError::Custom { message })
            && message@ == "Unsupported constant type for CLR"@),
{
    let mut fields: Vec<ClrField> = Vec::new();
    let mut i: usize = 0;
    while i < c.fields.len()
        invariant
            i <= c.fields@.len(),
            fields@.len() == i,
            forall|j: int| 0 <= j < i ==> field_is(#[trigger] fields@[j], c.fields@[j].name@, c.fields@[j].ty),
        decreases c.fields.len() - i,
    {
        fields.push(
            ClrField {
                name: copy_string(&c.fields[i].name),
                field_type: gaia_type_to_clr_type(&c.fields[i].ty),
                access_flags: public_only(),
            },
        );
        i = i + 1;
    }
    let methods = match methods_of(&c.methods, ft, mapper) {
        Ok(ms) => ms,
        Err(e) => {
            return Err(e);
        },
    };
    Ok(
        ClrType {
            name: copy_string(&c.name),
            namespace: None,
            access_flags: public_only(),
            base_type: Some(owned("System.Object")),
            interfaces: Vec::new(),
            fields,
            methods,
        },
    )
}

/// The referenced assemblies of a module's imports (`extern_names`).
fn external_assemblies(imports: &Vec<crate::program::GaiaImport>) -> (r: Vec<ClrExternalAssembly>)
    ensures
        r@.len() == extern_names(imports@).len(),
        forall|i: int| 0 <= i < r@.len() ==> (#[trigger] r@[i]).name@ == extern_names(imports@)[i],
        r@[0].version == (ClrVersion { major: 4, minor: 0, build: 0, revision: 0 }),
        r@[0].public_key_token matches Some(t) && t@ == mscorlib_token(),
        forall|i: int|
            1 <= i < r@.len() ==> (#[trigger] r@[i]).version == (ClrVersion { major: 0, minor: 0, build: 0, revision: 0 })
                && (r@[i].public_key_token is None),
{
    let mut token: Vec<u8> = Vec::new();
    token.push(0xB7);
    token.push(0x7A);
    token.push(0x5C);
    token.push(0x56);
    token.push(0x19);
    token.push(0x34);
    token.push(0xE0);
    token.push(0x89);
    assert(token@ =~= mscorlib_token());
    let mut out: Vec<ClrExternalAssembly> = Vec::new();
    out.push(
        ClrExternalAssembly {
            name: owned("mscorlib"),
            version: ClrVersion { major: 4, minor: 0, build: 0, revision: 0 },
            public_key_token: Some(token),
        },
    );
    let mut k: usize = 0;
    assert(imports@.take(0) =~= seq![]);
    while k < imports.len()
        invariant
            k <= imports@.len(),
            out@.len() == extern_names(imports@.take(k as int)).len(),
            out@.len() >= 1,
            forall|i: int| 0 <= i < out@.len() ==> (#[trigger] out@[i]).name@ == extern_names(imports@.take(k as int))[i],
            out@[0].version == (ClrVersion { major: 4, minor: 0, build: 0, revision: 0 }),
            (out@[0].public_key_token matches Some(t) && t@ == mscorlib_token()),
            forall|i: int|
                1 <= i < out@.len() ==> (#[trigger] out@[i]).version == (ClrVersion { major: 0, minor: 0, build: 0, revision: 0 })
                    && (out@[i].public_key_token is None),
        decreases imports.len() - k,
    {
        proof {
            assert(imports@.take(k + 1).drop_last() =~= imports@.take(k as int));
        }
        let ghost names = extern_names(imports@.take(k as int));
        let lib = &imports[k].library;
        let mut found = false;
        let mut j: usize = 0;
        while j < out.len()
            invariant
                j <= out@.len(),
                found == exists|q: int| 0 <= q < j && (#[trigger] out@[q]).name@ == lib@,
            decreases out.len() - j,
        {
            if str_eq(out[j].name.as_str(), lib.as_str()) {
                found = true;
            }
            j = j + 1;
        }
        proof {
            if found {
                let q = choose|q: int| 0 <= q < j && (#[trigger] out@[q]).name@ == lib@;
                assert(names[q] == lib@);
                assert(names.contains(lib@));
            } else {
                if names.contains(lib@) {
                    let q = choose|q: int| 0 <= q < names.len() && names[q] == lib@;
                    assert(out@[q].name@ == lib@);
                }
            }
        }
        if !found {
            out.push(
                ClrExternalAssembly {
                    name: copy_string(lib),
                    version: ClrVersion { major: 0, minor: 0, build: 0, revision: 0 },
                    public_key_token: None,
                },
            );
        }
        k = k + 1;
    }
    assert(imports@.take(k as int) =~= imports@);
    out
}

/// What lowering a module to a CLR program gives with a function-mapping
/// table: the program, or the error of a constant without an instruction.
pub open spec fn clr_output(r: Result<ClrProgram, GaiaError>, m: GaiaModule, tb: MappingTable) -> bool {
    let ft = msil_field_types(m);
    if all_class_bodies(m.classes@, ft, tb) && all_bodies(m.functions@, ft, tb) {
        r matches Ok(p) && clr_program_of(p, m, ft, tb)
    } else {
        r matches Err(GaiaError::Custom { message }) && message@ == "Unsupported constant type for CLR"@
    }
}

fn lower_module(program: &GaiaModule, mapper: &FunctionMapper) -> (r: Result<ClrProgram, GaiaError>)
    ensures
        clr_output(r, *program, mapper.table()),
{
    let ft = crate::backends::msil::field_types_of(program);
    let ghost m = ft.as_map();
    let ghost tb = mapper.table();
    let mut types: Vec<ClrType> = Vec::new();
    let ss = &program.structs;
    let mut i: usize = 0;
    while i < ss.len()
        invariant
            i <= ss@.len(),
            ss == &program.structs,
            types@.len() == i,
            forall|j: int| 0 <= j < i ==> struct_type_is(#[trigger] types@[j], ss@[j]),
        decreases ss.len() - i,
    {
        types.push(struct_type(&ss[i]));
        i = i + 1;
    }
    let cs = &program.classes;
    let ns = ss.len();
    let mut c: usize = 0;
    while c < cs.len()
        invariant
            c <= cs@.len(),
            cs == &program.classes,
            ns == program.structs@.len(),
            m == ft.as_map(),
            m == msil_field_types(*program),
            tb == mapper.table(),
            types@.len() == ns + c,
            forall|j: int| 0 <= j < ns ==> struct_type_is(#[trigger] types@[j], program.structs@[j]),
            forall|j: int| 0 <= j < c ==> class_type_is(#[trigger] types@[ns + j], cs@[j], m, tb),
            forall|j: int| 0 <= j < c ==> all_bodies((#[trigger] cs@[j]).methods@, m, tb),
        decreases cs.len() - c,
    {
        match class_type(&cs[c], &ft, mapper) {
            Ok(ty) => {
                types.push(ty);
                assert(types@[ns + c as int] == ty);
            },
            Err(e) => {
                assert(!all_class_bodies(program.classes@, m, tb)) by {
                    assert(!all_bodies(cs@[c as int].methods@, m, tb));
                }
                return Err(e);
            },
        }
        c = c + 1;
    }
    assert(all_class_bodies(program.classes@, m, tb));
    let global_methods = match methods_of(&program.functions, &ft, mapper) {
        Ok(ms) => ms,
        Err(e) => {
            return Err(e);
        },
    };
    let mut module_name = copy_string(&program.name);
    push_str(&mut module_name, ".dll");
    Ok(
        ClrProgram {
            name: copy_string(&program.name),
            version: ClrVersion { major: 1, minor: 0, build: 0, revision: 0 },
            access_flags: public_only(),
            external_assemblies: external_assemblies(&program.imports),
            module_name,
            types,
            global_methods,
        },
    )
}

/// The CLR program of a module, with the function mappings of the given
/// settings, or of the default settings where none are given.
pub fn convert_to_clr_program(program: &GaiaModule, settings: Option<&GaiaSettings>) -> (r: Result<ClrProgram, GaiaError>)
    ensures
        match settings {
            Some(s) => clr_output(r, *program, apply_mappings(default_table(), s.function_mappings@)),
            None => clr_output(r, *program, crate::adapters::default_mapper_table()),
        },
{
    let mapper = match settings {
        Some(s) => match FunctionMapper::from_config(s) {
            Ok(m) => m,
            Err(_) => FunctionMapper::new(),
        },
        None => FunctionMapper::new(),
    };
    lower_module(program, &mapper)
}

proof fn lemma_instr_agree(i: GaiaInstruction, ft: Map<(Seq<char>, Seq<char>), Seq<char>>, tb: MappingTable)
    ensures
        (msil_instr(i, ft, tb) is None) == (clr_instr(i, ft, tb) is None),
{
}

proof fn lemma_instrs_agree(is: Seq<GaiaInstruction>, ft: Map<(Seq<char>, Seq<char>), Seq<char>>, tb: MappingTable)
    ensures
        (msil_instrs(is, ft, tb) is None) == (clr_instrs(is, ft, tb) is None),
    decreases is.len(),
{
    if is.len() > 0 {
        lemma_instrs_agree(is.drop_last(), ft, tb);
        lemma_instr_agree(is.last(), ft, tb);
    }
}

proof fn lemma_blocks_agree(bs: Seq<GaiaBlock>, ft: Map<(Seq<char>, Seq<char>), Seq<char>>, tb: MappingTable)
    ensures
        (msil_blocks(bs, ft, tb) is None) == (clr_body(bs, ft, tb) is None),
    decreases bs.len(),
{
    if bs.len() > 0 {
        lemma_blocks_agree(bs.drop_last(), ft, tb);
        lemma_instrs_agree(bs.last().instructions@, ft, tb);
    }
}

proof fn lemma_functions_agree(fs: Seq<GaiaFunction>, ft: Map<(Seq<char>, Seq<char>), Seq<char>>, tb: MappingTable)
    ensures
        (msil_functions(fs, ft, tb) is Some) == all_bodies(fs, ft, tb),
    decreases fs.len(),
{
    if fs.len() > 0 {
        lemma_functions_agree(fs.drop_last(), ft, tb);
        lemma_blocks_agree(fs.last().blocks@, ft, tb);
        if all_bodies(fs, ft, tb) {
            assert forall|i: int| 0 <= i < fs.drop_last().len() implies clr_body(
                (#[trigger] fs.drop_last()[i]).blocks@,
                ft,
                tb,
            ) is Some by {
                assert(fs.drop_last()[i] == fs[i]);
            }
            assert(clr_body(fs[fs.len() - 1].blocks@, ft, tb) is Some);
        }
        if all_bodies(fs.drop_last(), ft, tb) && clr_body(fs.last().blocks@, ft, tb) is Some {
            assert forall|i: int| 0 <= i < fs.len() implies clr_body((#[trigger] fs[i]).blocks@, ft, tb) is Some by {
                if i < fs.len() - 1 {
                    assert(fs.drop_last()[i] == fs[i]);
                }
            }
        }
    }
}

proof fn lemma_classes_agree(cs: Seq<GaiaClass>, ft: Map<(Seq<char>, Seq<char>), Seq<char>>, tb: MappingTable)
    ensures
        (msil_classes(cs, ft, tb) is Some) == all_class_bodies(cs, ft, tb),
    decreases cs.len(),
{
    if cs.len() > 0 {
        lemma_classes_agree(cs.drop_last(), ft, tb);
        lemma_functions_agree(cs.last().methods@, ft, tb);
        if all_class_bodies(cs, ft, tb) {
            assert forall|i: int| 0 <= i < cs.drop_last().len() implies all_bodies(
                (#[trigger] cs.drop_last()[i]).methods@,
                ft,
                tb,
            ) by {
                assert(cs.drop_last()[i] == cs[i]);
            }
            assert(all_bodies(cs[cs.len() - 1].methods@, ft, tb));
        }
        if all_class_bodies(cs.drop_last(), ft, tb) && all_bodies(cs.last().methods@, ft, tb) {
            assert forall|i: int| 0 <= i < cs.len() implies all_bodies((#[trigger] cs[i]).methods@, ft, tb) by {
                if i < cs.len() - 1 {
                    assert(cs.drop_last()[i] == cs[i]);
                }
            }
        }
    }
}

/// The text output and the program model of the CLR backend refuse the
/// same modules: the text exists exactly when every function and every
/// class method has a body.
pub proof fn law_text_and_program_refuse_alike(m: GaiaModule, tb: MappingTable)
    ensures
        (msil_module(m, msil_field_types(m), tb) is Some) == (all_class_bodies(m.classes@, msil_field_types(m), tb)
            && all_bodies(m.functions@, msil_field_types(m), tb)),
{
    lemma_classes_agree(m.classes@, msil_field_types(m), tb);
    lemma_functions_agree(m.functions@, msil_field_types(m), tb);
}

} // verus!
