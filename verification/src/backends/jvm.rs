//! Lowering of the tiered representation to JVM methods, fields and
//! classes: type descriptors, instruction selection and method assembly.
use vstd::prelude::*;
use crate::adapters::{apply_mappings, default_table, table_lookup, FunctionMapper, MappingTable};
use crate::config::{
    entries_map, lemma_lookup_absent, lemma_lookup_first, lemma_lookup_push, lemma_lookup_update,
    lookup,
};
use crate::error::GaiaError;
use crate::instruction::{CoreInstruction, GaiaInstruction};
use crate::program::{GaiaBlock, GaiaClass, GaiaConstant, GaiaField, GaiaFunction, GaiaGlobal, GaiaModule, GaiaTerminator, Visibility};
use crate::config::GaiaConfig;
use crate::target::{jvm_target, jvm_target_view, Architecture};
use crate::types::GaiaType;
use crate::text::{copy_string, decimal_text, format_i64, format_u64, owned, push_char, push_str, str_eq};

verus! {

/// `.` replaced by `/`, as in JVM internal class names.
pub open spec fn slashed(s: Seq<char>) -> Seq<char> {
    s.map_values(|c: char| if c == '.' { '/' } else { c })
}

/// A text with every `.` replaced by `/`.
pub fn replace_dots(s: &str) -> (r: String)
    ensures
        r@ == slashed(s@),
{
    let v = crate::text::chars_of(s);
    let mut out = String::new();
    let mut i: usize = 0;
    while i < v.len()
        invariant
            i <= v@.len(),
            v@ == s@,
            out@ == slashed(v@.take(i as int)),
        decreases v.len() - i,
    {
        push_char(&mut out, if v[i] == '.' { '/' } else { v[i] });
        i = i + 1;
        assert(out@ =~= slashed(v@.take(i as int)));
    }
    assert(v@.take(i as int) =~= v@);
    out
}

/// The JVM type descriptor of a type: `Z B S I J F D` for scalars (half
/// floats as `F`), `L<name>;` for classes, structures and strings, `[` and
/// the element's descriptor for arrays, `V` for void, and `Ljava/lang/Object;`
/// for everything else.
pub open spec fn jvm_descriptor(t: GaiaType) -> Seq<char>
    decreases t,
{
    match t {
        GaiaType::Bool => "Z"@,
        GaiaType::I8 | GaiaType::U8 => "B"@,
        GaiaType::I16 | GaiaType::U16 => "S"@,
        GaiaType::I32 | GaiaType::U32 => "I"@,
        GaiaType::I64 | GaiaType::U64 => "J"@,
        GaiaType::F32 | GaiaType::F16 => "F"@,
        GaiaType::F64 => "D"@,
        GaiaType::String => "Ljava/lang/String;"@,
        GaiaType::Class(name) => "L"@ + slashed(name@) + ";"@,
        GaiaType::Struct(name) => "L"@ + slashed(name@) + ";"@,
        GaiaType::Array(elem, _) => "["@ + jvm_descriptor(*elem),
        GaiaType::Void => "V"@,
        _ => "Ljava/lang/Object;"@,
    }
}

/// The JVM type descriptor of a type (see `jvm_descriptor`).
pub fn convert_gaia_type_to_jvm_descriptor(gaia_type: &GaiaType) -> (r: String)
    ensures
        r@ == jvm_descriptor(*gaia_type),
    decreases gaia_type,
{
    match gaia_type {
        GaiaType::Bool => owned("Z"),
        GaiaType::I8 | GaiaType::U8 => owned("B"),
        GaiaType::I16 | GaiaType::U16 => owned("S"),
        GaiaType::I32 | GaiaType::U32 => owned("I"),
        GaiaType::I64 | GaiaType::U64 => owned("J"),
        GaiaType::F32 | GaiaType::F16 => owned("F"),
        GaiaType::F64 => owned("D"),
        GaiaType::String => owned("Ljava/lang/String;"),
        GaiaType::Class(name) | GaiaType::Struct(name) => {
            let mut d = owned("L");
            let n = replace_dots(name.as_str());
            push_str(&mut d, n.as_str());
            push_str(&mut d, ";");
            d
        },
        GaiaType::Array(elem, _) => {
            let mut d = owned("[");
            let e = convert_gaia_type_to_jvm_descriptor(elem);
            push_str(&mut d, e.as_str());
            d
        },
        GaiaType::Void => owned("V"),
        GaiaType::Object => owned("Ljava/lang/Object;"),
        _ => owned("Ljava/lang/Object;"),
    }
}

/// The descriptors of a list of types, one after the other.
pub open spec fn descriptors(ts: Seq<GaiaType>) -> Seq<char>
    decreases ts.len(),
{
    if ts.len() == 0 {
        seq![]
    } else {
        descriptors(ts.drop_last()) + jvm_descriptor(ts.last())
    }
}

/// A method descriptor: the parameter descriptors in parentheses, then the
/// return type's descriptor, or `V` when there is none.
pub open spec fn method_descriptor(params: Seq<GaiaType>, ret: Option<GaiaType>) -> Seq<char> {
    "("@ + descriptors(params) + ")"@ + match ret {
        Some(t) => jvm_descriptor(t),
        None => "V"@,
    }
}

/// The method descriptor of parameter types and a return type.
pub fn build_method_descriptor(parameters: &[GaiaType], return_type: &Option<GaiaType>) -> (r: String)
    ensures
        r@ == method_descriptor(parameters@, *return_type),
{
    let mut descriptor = owned("(");
    let mut i: usize = 0;
    while i < parameters.len()
        invariant
            i <= parameters@.len(),
            descriptor@ == "("@ + descriptors(parameters@.take(i as int)),
        decreases parameters.len() - i,
    {
        let d = convert_gaia_type_to_jvm_descriptor(&parameters[i]);
        push_str(&mut descriptor, d.as_str());
        proof {
            assert(parameters@.take(i + 1).drop_last() =~= parameters@.take(i as int));
        }
        i = i + 1;
    }
    assert(parameters@.take(i as int) =~= parameters@);
    push_char(&mut descriptor, ')');
    match return_type {
        Some(ret_type) => {
            let d = convert_gaia_type_to_jvm_descriptor(ret_type);
            push_str(&mut descriptor, d.as_str());
        },
        None => push_char(&mut descriptor, 'V'),
    }
    proof {
        reveal_strlit(")");
        reveal_strlit("V");
    }
    assert(descriptor@ =~= method_descriptor(parameters@, *return_type));
    descriptor
}

/// JVM instructions, with symbolic operands (labels, pool symbols, names).
#[derive(Debug, Clone)]
pub enum JvmInstruction {
    AconstNull,
    IconstM1,
    Iconst0,
    Iconst1,
    Iconst2,
    Iconst3,
    Iconst4,
    Iconst5,
    Fconst0,
    Fconst1,
    Fconst2,
    Dconst0,
    Dconst1,
    Bipush { value: i8 },
    Sipush { value: i16 },
    Ldc { symbol: String },
    Ldc2W { symbol: String },
    Iload { index: u16 },
    Lload { index: u16 },
    Fload { index: u16 },
    Dload { index: u16 },
    Aload { index: u16 },
    Istore { index: u16 },
    Lstore { index: u16 },
    Fstore { index: u16 },
    Dstore { index: u16 },
    Astore { index: u16 },
    Iaload,
    Laload,
    Faload,
    Daload,
    Aaload,
    Baload,
    Saload,
    Iastore,
    Lastore,
    Fastore,
    Dastore,
    Aastore,
    Bastore,
    Sastore,
    Pop,
    Dup,
    Iadd,
    Isub,
    Imul,
    Idiv,
    Ifeq { target: String },
    Ifne { target: String },
    Goto { target: String },
    Return,
    Getfield { class_name: String, field_name: String, descriptor: String },
    Putfield { class_name: String, field_name: String, descriptor: String },
    Invokespecial { class_name: String, method_name: String, descriptor: String },
    Invokestatic { class_name: String, method_name: String, descriptor: String },
    New { class_name: String },
    Newarray { atype: u8 },
    Anewarray { class_name: String },
    Arraylength,
    Label { name: String },
}

/// A JVM instruction with its texts as character sequences.
pub ghost enum JvmOp {
    AconstNull,
    IconstM1,
    Iconst0,
    Iconst1,
    Iconst2,
    Iconst3,
    Iconst4,
    Iconst5,
    Fconst0,
    Fconst1,
    Fconst2,
    Dconst0,
    Dconst1,
    Bipush { value: i8 },
    Sipush { value: i16 },
    Ldc { symbol: Seq<char> },
    Ldc2W { symbol: Seq<char> },
    Iload { index: u16 },
    Lload { index: u16 },
    Fload { index: u16 },
    Dload { index: u16 },
    Aload { index: u16 },
    Istore { index: u16 },
    Lstore { index: u16 },
    Fstore { index: u16 },
    Dstore { index: u16 },
    Astore { index: u16 },
    Iaload,
    Laload,
    Faload,
    Daload,
    Aaload,
    Baload,
    Saload,
    Iastore,
    Lastore,
    Fastore,
    Dastore,
    Aastore,
    Bastore,
    Sastore,
    Pop,
    Dup,
    Iadd,
    Isub,
    Imul,
    Idiv,
    Ifeq { target: Seq<char> },
    Ifne { target: Seq<char> },
    Goto { target: Seq<char> },
    Return,
    Getfield { class_name: Seq<char>, field_name: Seq<char>, descriptor: Seq<char> },
    Putfield { class_name: Seq<char>, field_name: Seq<char>, descriptor: Seq<char> },
    Invokespecial { class_name: Seq<char>, method_name: Seq<char>, descriptor: Seq<char> },
    Invokestatic { class_name: Seq<char>, method_name: Seq<char>, descriptor: Seq<char> },
    New { class_name: Seq<char> },
    Newarray { atype: u8 },
    Anewarray { class_name: Seq<char> },
    Arraylength,
    Label { name: Seq<char> },
}

impl View for JvmInstruction {
    type V = JvmOp;

    open spec fn view(&self) -> JvmOp {
        match self {
            JvmInstruction::AconstNull => JvmOp::AconstNull,
            JvmInstruction::IconstM1 => JvmOp::IconstM1,
            JvmInstruction::Iconst0 => JvmOp::Iconst0,
            JvmInstruction::Iconst1 => JvmOp::Iconst1,
            JvmInstruction::Iconst2 => JvmOp::Iconst2,
            JvmInstruction::Iconst3 => JvmOp::Iconst3,
            JvmInstruction::Iconst4 => JvmOp::Iconst4,
            JvmInstruction::Iconst5 => JvmOp::Iconst5,
            JvmInstruction::Fconst0 => JvmOp::Fconst0,
            JvmInstruction::Fconst1 => JvmOp::Fconst1,
            JvmInstruction::Fconst2 => JvmOp::Fconst2,
            JvmInstruction::Dconst0 => JvmOp::Dconst0,
            JvmInstruction::Dconst1 => JvmOp::Dconst1,
            JvmInstruction::Bipush { value } => JvmOp::Bipush { value: *value },
            JvmInstruction::Sipush { value } => JvmOp::Sipush { value: *value },
            JvmInstruction::Ldc { symbol } => JvmOp::Ldc { symbol: symbol@ },
            JvmInstruction::Ldc2W { symbol } => JvmOp::Ldc2W { symbol: symbol@ },
            JvmInstruction::Iload { index } => JvmOp::Iload { index: *index },
            JvmInstruction::Lload { index } => JvmOp::Lload { index: *index },
            JvmInstruction::Fload { index } => JvmOp::Fload { index: *index },
            JvmInstruction::Dload { index } => JvmOp::Dload { index: *index },
            JvmInstruction::Aload { index } => JvmOp::Aload { index: *index },
            JvmInstruction::Istore { index } => JvmOp::Istore { index: *index },
            JvmInstruction::Lstore { index } => JvmOp::Lstore { index: *index },
            JvmInstruction::Fstore { index } => JvmOp::Fstore { index: *index },
            JvmInstruction::Dstore { index } => JvmOp::Dstore { index: *index },
            JvmInstruction::Astore { index } => JvmOp::Astore { index: *index },
            JvmInstruction::Iaload => JvmOp::Iaload,
            JvmInstruction::Laload => JvmOp::Laload,
            JvmInstruction::Faload => JvmOp::Faload,
            JvmInstruction::Daload => JvmOp::Daload,
            JvmInstruction::Aaload => JvmOp::Aaload,
            JvmInstruction::Baload => JvmOp::Baload,
            JvmInstruction::Saload => JvmOp::Saload,
            JvmInstruction::Iastore => JvmOp::Iastore,
            JvmInstruction::Lastore => JvmOp::Lastore,
            JvmInstruction::Fastore => JvmOp::Fastore,
            JvmInstruction::Dastore => JvmOp::Dastore,
            JvmInstruction::Aastore => JvmOp::Aastore,
            JvmInstruction::Bastore => JvmOp::Bastore,
            JvmInstruction::Sastore => JvmOp::Sastore,
            JvmInstruction::Pop => JvmOp::Pop,
            JvmInstruction::Dup => JvmOp::Dup,
            JvmInstruction::Iadd => JvmOp::Iadd,
            JvmInstruction::Isub => JvmOp::Isub,
            JvmInstruction::Imul => JvmOp::Imul,
            JvmInstruction::Idiv => JvmOp::Idiv,
            JvmInstruction::Ifeq { target } => JvmOp::Ifeq { target: target@ },
            JvmInstruction::Ifne { target } => JvmOp::Ifne { target: target@ },
            JvmInstruction::Goto { target } => JvmOp::Goto { target: target@ },
            JvmInstruction::Return => JvmOp::Return,
            JvmInstruction::Getfield { class_name, field_name, descriptor } => JvmOp::Getfield {
                class_name: class_name@,
                field_name: field_name@,
                descriptor: descriptor@,
            },
            JvmInstruction::Putfield { class_name, field_name, descriptor } => JvmOp::Putfield {
                class_name: class_name@,
                field_name: field_name@,
                descriptor: descriptor@,
            },
            JvmInstruction::Invokespecial { class_name, method_name, descriptor } => JvmOp::Invokespecial {
                class_name: class_name@,
                method_name: method_name@,
                descriptor: descriptor@,
            },
            JvmInstruction::Invokestatic { class_name, method_name, descriptor } => JvmOp::Invokestatic {
                class_name: class_name@,
                method_name: method_name@,
                descriptor: descriptor@,
            },
            JvmInstruction::New { class_name } => JvmOp::New { class_name: class_name@ },
            JvmInstruction::Newarray { atype } => JvmOp::Newarray { atype: *atype },
            JvmInstruction::Anewarray { class_name } => JvmOp::Anewarray { class_name: class_name@ },
            JvmInstruction::Arraylength => JvmOp::Arraylength,
            JvmInstruction::Label { name } => JvmOp::Label { name: name@ },
        }
    }
}

pub open spec fn ops_of(v: Seq<JvmInstruction>) -> Seq<JvmOp> {
    v.map_values(|i: JvmInstruction| i@)
}

/// Descriptors of fields, by class name and field name; a later entry for
/// the same field replaces the earlier one.
pub struct FieldTypes {
    entries: Vec<((String, String), String)>,
}

pub open spec fn field_pairs(v: Seq<((String, String), String)>) -> Seq<((Seq<char>, Seq<char>), Seq<char>)> {
    v.map_values(|e: ((String, String), String)| ((e.0.0@, e.0.1@), e.1@))
}

impl FieldTypes {
    /// The descriptor map.
    pub closed spec fn as_map(self) -> Map<(Seq<char>, Seq<char>), Seq<char>> {
        entries_map(field_pairs(self.entries@))
    }

    /// No field known.
    pub fn new() -> (r: FieldTypes)
        ensures
            r.as_map() == Map::<(Seq<char>, Seq<char>), Seq<char>>::empty(),
    {
        let r = FieldTypes { entries: Vec::new() };
        assert(field_pairs(r.entries@) =~= seq![]);
        assert(r.as_map() =~= Map::<(Seq<char>, Seq<char>), Seq<char>>::empty());
        r
    }

    fn find(&self, class_name: &str, field_name: &str) -> (r: Option<usize>)
        ensures
            match r {
                Some(i) => i < self.entries@.len() && field_pairs(self.entries@)[i as int].0 == (
                class_name@, field_name@) && forall|j: int|
                    0 <= j < i ==> (#[trigger] field_pairs(self.entries@)[j]).0 != (class_name@, field_name@),
                None => forall|j: int|
                    0 <= j < self.entries@.len() ==> (#[trigger] field_pairs(self.entries@)[j]).0 != (
                    class_name@, field_name@),
            },
    {
        let mut i: usize = 0;
        while i < self.entries.len()
            invariant
                i <= self.entries@.len(),
                forall|j: int| 0 <= j < i ==> (#[trigger] field_pairs(self.entries@)[j]).0 != (class_name@, field_name@),
            decreases self.entries.len() - i,
        {
            if str_eq(self.entries[i].0.0.as_str(), class_name) && str_eq(self.entries[i].0.1.as_str(), field_name) {
                return Some(i);
            }
            i = i + 1;
        }
        None
    }

    /// Records the descriptor of a field, replacing the one known.
    pub fn insert(&mut self, class_name: String, field_name: String, descriptor: String)
        ensures
            final(self).as_map() == old(self).as_map().insert((class_name@, field_name@), descriptor@),
    {
        let ghost k = (class_name@, field_name@);
        let ghost v = descriptor@;
        let ghost before = field_pairs(self.entries@);
        match self.find(class_name.as_str(), field_name.as_str()) {
            Some(i) => {
                self.entries.set(i, ((class_name, field_name), descriptor));
                proof {
                    assert(field_pairs(self.entries@) =~= before.update(i as int, (k, v)));
                    assert forall|k2: (Seq<char>, Seq<char>)| #![auto]
                        lookup(field_pairs(self.entries@), k2) == (if k2 == k {
                            Some(v)
                        } else {
                            lookup(before, k2)
                        }) by {
                        lemma_lookup_update(before, i as int, k, v, k2);
                    }
                }
            },
            None => {
                self.entries.push(((class_name, field_name), descriptor));
                proof {
                    assert(field_pairs(self.entries@) =~= before.push((k, v)));
                    lemma_lookup_absent(before, k);
                    assert forall|k2: (Seq<char>, Seq<char>)| #![auto]
                        lookup(field_pairs(self.entries@), k2) == (if k2 == k {
                            Some(v)
                        } else {
                            lookup(before, k2)
                        }) by {
                        lemma_lookup_push(before, k, v, k2);
                    }
                }
            },
        }
        assert(self.as_map() =~= old(self).as_map().insert(k, v));
    }

    /// The descriptor recorded for a field.
    pub fn get(&self, class_name: &str, field_name: &str) -> (r: Option<&String>)
        ensures
            match r {
                Some(d) => self.as_map().dom().contains((class_name@, field_name@)) && self.as_map()[(
                class_name@, field_name@)] == d@,
                None => !self.as_map().dom().contains((class_name@, field_name@)),
            },
    {
        match self.find(class_name, field_name) {
            Some(i) => {
                proof {
                    lemma_lookup_first(field_pairs(self.entries@), i as int);
                }
                Some(&self.entries[i].1)
            },
            None => {
                proof {
                    lemma_lookup_absent(field_pairs(self.entries@), (class_name@, field_name@));
                }
                None
            },
        }
    }
}

/// What a JVM compilation consults: the function mapper and the field
/// descriptors.
pub struct JvmContext {
    pub function_mapper: FunctionMapper,
    pub field_types: FieldTypes,
}

/// What lowering an instruction gives: JVM instructions, or an error
/// (`Custom` for an unsupported constant, `NotImplemented` for a feature).
pub ghost enum JvmOutcome {
    Ops(Seq<JvmOp>),
    Unsupported(Seq<char>),
    Missing(Seq<char>),
}

/// Whether a result is the outcome.
pub open spec fn result_is<T>(r: Result<T, GaiaError>, ok: spec_fn(T) -> Seq<JvmOp>, o: JvmOutcome) -> bool {
    match o {
        JvmOutcome::Ops(s) => r matches Ok(v) && ok(v) == s,
        JvmOutcome::Unsupported(m) => r matches Err(GaiaError::Custom { message }) && message@ == m,
        JvmOutcome::Missing(f) => r matches Err(GaiaError::NotImplemented { feature }) && feature@ == f,
    }
}

pub open spec fn vec_ops(v: Vec<JvmInstruction>) -> Seq<JvmOp> {
    ops_of(v@)
}

/// How an `i32` constant is pushed: `iconst_<n>` for -1..=5, `bipush` for a
/// byte, `sipush` for a short, `ldc` of its decimal text otherwise.
pub open spec fn int_push(v: i32) -> JvmOp {
    if v == 0 {
        JvmOp::Iconst0
    } else if v == 1 {
        JvmOp::Iconst1
    } else if v == 2 {
        JvmOp::Iconst2
    } else if v == 3 {
        JvmOp::Iconst3
    } else if v == 4 {
        JvmOp::Iconst4
    } else if v == 5 {
        JvmOp::Iconst5
    } else if v == -1 {
        JvmOp::IconstM1
    } else if -128 <= v <= 127 {
        JvmOp::Bipush { value: v as i8 }
    } else if -32768 <= v <= 32767 {
        JvmOp::Sipush { value: v as i16 }
    } else {
        JvmOp::Ldc { symbol: decimal_text(v as int) }
    }
}

/// Whether single floats with these bits equal 0.0, 1.0 or 2.0.
pub open spec fn f32_equals(bits: u32, value: int) -> bool {
    if value == 0 {
        bits == 0 || bits == 0x8000_0000
    } else if value == 1 {
        bits == 0x3f80_0000
    } else {
        bits == 0x4000_0000
    }
}

/// Whether double floats with these bits equal 0.0 or 1.0.
pub open spec fn f64_equals(bits: u64, value: int) -> bool {
    if value == 0 {
        bits == 0 || bits == 0x8000_0000_0000_0000
    } else {
        bits == 0x3ff0_0000_0000_0000
    }
}

/// How a constant is pushed.
pub open spec fn constant_push(c: GaiaConstant) -> JvmOutcome {
    match c {
        GaiaConstant::I8(v) => JvmOutcome::Ops(seq![JvmOp::Bipush { value: v }]),
        GaiaConstant::U8(v) => JvmOutcome::Ops(seq![JvmOp::Bipush { value: v as i8 }]),
        GaiaConstant::I16(v) => JvmOutcome::Ops(seq![JvmOp::Sipush { value: v }]),
        GaiaConstant::U16(v) => JvmOutcome::Ops(seq![JvmOp::Sipush { value: v as i16 }]),
        GaiaConstant::I32(v) => JvmOutcome::Ops(seq![int_push(v)]),
        GaiaConstant::U32(v) => JvmOutcome::Ops(seq![JvmOp::Ldc { symbol: decimal_text(v as int) }]),
        GaiaConstant::I64(v) => JvmOutcome::Ops(seq![JvmOp::Ldc2W { symbol: decimal_text(v as int) }]),
        GaiaConstant::U64(v) => JvmOutcome::Ops(seq![JvmOp::Ldc2W { symbol: decimal_text(v as int) }]),
        GaiaConstant::F32 { bits, text } => JvmOutcome::Ops(
            seq![
                if f32_equals(bits, 0) {
                    JvmOp::Fconst0
                } else if f32_equals(bits, 1) {
                    JvmOp::Fconst1
                } else if f32_equals(bits, 2) {
                    JvmOp::Fconst2
                } else {
                    JvmOp::Ldc { symbol: text@ }
                },
            ],
        ),
        GaiaConstant::F64 { bits, text } => JvmOutcome::Ops(
            seq![
                if f64_equals(bits, 0) {
                    JvmOp::Dconst0
                } else if f64_equals(bits, 1) {
                    JvmOp::Dconst1
                } else {
                    JvmOp::Ldc2W { symbol: text@ }
                },
            ],
        ),
        GaiaConstant::String(v) => JvmOutcome::Ops(seq![JvmOp::Ldc { symbol: v@ }]),
        GaiaConstant::Bool(v) => JvmOutcome::Ops(seq![if v { JvmOp::Iconst1 } else { JvmOp::Iconst0 }]),
        GaiaConstant::Null => JvmOutcome::Ops(seq![JvmOp::AconstNull]),
        _ => JvmOutcome::Unsupported("Unsupported constant type for JVM"@),
    }
}

/// The kinds of value slots a type takes.
pub ghost enum SlotKind {
    Int,
    Long,
    Single,
    Double,
    Reference,
}

/// The slot kind of a type: int for booleans and integers up to 32 bits.
pub open spec fn slot_kind(t: GaiaType) -> SlotKind {
    match t {
        GaiaType::I32 | GaiaType::U32 | GaiaType::Bool | GaiaType::I8 | GaiaType::U8 | GaiaType::I16
        | GaiaType::U16 => SlotKind::Int,
        GaiaType::I64 | GaiaType::U64 => SlotKind::Long,
        GaiaType::F32 => SlotKind::Single,
        GaiaType::F64 => SlotKind::Double,
        _ => SlotKind::Reference,
    }
}

/// Loading a local or an argument slot (its index cut to 16 bits).
pub open spec fn slot_load(index: u32, t: GaiaType) -> JvmOp {
    let i = index as u16;
    match slot_kind(t) {
        SlotKind::Int => JvmOp::Iload { index: i },
        SlotKind::Long => JvmOp::Lload { index: i },
        SlotKind::Single => JvmOp::Fload { index: i },
        SlotKind::Double => JvmOp::Dload { index: i },
        SlotKind::Reference => JvmOp::Aload { index: i },
    }
}

/// Storing to a local or an argument slot (its index cut to 16 bits).
pub open spec fn slot_store(index: u32, t: GaiaType) -> JvmOp {
    let i = index as u16;
    match slot_kind(t) {
        SlotKind::Int => JvmOp::Istore { index: i },
        SlotKind::Long => JvmOp::Lstore { index: i },
        SlotKind::Single => JvmOp::Fstore { index: i },
        SlotKind::Double => JvmOp::Dstore { index: i },
        SlotKind::Reference => JvmOp::Astore { index: i },
    }
}

/// The array element kinds.
pub ghost enum ElemKind {
    Int,
    Long,
    Single,
    Double,
    Byte,
    Short,
    Reference,
}

/// The element kind of a type: booleans are bytes.
pub open spec fn elem_kind(t: GaiaType) -> ElemKind {
    match t {
        GaiaType::I32 | GaiaType::U32 => ElemKind::Int,
        GaiaType::I64 | GaiaType::U64 => ElemKind::Long,
        GaiaType::F32 => ElemKind::Single,
        GaiaType::F64 => ElemKind::Double,
        GaiaType::I8 | GaiaType::U8 | GaiaType::Bool => ElemKind::Byte,
        GaiaType::I16 | GaiaType::U16 => ElemKind::Short,
        _ => ElemKind::Reference,
    }
}

pub open spec fn elem_load(t: GaiaType) -> JvmOp {
    match elem_kind(t) {
        ElemKind::Int => JvmOp::Iaload,
        ElemKind::Long => JvmOp::Laload,
        ElemKind::Single => JvmOp::Faload,
        ElemKind::Double => JvmOp::Daload,
        ElemKind::Byte => JvmOp::Baload,
        ElemKind::Short => JvmOp::Saload,
        ElemKind::Reference => JvmOp::Aaload,
    }
}

pub open spec fn elem_store(t: GaiaType) -> JvmOp {
    match elem_kind(t) {
        ElemKind::Int => JvmOp::Iastore,
        ElemKind::Long => JvmOp::Lastore,
        ElemKind::Single => JvmOp::Fastore,
        ElemKind::Double => JvmOp::Dastore,
        ElemKind::Byte => JvmOp::Bastore,
        ElemKind::Short => JvmOp::Sastore,
        ElemKind::Reference => JvmOp::Aastore,
    }
}

/// A new array: `newarray` with the primitive type code (int 10, long 11,
/// float 6, double 7, byte 8, boolean 4, short 9), or `anewarray` of the
/// element's descriptor.
pub open spec fn new_array(t: GaiaType) -> JvmOp {
    match t {
        GaiaType::I32 | GaiaType::U32 => JvmOp::Newarray { atype: 10 },
        GaiaType::I64 | GaiaType::U64 => JvmOp::Newarray { atype: 11 },
        GaiaType::F32 => JvmOp::Newarray { atype: 6 },
        GaiaType::F64 => JvmOp::Newarray { atype: 7 },
        GaiaType::I8 | GaiaType::U8 => JvmOp::Newarray { atype: 8 },
        GaiaType::Bool => JvmOp::Newarray { atype: 4 },
        GaiaType::I16 | GaiaType::U16 => JvmOp::Newarray { atype: 9 },
        _ => JvmOp::Anewarray { class_name: jvm_descriptor(t) },
    }
}

/// The name a call uses on the JVM: the mapped one, or the name itself.
pub open spec fn mapped_name(tb: MappingTable, name: Seq<char>) -> Seq<char> {
    match table_lookup(tb, jvm_target_view(), name) {
        Some(m) => m,
        None => name,
    }
}

/// The descriptor of a call with `n` int arguments returning nothing.
pub open spec fn int_args_descriptor(n: nat) -> Seq<char> {
    "("@ + Seq::new(n, |i: int| 'I') + ")V"@
}

/// The descriptor recorded for a field, or that of `Object`.
pub open spec fn field_descriptor(ft: Map<(Seq<char>, Seq<char>), Seq<char>>, class: Seq<char>, field: Seq<char>) -> Seq<char> {
    if ft.dom().contains((class, field)) {
        ft[(class, field)]
    } else {
        "Ljava/lang/Object;"@
    }
}

/// The JVM instructions for an instruction, given the mapping table and
/// the field descriptors. Indirect loads and stores are not implemented;
/// instructions without a JVM form, and managed and domain instructions,
/// give none.
pub open spec fn jvm_lowering(
    instr: GaiaInstruction,
    tb: MappingTable,
    ft: Map<(Seq<char>, Seq<char>), Seq<char>>,
) -> JvmOutcome {
    match instr {
        GaiaInstruction::Core(core) => match core {
            CoreInstruction::PushConstant(c) => constant_push(c),
            CoreInstruction::Load(_) => JvmOutcome::Missing("JVM indirect load"@),
            CoreInstruction::Store(_) => JvmOutcome::Missing("JVM indirect store"@),
            CoreInstruction::Add(_) => JvmOutcome::Ops(seq![JvmOp::Iadd]),
            CoreInstruction::Sub(_) => JvmOutcome::Ops(seq![JvmOp::Isub]),
            CoreInstruction::Mul(_) => JvmOutcome::Ops(seq![JvmOp::Imul]),
            CoreInstruction::Div(_) => JvmOutcome::Ops(seq![JvmOp::Idiv]),
            CoreInstruction::Pop => JvmOutcome::Ops(seq![JvmOp::Pop]),
            CoreInstruction::Dup => JvmOutcome::Ops(seq![JvmOp::Dup]),
            CoreInstruction::Ret => JvmOutcome::Ops(seq![JvmOp::Return]),
            CoreInstruction::Br(l) => JvmOutcome::Ops(seq![JvmOp::Goto { target: l@ }]),
            CoreInstruction::BrTrue(l) => JvmOutcome::Ops(seq![JvmOp::Ifne { target: l@ }]),
            CoreInstruction::BrFalse(l) => JvmOutcome::Ops(seq![JvmOp::Ifeq { target: l@ }]),
            CoreInstruction::Label(n) => JvmOutcome::Ops(seq![JvmOp::Label { name: n@ }]),
            CoreInstruction::Call(name, n) => JvmOutcome::Ops(
                seq![
                    JvmOp::Invokestatic {
                        class_name: "Main"@,
                        method_name: mapped_name(tb, name@),
                        descriptor: int_args_descriptor(n as nat),
                    },
                ],
            ),
            CoreInstruction::LoadLocal(i, t) => JvmOutcome::Ops(seq![slot_load(i, t)]),
            CoreInstruction::StoreLocal(i, t) => JvmOutcome::Ops(seq![slot_store(i, t)]),
            CoreInstruction::LoadArg(i, t) => JvmOutcome::Ops(seq![slot_load(i, t)]),
            CoreInstruction::StoreArg(i, t) => JvmOutcome::Ops(seq![slot_store(i, t)]),
            CoreInstruction::New(t) => JvmOutcome::Ops(
                seq![
                    JvmOp::New { class_name: slashed(t@) },
                    JvmOp::Dup,
                    JvmOp::Invokespecial {
                        class_name: slashed(t@),
                        method_name: "<init>"@,
                        descriptor: "()V"@,
                    },
                ],
            ),
            CoreInstruction::LoadField(t, f) => JvmOutcome::Ops(
                seq![
                    JvmOp::Getfield {
                        class_name: slashed(t@),
                        field_name: f@,
                        descriptor: field_descriptor(ft, t@, f@),
                    },
                ],
            ),
            CoreInstruction::StoreField(t, f) => JvmOutcome::Ops(
                seq![
                    JvmOp::Putfield {
                        class_name: slashed(t@),
                        field_name: f@,
                        descriptor: field_descriptor(ft, t@, f@),
                    },
                ],
            ),
            CoreInstruction::LoadElement(t) => JvmOutcome::Ops(seq![elem_load(t)]),
            CoreInstruction::StoreElement(t) => JvmOutcome::Ops(seq![elem_store(t)]),
            CoreInstruction::ArrayLength => JvmOutcome::Ops(seq![JvmOp::Arraylength]),
            CoreInstruction::NewArray(t, _) => JvmOutcome::Ops(seq![new_array(t)]),
            _ => JvmOutcome::Ops(seq![]),
        },
        _ => JvmOutcome::Ops(seq![]),
    }
}

impl JvmContext {
    /// The mapping table consulted.
    pub open spec fn table(self) -> MappingTable {
        self.function_mapper.table()
    }

    /// The field descriptors consulted.
    pub open spec fn fields(self) -> Map<(Seq<char>, Seq<char>), Seq<char>> {
        self.field_types.as_map()
    }
}

fn one(i: JvmInstruction) -> (r: Vec<JvmInstruction>)
    ensures
        ops_of(r@) == seq![i@],
{
    let mut v: Vec<JvmInstruction> = Vec::new();
    v.push(i);
    assert(ops_of(v@) =~= seq![i@]);
    v
}

fn push_int(v: i32) -> (r: JvmInstruction)
    ensures
        r@ == int_push(v),
{
    match v {
        0 => JvmInstruction::Iconst0,
        1 => JvmInstruction::Iconst1,
        2 => JvmInstruction::Iconst2,
        3 => JvmInstruction::Iconst3,
        4 => JvmInstruction::Iconst4,
        5 => JvmInstruction::Iconst5,
        -1 => JvmInstruction::IconstM1,
        _ => {
            if v >= -128 && v <= 127 {
                JvmInstruction::Bipush { value: v as i8 }
            } else if v >= -32768 && v <= 32767 {
                JvmInstruction::Sipush { value: v as i16 }
            } else {
                JvmInstruction::Ldc { symbol: format_i64(v as i64) }
            }
        },
    }
}

fn push_constant(constant: &GaiaConstant) -> (r: Result<Vec<JvmInstruction>, GaiaError>)
    ensures
        result_is(r, |v: Vec<JvmInstruction>| vec_ops(v), constant_push(*constant)),
{
    match constant {
        GaiaConstant::I8(value) => Ok(one(JvmInstruction::Bipush { value: *value })),
        GaiaConstant::U8(value) => Ok(one(JvmInstruction::Bipush { value: *value as i8 })),
        GaiaConstant::I16(value) => Ok(one(JvmInstruction::Sipush { value: *value })),
        GaiaConstant::U16(value) => Ok(one(JvmInstruction::Sipush { value: *value as i16 })),
        GaiaConstant::I32(value) => Ok(one(push_int(*value))),
        GaiaConstant::U32(value) => Ok(one(JvmInstruction::Ldc { symbol: format_u64(*value as u64) })),
        GaiaConstant::I64(value) => Ok(one(JvmInstruction::Ldc2W { symbol: format_i64(*value) })),
        GaiaConstant::U64(value) => Ok(one(JvmInstruction::Ldc2W { symbol: format_u64(*value) })),
        GaiaConstant::F32 { bits, text } => {
            let b = *bits;
            Ok(
                one(
                    if b == 0 || b == 0x8000_0000 {
                        JvmInstruction::Fconst0
                    } else if b == 0x3f80_0000 {
                        JvmInstruction::Fconst1
                    } else if b == 0x4000_0000 {
                        JvmInstruction::Fconst2
                    } else {
                        JvmInstruction::Ldc { symbol: copy_string(text) }
                    },
                ),
            )
        },
        GaiaConstant::F64 { bits, text } => {
            let b = *bits;
            Ok(
                one(
                    if b == 0 || b == 0x8000_0000_0000_0000 {
                        JvmInstruction::Dconst0
                    } else if b == 0x3ff0_0000_0000_0000 {
                        JvmInstruction::Dconst1
                    } else {
                        JvmInstruction::Ldc2W { symbol: copy_string(text) }
                    },
                ),
            )
        },
        GaiaConstant::String(value) => Ok(one(JvmInstruction::Ldc { symbol: copy_string(value) })),
        GaiaConstant::Bool(value) => Ok(
            one(
                if *value {
                    JvmInstruction::Iconst1
                } else {
                    JvmInstruction::Iconst0
                },
            ),
        ),
        GaiaConstant::Null => Ok(one(JvmInstruction::AconstNull)),
        _ => Err(GaiaError::custom_error("Unsupported constant type for JVM")),
    }
}

fn load_slot(index: u32, ty: &GaiaType) -> (r: JvmInstruction)
    ensures
        r@ == slot_load(index, *ty),
{
    let i = index as u16;
    match ty {
        GaiaType::I32 | GaiaType::U32 | GaiaType::Bool | GaiaType::I8 | GaiaType::U8 | GaiaType::I16
        | GaiaType::U16 => JvmInstruction::Iload { index: i },
        GaiaType::I64 | GaiaType::U64 => JvmInstruction::Lload { index: i },
        GaiaType::F32 => JvmInstruction::Fload { index: i },
        GaiaType::F64 => JvmInstruction::Dload { index: i },
        _ => JvmInstruction::Aload { index: i },
    }
}

fn store_slot(index: u32, ty: &GaiaType) -> (r: JvmInstruction)
    ensures
        r@ == slot_store(index, *ty),
{
    let i = index as u16;
    match ty {
        GaiaType::I32 | GaiaType::U32 | GaiaType::Bool | GaiaType::I8 | GaiaType::U8 | GaiaType::I16
        | GaiaType::U16 => JvmInstruction::Istore { index: i },
        GaiaType::I64 | GaiaType::U64 => JvmInstruction::Lstore { index: i },
        GaiaType::F32 => JvmInstruction::Fstore { index: i },
        GaiaType::F64 => JvmInstruction::Dstore { index: i },
        _ => JvmInstruction::Astore { index: i },
    }
}

fn load_element(ty: &GaiaType) -> (r: JvmInstruction)
    ensures
        r@ == elem_load(*ty),
{
    match ty {
        GaiaType::I32 | GaiaType::U32 => JvmInstruction::Iaload,
        GaiaType::I64 | GaiaType::U64 => JvmInstruction::Laload,
        GaiaType::F32 => JvmInstruction::Faload,
        GaiaType::F64 => JvmInstruction::Daload,
        GaiaType::I8 | GaiaType::U8 | GaiaType::Bool => JvmInstruction::Baload,
        GaiaType::I16 | GaiaType::U16 => JvmInstruction::Saload,
        _ => JvmInstruction::Aaload,
    }
}

fn store_element(ty: &GaiaType) -> (r: JvmInstruction)
    ensures
        r@ == elem_store(*ty),
{
    match ty {
        GaiaType::I32 | GaiaType::U32 => JvmInstruction::Iastore,
        GaiaType::I64 | GaiaType::U64 => JvmInstruction::Lastore,
        GaiaType::F32 => JvmInstruction::Fastore,
        GaiaType::F64 => JvmInstruction::Dastore,
        GaiaType::I8 | GaiaType::U8 | GaiaType::Bool => JvmInstruction::Bastore,
        GaiaType::I16 | GaiaType::U16 => JvmInstruction::Sastore,
        _ => JvmInstruction::Aastore,
    }
}

fn new_array_of(elem_type: &GaiaType) -> (r: JvmInstruction)
    ensures
        r@ == new_array(*elem_type),
{
    match elem_type {
        GaiaType::I32 | GaiaType::U32 => JvmInstruction::Newarray { atype: 10 },
        GaiaType::I64 | GaiaType::U64 => JvmInstruction::Newarray { atype: 11 },
        GaiaType::F32 => JvmInstruction::Newarray { atype: 6 },
        GaiaType::F64 => JvmInstruction::Newarray { atype: 7 },
        GaiaType::I8 | GaiaType::U8 => JvmInstruction::Newarray { atype: 8 },
        GaiaType::Bool => JvmInstruction::Newarray { atype: 4 },
        GaiaType::I16 | GaiaType::U16 => JvmInstruction::Newarray { atype: 9 },
        _ => JvmInstruction::Anewarray { class_name: convert_gaia_type_to_jvm_descriptor(elem_type) },
    }
}

/// The name a call uses on the JVM.
fn jvm_call_name(ctx: &JvmContext, name: &str) -> (r: String)
    ensures
        r@ == mapped_name(ctx.table(), name@),
{
    let jvm = jvm_target();
    match ctx.function_mapper.map_function(&jvm, name) {
        Some(m) => owned(m),
        None => owned(name),
    }
}

fn int_args(n: usize) -> (r: String)
    ensures
        r@ == int_args_descriptor(n as nat),
{
    let mut d = owned("(");
    let mut i: usize = 0;
    while i < n
        invariant
            i <= n,
            d@ == "("@ + Seq::new(i as nat, |k: int| 'I'),
        decreases n - i,
    {
        push_char(&mut d, 'I');
        i = i + 1;
        assert(d@ =~= "("@ + Seq::new(i as nat, |k: int| 'I'));
    }
    push_str(&mut d, ")V");
    d
}

fn field_descriptor_of(ctx: &JvmContext, class_name: &str, field_name: &str) -> (r: String)
    ensures
        r@ == field_descriptor(ctx.fields(), class_name@, field_name@),
{
    match ctx.field_types.get(class_name, field_name) {
        Some(d) => copy_string(d),
        None => owned("Ljava/lang/Object;"),
    }
}

/// The JVM instructions for an instruction (see `jvm_lowering`).
pub fn convert_gaia_instruction_to_jvm(instruction: &GaiaInstruction, ctx: &JvmContext) -> (r: Result<
    Vec<JvmInstruction>,
    GaiaError,
>)
    ensures
        result_is(
            r,
            |v: Vec<JvmInstruction>| vec_ops(v),
            jvm_lowering(*instruction, ctx.table(), ctx.fields()),
        ),
{
    match instruction {
        GaiaInstruction::Core(core) => match core {
            CoreInstruction::PushConstant(constant) => push_constant(constant),
            CoreInstruction::Load(_) => Err(GaiaError::not_implemented("JVM indirect load")),
            CoreInstruction::Store(_) => Err(GaiaError::not_implemented("JVM indirect store")),
            CoreInstruction::Add(_) => Ok(one(JvmInstruction::Iadd)),
            CoreInstruction::Sub(_) => Ok(one(JvmInstruction::Isub)),
            CoreInstruction::Mul(_) => Ok(one(JvmInstruction::Imul)),
            CoreInstruction::Div(_) => Ok(one(JvmInstruction::Idiv)),
            CoreInstruction::Pop => Ok(one(JvmInstruction::Pop)),
            CoreInstruction::Dup => Ok(one(JvmInstruction::Dup)),
            CoreInstruction::Ret => Ok(one(JvmInstruction::Return)),
            CoreInstruction::Br(label) => Ok(one(JvmInstruction::Goto { target: copy_string(label) })),
            CoreInstruction::BrTrue(label) => Ok(one(JvmInstruction::Ifne { target: copy_string(label) })),
            CoreInstruction::BrFalse(label) => Ok(one(JvmInstruction::Ifeq { target: copy_string(label) })),
            CoreInstruction::Label(name) => Ok(one(JvmInstruction::Label { name: copy_string(name) })),
            CoreInstruction::Call(name, arg_count) => Ok(
                one(
                    JvmInstruction::Invokestatic {
                        class_name: owned("Main"),
                        method_name: jvm_call_name(ctx, name.as_str()),
                        descriptor: int_args(*arg_count),
                    },
                ),
            ),
            CoreInstruction::LoadLocal(index, ty) => Ok(one(load_slot(*index, ty))),
            CoreInstruction::StoreLocal(index, ty) => Ok(one(store_slot(*index, ty))),
            CoreInstruction::LoadArg(index, ty) => Ok(one(load_slot(*index, ty))),
            CoreInstruction::StoreArg(index, ty) => Ok(one(store_slot(*index, ty))),
            CoreInstruction::New(class_path) => {
                let mut v: Vec<JvmInstruction> = Vec::new();
                v.push(JvmInstruction::New { class_name: replace_dots(class_path.as_str()) });
                v.push(JvmInstruction::Dup);
                v.push(
                    JvmInstruction::Invokespecial {
                        class_name: replace_dots(class_path.as_str()),
                        method_name: owned("<init>"),
                        descriptor: owned("()V"),
                    },
                );
                assert(ops_of(v@) =~= seq![v@[0]@, v@[1]@, v@[2]@]);
                Ok(v)
            },
            CoreInstruction::LoadField(class_path, field_name) => {
                let descriptor = field_descriptor_of(ctx, class_path.as_str(), field_name.as_str());
                Ok(
                    one(
                        JvmInstruction::Getfield {
                            class_name: replace_dots(class_path.as_str()),
                            field_name: copy_string(field_name),
                            descriptor,
                        },
                    ),
                )
            },
            CoreInstruction::StoreField(class_path, field_name) => {
                let descriptor = field_descriptor_of(ctx, class_path.as_str(), field_name.as_str());
                Ok(
                    one(
                        JvmInstruction::Putfield {
                            class_name: replace_dots(class_path.as_str()),
                            field_name: copy_string(field_name),
                            descriptor,
                        },
                    ),
                )
            },
            CoreInstruction::LoadElement(ty) => Ok(one(load_element(ty))),
            CoreInstruction::StoreElement(ty) => Ok(one(store_element(ty))),
            CoreInstruction::ArrayLength => Ok(one(JvmInstruction::Arraylength)),
            CoreInstruction::NewArray(elem_type, _) => Ok(one(new_array_of(elem_type))),
            _ => {
                let v: Vec<JvmInstruction> = Vec::new();
                assert(ops_of(v@) =~= seq![]);
                Ok(v)
            },
        },
        _ => {
            let v: Vec<JvmInstruction> = Vec::new();
            assert(ops_of(v@) =~= seq![]);
            Ok(v)
        },
    }
}

/// Access flags of a JVM class, method or field.
#[derive(Debug, Clone, Copy, PartialEq, Eq, Structural)]
pub struct JvmAccessFlags {
    pub is_public: bool,
    pub is_private: bool,
    pub is_protected: bool,
    pub is_static: bool,
}

/// No access flag set.
pub open spec fn no_flags() -> JvmAccessFlags {
    JvmAccessFlags { is_public: false, is_private: false, is_protected: false, is_static: false }
}

/// A JVM method: name, descriptor, flags, code and frame limits.
#[derive(Debug, Clone)]
pub struct JvmMethod {
    pub name: String,
    pub descriptor: String,
    pub access_flags: JvmAccessFlags,
    pub instructions: Vec<JvmInstruction>,
    pub max_stack: u16,
    pub max_locals: u16,
}

/// A JVM field: name, descriptor and flags.
#[derive(Debug, Clone)]
pub struct JvmField {
    pub name: String,
    pub descriptor: String,
    pub access_flags: JvmAccessFlags,
}

/// A class-file version.
#[derive(Debug, Clone, Copy, PartialEq, Eq, Structural)]
pub struct JvmVersion {
    pub major: u16,
    pub minor: u16,
}

/// A JVM class: name, version, flags, methods and fields.
#[derive(Debug, Clone)]
pub struct JvmProgram {
    pub name: String,
    pub version: JvmVersion,
    pub access_flags: JvmAccessFlags,
    pub methods: Vec<JvmMethod>,
    pub fields: Vec<JvmField>,
}

/// What ends a block: a jump is a `goto`; a branch tests for non-zero and
/// otherwise goes to the false label; a call of a mapped function is an
/// `invokestatic` on `Main` followed by a `goto` to the next block; a halt
/// calls `System.exit(0)`.
pub open spec fn terminator_ops(t: GaiaTerminator, tb: MappingTable) -> Seq<JvmOp> {
    match t {
        GaiaTerminator::Jump(l) => seq![JvmOp::Goto { target: l@ }],
        GaiaTerminator::Branch { true_label, false_label } => seq![
            JvmOp::Ifne { target: true_label@ },
            JvmOp::Goto { target: false_label@ },
        ],
        GaiaTerminator::Return => seq![JvmOp::Return],
        GaiaTerminator::Call { callee, args_count, next_block } => seq![
            JvmOp::Invokestatic {
                class_name: "Main"@,
                method_name: mapped_name(tb, callee@),
                descriptor: "()V"@,
            },
            JvmOp::Goto { target: next_block@ },
        ],
        GaiaTerminator::Halt => seq![
            JvmOp::Iconst0,
            JvmOp::Invokestatic {
                class_name: "java/lang/System"@,
                method_name: "exit"@,
                descriptor: "(I)V"@,
            },
        ],
    }
}

/// An outcome with more instructions appended; an error stays.
pub open spec fn then_ops(o: JvmOutcome, more: Seq<JvmOp>) -> JvmOutcome {
    match o {
        JvmOutcome::Ops(s) => JvmOutcome::Ops(s + more),
        _ => o,
    }
}

/// Two outcomes in sequence: the first error, or both lists joined.
pub open spec fn then_outcome(a: JvmOutcome, b: JvmOutcome) -> JvmOutcome {
    match a {
        JvmOutcome::Ops(s) => match b {
            JvmOutcome::Ops(t) => JvmOutcome::Ops(s + t),
            _ => b,
        },
        _ => a,
    }
}

/// The lowering of instructions in order.
pub open spec fn instrs_outcome(
    is: Seq<GaiaInstruction>,
    tb: MappingTable,
    ft: Map<(Seq<char>, Seq<char>), Seq<char>>,
) -> JvmOutcome
    decreases is.len(),
{
    if is.len() == 0 {
        JvmOutcome::Ops(seq![])
    } else {
        then_outcome(instrs_outcome(is.drop_last(), tb, ft), jvm_lowering(is.last(), tb, ft))
    }
}

/// The lowering of blocks in order: each block's instructions, then its
/// terminator.
pub open spec fn blocks_outcome(
    bs: Seq<GaiaBlock>,
    tb: MappingTable,
    ft: Map<(Seq<char>, Seq<char>), Seq<char>>,
) -> JvmOutcome
    decreases bs.len(),
{
    if bs.len() == 0 {
        JvmOutcome::Ops(seq![])
    } else {
        let b = bs.last();
        then_ops(
            then_outcome(blocks_outcome(bs.drop_last(), tb, ft), instrs_outcome(b.instructions@, tb, ft)),
            terminator_ops(b.terminator, tb),
        )
    }
}

/// Public and static.
pub open spec fn public_static() -> JvmAccessFlags {
    JvmAccessFlags { is_public: true, is_private: false, is_protected: false, is_static: true }
}

/// Whether a method is the lowering of a function with this code: same
/// name, descriptor of its signature, public and static, and frame limits
/// of 10.
pub open spec fn method_header(m: JvmMethod, f: GaiaFunction) -> bool {
    &&& m.name@ == f.name@
    &&& m.descriptor@ == method_descriptor(f.signature.params@, Some(f.signature.return_type))
    &&& m.access_flags == public_static()
    &&& m.max_stack == 10
    &&& m.max_locals == 10
}

fn append_ops(dst: &mut Vec<JvmInstruction>, src: Vec<JvmInstruction>)
    ensures
        ops_of(final(dst)@) == ops_of(old(dst)@) + ops_of(src@),
{
    let mut src = src;
    let ghost s0 = src@;
    dst.append(&mut src);
    assert(ops_of(dst@) =~= ops_of(old(dst)@) + ops_of(s0));
}

fn lower_terminator(t: &GaiaTerminator, ctx: &JvmContext) -> (r: Vec<JvmInstruction>)
    ensures
        ops_of(r@) == terminator_ops(*t, ctx.table()),
{
    let mut v: Vec<JvmInstruction> = Vec::new();
    match t {
        GaiaTerminator::Jump(label) => {
            v.push(JvmInstruction::Goto { target: copy_string(label) });
        },
        GaiaTerminator::Branch { true_label, false_label } => {
            v.push(JvmInstruction::Ifne { target: copy_string(true_label) });
            v.push(JvmInstruction::Goto { target: copy_string(false_label) });
        },
        GaiaTerminator::Return => {
            v.push(JvmInstruction::Return);
        },
        GaiaTerminator::Call { callee, args_count: _, next_block } => {
            v.push(
                JvmInstruction::Invokestatic {
                    class_name: owned("Main"),
                    method_name: jvm_call_name(ctx, callee.as_str()),
                    descriptor: owned("()V"),
                },
            );
            v.push(JvmInstruction::Goto { target: copy_string(next_block) });
        },
        GaiaTerminator::Halt => {
            v.push(JvmInstruction::Iconst0);
            v.push(
                JvmInstruction::Invokestatic {
                    class_name: owned("java/lang/System"),
                    method_name: owned("exit"),
                    descriptor: owned("(I)V"),
                },
            );
        },
    }
    assert(ops_of(v@) =~= terminator_ops(*t, ctx.table()));
    v
}

fn return_descriptor(params: &[GaiaType], ret: &GaiaType) -> (r: String)
    ensures
        r@ == method_descriptor(params@, Some(*ret)),
{
    let mut descriptor = owned("(");
    let mut i: usize = 0;
    while i < params.len()
        invariant
            i <= params@.len(),
            descriptor@ == "("@ + descriptors(params@.take(i as int)),
        decreases params.len() - i,
    {
        let d = convert_gaia_type_to_jvm_descriptor(&params[i]);
        push_str(&mut descriptor, d.as_str());
        proof {
            assert(params@.take(i + 1).drop_last() =~= params@.take(i as int));
        }
        i = i + 1;
    }
    assert(params@.take(i as int) =~= params@);
    push_str(&mut descriptor, ")");
    let d = convert_gaia_type_to_jvm_descriptor(ret);
    push_str(&mut descriptor, d.as_str());
    assert(descriptor@ =~= method_descriptor(params@, Some(*ret)));
    descriptor
}

/// Lowers a function to a public static method (see `blocks_outcome` and
/// `method_header`); the first instruction that cannot be lowered gives
/// the error.
pub fn convert_gaia_function_to_jvm(function: &GaiaFunction, ctx: &JvmContext) -> (r: Result<JvmMethod, GaiaError>)
    ensures
        result_is(
            r,
            |m: JvmMethod| ops_of(m.instructions@),
            blocks_outcome(function.blocks@, ctx.table(), ctx.fields()),
        ),
        r matches Ok(m) ==> method_header(m, *function),
{
    let descriptor = return_descriptor(function.signature.params.as_slice(), &function.signature.return_type);
    let mut code: Vec<JvmInstruction> = Vec::new();
    let blocks = &function.blocks;
    let mut b: usize = 0;
    assert(ops_of(code@) =~= seq![]);
    while b < blocks.len()
        invariant
            b <= blocks@.len(),
            blocks == &function.blocks,
            blocks_outcome(blocks@.take(b as int), ctx.table(), ctx.fields()) == JvmOutcome::Ops(
                ops_of(code@),
            ),
        decreases blocks.len() - b,
    {
        let block = &blocks[b];
        proof {
            assert(blocks@.take(b + 1).drop_last() =~= blocks@.take(b as int));
        }
        let ghost before = ops_of(code@);
        let instrs = &block.instructions;
        let mut k: usize = 0;
        assert(instrs@.take(0) =~= seq![]);
        assert(ops_of(code@).skip(before.len() as int) =~= seq![]);
        assert(ops_of(code@).take(before.len() as int) =~= before);
        while k < instrs.len()
            invariant
                k <= instrs@.len(),
                instrs == &block.instructions,
                b < blocks@.len(),
                blocks == &function.blocks,
                *block == blocks@[b as int],
                blocks_outcome(blocks@.take(b as int), ctx.table(), ctx.fields()) == JvmOutcome::Ops(before),
                instrs_outcome(instrs@.take(k as int), ctx.table(), ctx.fields()) == JvmOutcome::Ops(
                    ops_of(code@).skip(before.len() as int),
                ),
                ops_of(code@).take(before.len() as int) == before,
                ops_of(code@).len() >= before.len(),
            decreases instrs.len() - k,
        {
            proof {
                assert(instrs@.take(k + 1).drop_last() =~= instrs@.take(k as int));
            }
            let ghost prev = ops_of(code@);
            match convert_gaia_instruction_to_jvm(&instrs[k], ctx) {
                Ok(jis) => {
                    append_ops(&mut code, jis);
                    proof {
                        assert(ops_of(code@).skip(before.len() as int) =~= prev.skip(before.len() as int) + ops_of(jis@));
                        assert(ops_of(code@).take(before.len() as int) =~= prev.take(before.len() as int));
                    }
                },
                Err(e) => {
                    proof {
                        lemma_instrs_error(instrs@, k as int, ctx.table(), ctx.fields());
                        lemma_blocks_error(blocks@, b as int, ctx.table(), ctx.fields());
                    }
                    return Err(e);
                },
            }
            k = k + 1;
        }
        assert(instrs@.take(k as int) =~= instrs@);
        let term = lower_terminator(&block.terminator, ctx);
        let ghost mid = ops_of(code@);
        append_ops(&mut code, term);
        proof {
            assert(mid =~= before + mid.skip(before.len() as int));
            assert(ops_of(code@) =~= before + mid.skip(before.len() as int) + terminator_ops(block.terminator, ctx.table()));
        }
        b = b + 1;
    }
    assert(blocks@.take(b as int) =~= blocks@);
    Ok(
        JvmMethod {
            name: copy_string(&function.name),
            descriptor,
            access_flags: JvmAccessFlags { is_public: true, is_private: false, is_protected: false, is_static: true },
            instructions: code,
            max_stack: 10,
            max_locals: 10,
        },
    )
}

proof fn lemma_instrs_error(
    is: Seq<GaiaInstruction>,
    k: int,
    tb: MappingTable,
    ft: Map<(Seq<char>, Seq<char>), Seq<char>>,
)
    requires
        0 <= k < is.len(),
        instrs_outcome(is.take(k), tb, ft) is Ops,
        !(jvm_lowering(is[k], tb, ft) is Ops),
    ensures
        instrs_outcome(is, tb, ft) == jvm_lowering(is[k], tb, ft),
    decreases is.len(),
{
    if k == is.len() - 1 {
        assert(is.drop_last() =~= is.take(k));
    } else {
        assert(is.drop_last().take(k) =~= is.take(k));
        lemma_instrs_error(is.drop_last(), k, tb, ft);
    }
}

proof fn lemma_blocks_error(
    bs: Seq<GaiaBlock>,
    b: int,
    tb: MappingTable,
    ft: Map<(Seq<char>, Seq<char>), Seq<char>>,
)
    requires
        0 <= b < bs.len(),
        blocks_outcome(bs.take(b), tb, ft) is Ops,
        !(instrs_outcome(bs[b].instructions@, tb, ft) is Ops),
    ensures
        blocks_outcome(bs, tb, ft) == instrs_outcome(bs[b].instructions@, tb, ft),
    decreases bs.len(),
{
    if b == bs.len() - 1 {
        assert(bs.drop_last() =~= bs.take(b));
    } else {
        assert(bs.drop_last().take(b) =~= bs.take(b));
        lemma_blocks_error(bs.drop_last(), b, tb, ft);
    }
}

/// The flags of a lowered field: static as declared, and public, private
/// or protected as its visibility (internal gives none of the three).
pub open spec fn field_flags(f: GaiaField) -> JvmAccessFlags {
    JvmAccessFlags {
        is_public: f.visibility == Visibility::Public,
        is_private: f.visibility == Visibility::Private,
        is_protected: f.visibility == Visibility::Protected,
        is_static: f.is_static,
    }
}

/// Lowers a field: its name, the descriptor of its type, its flags.
pub fn convert_gaia_field_to_jvm_field(field: &GaiaField) -> (r: Result<JvmField, GaiaError>)
    ensures
        r matches Ok(j) && j.name@ == field.name@ && j.descriptor@ == jvm_descriptor(field.ty)
            && j.access_flags == field_flags(*field),
{
    let descriptor = convert_gaia_type_to_jvm_descriptor(&field.ty);
    let mut flags = JvmAccessFlags { is_public: false, is_private: false, is_protected: false, is_static: false };
    if field.is_static {
        flags.is_static = true;
    }
    match field.visibility {
        Visibility::Public => flags.is_public = true,
        Visibility::Private => flags.is_private = true,
        Visibility::Protected => flags.is_protected = true,
        _ => {},
    }
    Ok(JvmField { name: copy_string(&field.name), descriptor, access_flags: flags })
}

/// Lowers a global variable to a public static field.
pub fn convert_gaia_global_to_jvm_field(global: &GaiaGlobal) -> (r: Result<JvmField, GaiaError>)
    ensures
        r matches Ok(j) && j.name@ == global.name@ && j.descriptor@ == jvm_descriptor(global.ty)
            && j.access_flags == public_static(),
{
    let descriptor = convert_gaia_type_to_jvm_descriptor(&global.ty);
    Ok(
        JvmField {
            name: copy_string(&global.name),
            descriptor,
            access_flags: JvmAccessFlags { is_public: true, is_private: false, is_protected: false, is_static: true },
        },
    )
}

/// The methods of classes, class by class.
pub open spec fn class_methods(cs: Seq<GaiaClass>) -> Seq<GaiaFunction>
    decreases cs.len(),
{
    if cs.len() == 0 {
        seq![]
    } else {
        class_methods(cs.drop_last()) + cs.last().methods@
    }
}

/// The fields of classes, class by class.
pub open spec fn class_fields(cs: Seq<GaiaClass>) -> Seq<GaiaField>
    decreases cs.len(),
{
    if cs.len() == 0 {
        seq![]
    } else {
        class_fields(cs.drop_last()) + cs.last().fields@
    }
}

/// The functions a module lowers to methods: its functions, then the
/// methods of its classes.
pub open spec fn all_functions(m: GaiaModule) -> Seq<GaiaFunction> {
    m.functions@ + class_methods(m.classes@)
}

/// Field descriptors recorded for the fields of one class.
pub open spec fn record_fields(
    ft: Map<(Seq<char>, Seq<char>), Seq<char>>,
    class: Seq<char>,
    fs: Seq<GaiaField>,
) -> Map<(Seq<char>, Seq<char>), Seq<char>>
    decreases fs.len(),
{
    if fs.len() == 0 {
        ft
    } else {
        record_fields(ft, class, fs.drop_last()).insert((class, fs.last().name@), jvm_descriptor(fs.last().ty))
    }
}

/// Field descriptors recorded for the fields of classes.
pub open spec fn record_classes(
    ft: Map<(Seq<char>, Seq<char>), Seq<char>>,
    cs: Seq<GaiaClass>,
) -> Map<(Seq<char>, Seq<char>), Seq<char>>
    decreases cs.len(),
{
    if cs.len() == 0 {
        ft
    } else {
        record_fields(record_classes(ft, cs.drop_last()), cs.last().name@, cs.last().fields@)
    }
}

/// Field descriptors recorded for globals, as fields of `Main`.
pub open spec fn record_globals(
    ft: Map<(Seq<char>, Seq<char>), Seq<char>>,
    gs: Seq<GaiaGlobal>,
) -> Map<(Seq<char>, Seq<char>), Seq<char>>
    decreases gs.len(),
{
    if gs.len() == 0 {
        ft
    } else {
        record_globals(ft, gs.drop_last()).insert(("Main"@, gs.last().name@), jvm_descriptor(gs.last().ty))
    }
}

/// The field descriptors of a module: class fields, then globals.
pub open spec fn module_field_types(m: GaiaModule) -> Map<(Seq<char>, Seq<char>), Seq<char>> {
    record_globals(record_classes(Map::empty(), m.classes@), m.globals@)
}

/// The first error among the lowerings of functions, in order.
pub open spec fn first_error(
    fs: Seq<GaiaFunction>,
    tb: MappingTable,
    ft: Map<(Seq<char>, Seq<char>), Seq<char>>,
) -> Option<JvmOutcome>
    decreases fs.len(),
{
    if fs.len() == 0 {
        None
    } else {
        match first_error(fs.drop_last(), tb, ft) {
            Some(e) => Some(e),
            None => {
                let o = blocks_outcome(fs.last().blocks@, tb, ft);
                if o is Ops {
                    None
                } else {
                    Some(o)
                }
            },
        }
    }
}

/// The first error is never a lowering.
pub(crate) proof fn lemma_first_error_not_ops(
    fs: Seq<GaiaFunction>,
    tb: MappingTable,
    ft: Map<(Seq<char>, Seq<char>), Seq<char>>,
)
    ensures
        first_error(fs, tb, ft) matches Some(e) ==> !(e is Ops),
    decreases fs.len(),
{
    if fs.len() > 0 {
        lemma_first_error_not_ops(fs.drop_last(), tb, ft);
    }
}

/// Whether a lowered class is that of a module: its name, version 52.0
/// (Java 8), public, one method per function, and one field per class
/// field and per global.
pub open spec fn jvm_program_of(
    p: JvmProgram,
    m: GaiaModule,
    tb: MappingTable,
    ft: Map<(Seq<char>, Seq<char>), Seq<char>>,
) -> bool {
    let fs = all_functions(m);
    let cf = class_fields(m.classes@);
    &&& p.name@ == m.name@
    &&& p.version == JvmVersion { major: 52, minor: 0 }
    &&& p.access_flags == JvmAccessFlags { is_public: true, ..no_flags() }
    &&& p.methods@.len() == fs.len()
    &&& forall|i: int|
        0 <= i < fs.len() ==> method_header(#[trigger] p.methods@[i], fs[i]) && blocks_outcome(
            fs[i].blocks@,
            tb,
            ft,
        ) == JvmOutcome::Ops(ops_of(p.methods@[i].instructions@))
    &&& p.fields@.len() == cf.len() + m.globals@.len()
    &&& forall|i: int|
        0 <= i < cf.len() ==> (#[trigger] p.fields@[i]).name@ == cf[i].name@ && p.fields@[i].descriptor@
            == jvm_descriptor(cf[i].ty) && p.fields@[i].access_flags == field_flags(cf[i])
    &&& forall|i: int|
        0 <= i < m.globals@.len() ==> (#[trigger] p.fields@[cf.len() + i]).name@ == m.globals@[i].name@
            && p.fields@[cf.len() + i].descriptor@ == jvm_descriptor(m.globals@[i].ty)
            && p.fields@[cf.len() + i].access_flags == public_static()
}

/// Whether methods are the lowerings of functions, one for one.
pub open spec fn methods_match(
    ms: Seq<JvmMethod>,
    fs: Seq<GaiaFunction>,
    tb: MappingTable,
    ft: Map<(Seq<char>, Seq<char>), Seq<char>>,
) -> bool {
    &&& ms.len() == fs.len()
    &&& forall|i: int|
        0 <= i < fs.len() ==> method_header(#[trigger] ms[i], fs[i]) && blocks_outcome(fs[i].blocks@, tb, ft)
            == JvmOutcome::Ops(ops_of(ms[i].instructions@))
}

/// Whether fields are the lowerings of class fields, one for one.
pub open spec fn fields_match(js: Seq<JvmField>, fs: Seq<GaiaField>) -> bool {
    &&& js.len() == fs.len()
    &&& forall|i: int|
        0 <= i < fs.len() ==> (#[trigger] js[i]).name@ == fs[i].name@ && js[i].descriptor@
            == jvm_descriptor(fs[i].ty) && js[i].access_flags == field_flags(fs[i])
}

proof fn lemma_first_error_none_push(
    fs: Seq<GaiaFunction>,
    f: GaiaFunction,
    tb: MappingTable,
    ft: Map<(Seq<char>, Seq<char>), Seq<char>>,
)
    requires
        first_error(fs, tb, ft) is None,
        blocks_outcome(f.blocks@, tb, ft) is Ops,
    ensures
        first_error(fs.push(f), tb, ft) is None,
{
    assert(fs.push(f).drop_last() =~= fs);
}

proof fn lemma_first_error_found(
    fs: Seq<GaiaFunction>,
    k: int,
    tb: MappingTable,
    ft: Map<(Seq<char>, Seq<char>), Seq<char>>,
)
    requires
        0 <= k < fs.len(),
        first_error(fs.take(k), tb, ft) is None,
        !(blocks_outcome(fs[k].blocks@, tb, ft) is Ops),
    ensures
        first_error(fs, tb, ft) == Some(blocks_outcome(fs[k].blocks@, tb, ft)),
    decreases fs.len(),
{
    if k == fs.len() - 1 {
        assert(fs.drop_last() =~= fs.take(k));
    } else {
        assert(fs.drop_last().take(k) =~= fs.take(k));
        lemma_first_error_found(fs.drop_last(), k, tb, ft);
    }
}

proof fn lemma_class_methods_step(cs: Seq<GaiaClass>, i: int)
    requires
        0 <= i < cs.len(),
    ensures
        class_methods(cs.take(i + 1)) == class_methods(cs.take(i)) + cs[i].methods@,
        class_fields(cs.take(i + 1)) == class_fields(cs.take(i)) + cs[i].fields@,
        record_classes(Map::empty(), cs.take(i + 1)) == record_fields(
            record_classes(Map::empty(), cs.take(i)),
            cs[i].name@,
            cs[i].fields@,
        ),
{
    assert(cs.take(i + 1).drop_last() =~= cs.take(i));
}

/// Lowers a module to a JVM class (see `jvm_program_of`), with the function
/// mapper of the configured settings. The first function or method that
/// cannot be lowered gives the error.
pub fn convert_gaia_to_jvm(program: &GaiaModule, config: &GaiaConfig) -> (r: Result<JvmProgram, GaiaError>)
    ensures
        ({
            let tb = apply_mappings(default_table(), config.setting.function_mappings@);
            let ft = module_field_types(*program);
            match first_error(all_functions(*program), tb, ft) {
                Some(e) => result_is(r, |p: JvmProgram| seq![], e),
                None => r matches Ok(p) && jvm_program_of(p, *program, tb, ft),
            }
        }),
{
    let ghost tb = apply_mappings(default_table(), config.setting.function_mappings@);
    let classes = &program.classes;
    let mut field_types = FieldTypes::new();
    let mut i: usize = 0;
    assert(classes@.take(0) =~= seq![]);
    while i < classes.len()
        invariant
            i <= classes@.len(),
            classes == &program.classes,
            field_types.as_map() == record_classes(Map::empty(), classes@.take(i as int)),
        decreases classes.len() - i,
    {
        let class = &classes[i];
        let ghost base = field_types.as_map();
        let mut j: usize = 0;
        assert(class.fields@.take(0) =~= seq![]);
        while j < class.fields.len()
            invariant
                j <= class.fields@.len(),
                field_types.as_map() == record_fields(base, class.name@, class.fields@.take(j as int)),
            decreases class.fields.len() - j,
        {
            let field = &class.fields[j];
            proof {
                assert(class.fields@.take(j + 1).drop_last() =~= class.fields@.take(j as int));
            }
            field_types.insert(
                copy_string(&class.name),
                copy_string(&field.name),
                convert_gaia_type_to_jvm_descriptor(&field.ty),
            );
            j = j + 1;
        }
        assert(class.fields@.take(j as int) =~= class.fields@);
        proof {
            lemma_class_methods_step(classes@, i as int);
        }
        i = i + 1;
    }
    assert(classes@.take(i as int) =~= classes@);
    let globals = &program.globals;
    let mut g: usize = 0;
    assert(globals@.take(0) =~= seq![]);
    while g < globals.len()
        invariant
            g <= globals@.len(),
            globals == &program.globals,
            field_types.as_map() == record_globals(record_classes(Map::empty(), program.classes@), globals@.take(g as int)),
        decreases globals.len() - g,
    {
        proof {
            assert(globals@.take(g + 1).drop_last() =~= globals@.take(g as int));
        }
        field_types.insert(
            owned("Main"),
            copy_string(&globals[g].name),
            convert_gaia_type_to_jvm_descriptor(&globals[g].ty),
        );
        g = g + 1;
    }
    assert(globals@.take(g as int) =~= globals@);
    let ghost ft = field_types.as_map();
    assert(ft == module_field_types(*program));
    let function_mapper = match FunctionMapper::from_config(&config.setting) {
        Ok(m) => m,
        Err(e) => return Err(e),
    };
    let ctx = JvmContext { function_mapper, field_types };
    assert(ctx.table() == tb && ctx.fields() == ft);
    let ghost all = all_functions(*program);
    let mut methods: Vec<JvmMethod> = Vec::new();
    let functions = &program.functions;
    let mut k: usize = 0;
    assert(functions@.take(0) =~= seq![]);
    while k < functions.len()
        invariant
            k <= functions@.len(),
            functions == &program.functions,
            all == all_functions(*program),
            ctx.table() == tb,
            ctx.fields() == ft,
            ft == module_field_types(*program),
            tb == apply_mappings(default_table(), config.setting.function_mappings@),
            methods_match(methods@, functions@.take(k as int), tb, ft),
            first_error(functions@.take(k as int), tb, ft) is None,
        decreases functions.len() - k,
    {
        match convert_gaia_function_to_jvm(&functions[k], &ctx) {
            Ok(m) => {
                proof {
                    assert(functions@.take(k + 1) =~= functions@.take(k as int).push(functions@[k as int]));
                    lemma_first_error_none_push(functions@.take(k as int), functions@[k as int], tb, ft);
                }
                methods.push(m);
            },
            Err(e) => {
                proof {
                    assert(all.take(k as int) =~= functions@.take(k as int));
                    assert(all[k as int] == functions@[k as int]);
                    lemma_first_error_found(all, k as int, tb, ft);
                    let o = blocks_outcome(functions@[k as int].blocks@, tb, ft);
                    assert(first_error(all, tb, ft) == Some(o));
                    assert(result_is(Err::<JvmMethod, GaiaError>(e), |m: JvmMethod| ops_of(m.instructions@), o));
                    assert(result_is(Err::<JvmProgram, GaiaError>(e), |p: JvmProgram| seq![], o));
                }
                return Err(e);
            },
        }
        k = k + 1;
    }
    assert(functions@.take(k as int) =~= functions@);
    let mut fields: Vec<JvmField> = Vec::new();
    let mut c: usize = 0;
    assert(classes@.take(0) =~= seq![]);
    assert(functions@ + class_methods(classes@.take(0)) =~= functions@);
    while c < classes.len()
        invariant
            c <= classes@.len(),
            classes == &program.classes,
            functions == &program.functions,
            all == all_functions(*program),
            ctx.table() == tb,
            ctx.fields() == ft,
            ft == module_field_types(*program),
            tb == apply_mappings(default_table(), config.setting.function_mappings@),
            methods_match(methods@, functions@ + class_methods(classes@.take(c as int)), tb, ft),
            first_error(functions@ + class_methods(classes@.take(c as int)), tb, ft) is None,
            fields_match(fields@, class_fields(classes@.take(c as int))),
        decreases classes.len() - c,
    {
        let class = &classes[c];
        proof {
            lemma_class_methods_step(classes@, c as int);
        }
        let ghost done_fields = class_fields(classes@.take(c as int));
        let mut j: usize = 0;
        assert(class.fields@.take(0) =~= seq![]);
        assert(done_fields + class.fields@.take(0) =~= done_fields);
        while j < class.fields.len()
            invariant
                j <= class.fields@.len(),
                fields_match(fields@, done_fields + class.fields@.take(j as int)),
            decreases class.fields.len() - j,
        {
            match convert_gaia_field_to_jvm_field(&class.fields[j]) {
                Ok(f) => {
                    fields.push(f);
                },
                Err(e) => {
                    return Err(e);
                },
            }
            proof {
                assert(done_fields + class.fields@.take(j + 1) =~= (done_fields + class.fields@.take(j as int)).push(
                    class.fields@[j as int],
                ));
            }
            j = j + 1;
        }
        assert(class.fields@.take(j as int) =~= class.fields@);
        let ghost done = functions@ + class_methods(classes@.take(c as int));
        let mut q: usize = 0;
        assert(class.methods@.take(0) =~= seq![]);
        assert(done + class.methods@.take(0) =~= done);
        while q < class.methods.len()
            invariant
                q <= class.methods@.len(),
                c < classes@.len(),
                *class == classes@[c as int],
                all == all_functions(*program),
                done == functions@ + class_methods(classes@.take(c as int)),
                classes == &program.classes,
                functions == &program.functions,
                ctx.table() == tb,
                ctx.fields() == ft,
                ft == module_field_types(*program),
                tb == apply_mappings(default_table(), config.setting.function_mappings@),
                methods_match(methods@, done + class.methods@.take(q as int), tb, ft),
                first_error(done + class.methods@.take(q as int), tb, ft) is None,
            decreases class.methods.len() - q,
        {
            let ghost prefix = done + class.methods@.take(q as int);
            match convert_gaia_function_to_jvm(&class.methods[q], &ctx) {
                Ok(m) => {
                    proof {
                        assert(done + class.methods@.take(q + 1) =~= prefix.push(class.methods@[q as int]));
                        lemma_first_error_none_push(prefix, class.methods@[q as int], tb, ft);
                    }
                    methods.push(m);
                },
                Err(e) => {
                    proof {
                        lemma_class_methods_prefix(*program, c as int, q as int);
                        lemma_first_error_found(all, prefix.len() as int, tb, ft);
                    }
                    return Err(e);
                },
            }
            q = q + 1;
        }
        assert(class.methods@.take(q as int) =~= class.methods@);
        proof {
            assert(functions@ + class_methods(classes@.take(c + 1)) =~= done + class.methods@);
        }
        c = c + 1;
    }
    assert(classes@.take(c as int) =~= classes@);
    let ghost cf = class_fields(classes@);
    let mut h: usize = 0;
    while h < globals.len()
        invariant
            h <= globals@.len(),
            globals == &program.globals,
            cf == class_fields(program.classes@),
            fields@.len() == cf.len() + h,
            fields_match(fields@.take(cf.len() as int), cf),
            forall|i: int|
                0 <= i < h ==> (#[trigger] fields@[cf.len() + i]).name@ == globals@[i].name@
                    && fields@[cf.len() + i].descriptor@ == jvm_descriptor(globals@[i].ty)
                    && fields@[cf.len() + i].access_flags == public_static(),
        decreases globals.len() - h,
    {
        match convert_gaia_global_to_jvm_field(&globals[h]) {
            Ok(f) => {
                let ghost before = fields@;
                fields.push(f);
                assert(fields@.take(cf.len() as int) =~= before.take(cf.len() as int));
            },
            Err(e) => {
                return Err(e);
            },
        }
        h = h + 1;
    }
    proof {
        assert(first_error(all, tb, ft) is None);
        assert forall|i: int| 0 <= i < cf.len() implies (#[trigger] fields@[i]).name@ == cf[i].name@
            && fields@[i].descriptor@ == jvm_descriptor(cf[i].ty) && fields@[i].access_flags
            == field_flags(cf[i]) by {
            assert(fields@.take(cf.len() as int)[i] == fields@[i]);
        }
    }
    Ok(
        JvmProgram {
            name: copy_string(&program.name),
            version: JvmVersion { major: 52, minor: 0 },
            access_flags: JvmAccessFlags { is_public: true, is_private: false, is_protected: false, is_static: false },
            methods,
            fields,
        },
    )
}

proof fn lemma_class_methods_prefix(m: GaiaModule, c: int, q: int)
    requires
        0 <= c < m.classes@.len(),
        0 <= q < m.classes@[c].methods@.len(),
    ensures
        ({
            let prefix = m.functions@ + class_methods(m.classes@.take(c)) + m.classes@[c].methods@.take(q);
            &&& prefix.len() < all_functions(m).len()
            &&& all_functions(m).take(prefix.len() as int) == prefix
            &&& all_functions(m)[prefix.len() as int] == m.classes@[c].methods@[q]
        }),
{
    let cs = m.classes@;
    lemma_class_methods_split(cs, c + 1);
    lemma_class_methods_step(cs, c);
    let prefix = m.functions@ + class_methods(cs.take(c)) + cs[c].methods@.take(q);
    let upto = m.functions@ + class_methods(cs.take(c + 1));
    assert(upto =~= m.functions@ + class_methods(cs.take(c)) + cs[c].methods@);
    assert(all_functions(m) =~= upto + class_methods(cs.skip(c + 1)));
    assert(all_functions(m).take(prefix.len() as int) =~= prefix);
}

proof fn lemma_class_methods_split(cs: Seq<GaiaClass>, k: int)
    requires
        0 <= k <= cs.len(),
    ensures
        class_methods(cs) == class_methods(cs.take(k)) + class_methods(cs.skip(k)),
    decreases cs.len(),
{
    if k == cs.len() {
        assert(cs.take(k) =~= cs);
        assert(cs.skip(k) =~= seq![]);
        assert(class_methods(cs.take(k)) + class_methods(cs.skip(k)) =~= class_methods(cs));
    } else {
        lemma_class_methods_split(cs.drop_last(), k);
        assert(cs.drop_last().take(k) =~= cs.take(k));
        assert(cs.skip(k).drop_last() =~= cs.drop_last().skip(k));
        assert(cs.skip(k).last() == cs.last());
        assert(class_methods(cs.skip(k)) == class_methods(cs.drop_last().skip(k)) + cs.last().methods@);
        assert(class_methods(cs) =~= class_methods(cs.take(k)) + class_methods(cs.skip(k)));
    }
}

} // verus!
