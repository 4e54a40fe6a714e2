//! The `{:?}` texts of the library's own types, as `derive(Debug)` writes
//! them: a unit variant is its name, a tuple variant its name and its fields
//! in round brackets, a struct or struct variant its name and `field: value`
//! pairs in curly brackets, a list its items in square brackets, numbers in
//! decimal and strings quoted with escapes.
use vstd::prelude::*;
use crate::instruction::{CastKind, CmpCondition, CoreInstruction, DomainInstruction, ManagedInstruction, NeuralNode};
use crate::program::GaiaConstant;
use crate::target::{AbiCompatible, ApiCompatible, Architecture, ArchitectureView, CompilationTarget, TargetView};
use crate::text::{decimal_text, format_i64, format_u64, join, join_strings, owned, push_str, string_views};
use crate::types::{AddressSpace, GaiaSignature, GaiaType};

verus! {

/// The text `{:?}` gives a string: quoted, with `escape_debug` escapes.
pub uninterp spec fn str_debug(s: Seq<char>) -> Seq<char>;

/// The debug text of a string (calls `format!` with `{:?}` on a `str`, std's
/// own `Debug`); its value is left to the name `str_debug`.
#[verifier::external_body]
fn str_debug_text(s: &str) -> (r: String)
    ensures
        r@ == str_debug(s@),
{
    format!("{:?}", s)
}

/// `name(f1, f2, ...)`.
pub open spec fn tuple_text(name: Seq<char>, fields: Seq<Seq<char>>) -> Seq<char> {
    name + "("@ + join(fields, ", "@) + ")"@
}

/// `name { f1, f2, ... }`, each field already written as `key: value`.
pub open spec fn struct_text(name: Seq<char>, fields: Seq<Seq<char>>) -> Seq<char> {
    name + " { "@ + join(fields, ", "@) + " }"@
}

/// `key: value`.
pub open spec fn field_text(key: Seq<char>, value: Seq<char>) -> Seq<char> {
    key + ": "@ + value
}

/// `[i1, i2, ...]`.
pub open spec fn list_text(items: Seq<Seq<char>>) -> Seq<char> {
    "["@ + join(items, ", "@) + "]"@
}

pub open spec fn bool_text(b: bool) -> Seq<char> {
    if b {
        "true"@
    } else {
        "false"@
    }
}

/// A list of numbers.
pub open spec fn nums_text(s: Seq<int>) -> Seq<char> {
    list_text(s.map_values(|x: int| decimal_text(x)))
}

fn tuple_debug(name: &str, fields: Vec<String>) -> (r: String)
    ensures
        r@ == tuple_text(name@, string_views(fields@)),
{
    let mut r = owned(name);
    push_str(&mut r, "(");
    let j = join_strings(&fields, ", ");
    push_str(&mut r, j.as_str());
    push_str(&mut r, ")");
    r
}

fn struct_debug(name: &str, fields: Vec<String>) -> (r: String)
    ensures
        r@ == struct_text(name@, string_views(fields@)),
{
    let mut r = owned(name);
    push_str(&mut r, " { ");
    let j = join_strings(&fields, ", ");
    push_str(&mut r, j.as_str());
    push_str(&mut r, " }");
    r
}

fn field_debug(key: &str, value: String) -> (r: String)
    ensures
        r@ == field_text(key@, value@),
{
    let mut r = owned(key);
    push_str(&mut r, ": ");
    push_str(&mut r, value.as_str());
    r
}

fn list_debug(items: Vec<String>) -> (r: String)
    ensures
        r@ == list_text(string_views(items@)),
{
    let mut r = owned("[");
    let j = join_strings(&items, ", ");
    push_str(&mut r, j.as_str());
    push_str(&mut r, "]");
    r
}

fn bool_debug(b: bool) -> (r: String)
    ensures
        r@ == bool_text(b),
{
    if b {
        owned("true")
    } else {
        owned("false")
    }
}

fn one(s: String) -> (r: Vec<String>)
    ensures
        string_views(r@) == seq![s@],
{
    let mut v: Vec<String> = Vec::new();
    v.push(s);
    assert(string_views(v@) =~= seq![v@[0]@]);
    v
}

fn two(a: String, b: String) -> (r: Vec<String>)
    ensures
        string_views(r@) == seq![a@, b@],
{
    let mut v: Vec<String> = Vec::new();
    v.push(a);
    v.push(b);
    assert(string_views(v@) =~= seq![v@[0]@, v@[1]@]);
    v
}

fn three(a: String, b: String, c: String) -> (r: Vec<String>)
    ensures
        string_views(r@) == seq![a@, b@, c@],
{
    let mut v: Vec<String> = Vec::new();
    v.push(a);
    v.push(b);
    v.push(c);
    assert(string_views(v@) =~= seq![v@[0]@, v@[1]@, v@[2]@]);
    v
}

fn four(a: String, b: String, c: String, d: String) -> (r: Vec<String>)
    ensures
        string_views(r@) == seq![a@, b@, c@, d@],
{
    let mut v: Vec<String> = Vec::new();
    v.push(a);
    v.push(b);
    v.push(c);
    v.push(d);
    assert(string_views(v@) =~= seq![v@[0]@, v@[1]@, v@[2]@, v@[3]@]);
    v
}

fn five(a: String, b: String, c: String, d: String, e: String) -> (r: Vec<String>)
    ensures
        string_views(r@) == seq![a@, b@, c@, d@, e@],
{
    let mut v: Vec<String> = Vec::new();
    v.push(a);
    v.push(b);
    v.push(c);
    v.push(d);
    v.push(e);
    assert(string_views(v@) =~= seq![v@[0]@, v@[1]@, v@[2]@, v@[3]@, v@[4]@]);
    v
}

fn usizes_debug(v: &Vec<usize>) -> (r: String)
    ensures
        r@ == nums_text(v@.map_values(|x: usize| x as int)),
{
    let ghost want = v@.map_values(|x: usize| x as int).map_values(|x: int| decimal_text(x));
    let mut items: Vec<String> = Vec::new();
    let mut i: usize = 0;
    while i < v.len()
        invariant
            i <= v@.len(),
            want == v@.map_values(|x: usize| x as int).map_values(|x: int| decimal_text(x)),
            string_views(items@) =~= want.take(i as int),
        decreases v@.len() - i,
    {
        let t = format_u64(v[i] as u64);
        assert(want[i as int] == t@);
        let ghost before = items@;
        items.push(t);
        assert(string_views(items@) =~= string_views(before).push(t@));
        assert(want.take(i + 1) =~= want.take(i as int).push(want[i as int]));
        i = i + 1;
    }
    assert(want.take(v@.len() as int) =~= want);
    list_debug(items)
}

fn isizes_debug(v: &Vec<isize>) -> (r: String)
    ensures
        r@ == nums_text(v@.map_values(|x: isize| x as int)),
{
    let ghost want = v@.map_values(|x: isize| x as int).map_values(|x: int| decimal_text(x));
    let mut items: Vec<String> = Vec::new();
    let mut i: usize = 0;
    while i < v.len()
        invariant
            i <= v@.len(),
            want == v@.map_values(|x: isize| x as int).map_values(|x: int| decimal_text(x)),
            string_views(items@) =~= want.take(i as int),
        decreases v@.len() - i,
    {
        let t = format_i64(v[i] as i64);
        assert(want[i as int] == t@);
        let ghost before = items@;
        items.push(t);
        assert(string_views(items@) =~= string_views(before).push(t@));
        assert(want.take(i + 1) =~= want.take(i as int).push(want[i as int]));
        i = i + 1;
    }
    assert(want.take(v@.len() as int) =~= want);
    list_debug(items)
}

fn bytes_debug(v: &Vec<u8>) -> (r: String)
    ensures
        r@ == nums_text(v@.map_values(|x: u8| x as int)),
{
    let ghost want = v@.map_values(|x: u8| x as int).map_values(|x: int| decimal_text(x));
    let mut items: Vec<String> = Vec::new();
    let mut i: usize = 0;
    while i < v.len()
        invariant
            i <= v@.len(),
            want == v@.map_values(|x: u8| x as int).map_values(|x: int| decimal_text(x)),
            string_views(items@) =~= want.take(i as int),
        decreases v@.len() - i,
    {
        let t = format_u64(v[i] as u64);
        assert(want[i as int] == t@);
        let ghost before = items@;
        items.push(t);
        assert(string_views(items@) =~= string_views(before).push(t@));
        assert(want.take(i + 1) =~= want.take(i as int).push(want[i as int]));
        i = i + 1;
    }
    assert(want.take(v@.len() as int) =~= want);
    list_debug(items)
}

fn pair_debug(a: [usize; 2]) -> (r: String)
    ensures
        r@ == list_text(seq![decimal_text(a[0] as int), decimal_text(a[1] as int)]),
{
    list_debug(two(format_u64(a[0] as u64), format_u64(a[1] as u64)))
}

pub open spec fn space_text(x: AddressSpace) -> Seq<char> {
    match x {
        AddressSpace::Generic => "Generic"@,
        AddressSpace::Local => "Local"@,
        AddressSpace::Global => "Global"@,
        AddressSpace::Shared => "Shared"@,
        AddressSpace::Constant => "Constant"@,
        AddressSpace::Managed => "Managed"@,
    }
}

fn space_debug(x: AddressSpace) -> (r: String)
    ensures
        r@ == space_text(x),
{
    match x {
        AddressSpace::Generic => owned("Generic"),
        AddressSpace::Local => owned("Local"),
        AddressSpace::Global => owned("Global"),
        AddressSpace::Shared => owned("Shared"),
        AddressSpace::Constant => owned("Constant"),
        AddressSpace::Managed => owned("Managed"),
    }
}

pub open spec fn condition_text(x: CmpCondition) -> Seq<char> {
    match x {
        CmpCondition::Eq => "Eq"@,
        CmpCondition::Ne => "Ne"@,
        CmpCondition::Lt => "Lt"@,
        CmpCondition::Le => "Le"@,
        CmpCondition::Gt => "Gt"@,
        CmpCondition::Ge => "Ge"@,
    }
}

fn condition_debug(x: CmpCondition) -> (r: String)
    ensures
        r@ == condition_text(x),
{
    match x {
        CmpCondition::Eq => owned("Eq"),
        CmpCondition::Ne => owned("Ne"),
        CmpCondition::Lt => owned("Lt"),
        CmpCondition::Le => owned("Le"),
        CmpCondition::Gt => owned("Gt"),
        CmpCondition::Ge => owned("Ge"),
    }
}

pub open spec fn cast_text(x: CastKind) -> Seq<char> {
    match x {
        CastKind::Bitcast => "Bitcast"@,
        CastKind::Trunc => "Trunc"@,
        CastKind::Zext => "Zext"@,
        CastKind::Sext => "Sext"@,
        CastKind::FpToUi => "FpToUi"@,
        CastKind::FpToSi => "FpToSi"@,
        CastKind::UiToFp => "UiToFp"@,
        CastKind::SiToFp => "SiToFp"@,
    }
}

fn cast_debug(x: CastKind) -> (r: String)
    ensures
        r@ == cast_text(x),
{
    match x {
        CastKind::Bitcast => owned("Bitcast"),
        CastKind::Trunc => owned("Trunc"),
        CastKind::Zext => owned("Zext"),
        CastKind::Sext => owned("Sext"),
        CastKind::FpToUi => owned("FpToUi"),
        CastKind::FpToSi => owned("FpToSi"),
        CastKind::UiToFp => owned("UiToFp"),
        CastKind::SiToFp => owned("SiToFp"),
    }
}

pub open spec fn abi_text(x: AbiCompatible) -> Seq<char> {
    match x {
        AbiCompatible::Unknown => "Unknown"@,
        AbiCompatible::ELF => "ELF"@,
        AbiCompatible::PE => "PE"@,
        AbiCompatible::MachO => "MachO"@,
        AbiCompatible::GCN => "GCN"@,
        AbiCompatible::PTX => "PTX"@,
        AbiCompatible::JavaAssembly => "JavaAssembly"@,
        AbiCompatible::MicrosoftIntermediateLanguage => "MicrosoftIntermediateLanguage"@,
        AbiCompatible::WebAssemblyTextFormat => "WebAssemblyTextFormat"@,
        AbiCompatible::LuaBytecode => "LuaBytecode"@,
        AbiCompatible::PythonBytecode => "PythonBytecode"@,
        AbiCompatible::LlvmIr => "LlvmIr"@,
        AbiCompatible::MSL => "MSL"@,
        AbiCompatible::SPIRV => "SPIRV"@,
    }
}

fn abi_debug(x: AbiCompatible) -> (r: String)
    ensures
        r@ == abi_text(x),
{
    match x {
        AbiCompatible::Unknown => owned("Unknown"),
        AbiCompatible::ELF => owned("ELF"),
        AbiCompatible::PE => owned("PE"),
        AbiCompatible::MachO => owned("MachO"),
        AbiCompatible::GCN => owned("GCN"),
        AbiCompatible::PTX => owned("PTX"),
        AbiCompatible::JavaAssembly => owned("JavaAssembly"),
        AbiCompatible::MicrosoftIntermediateLanguage => owned("MicrosoftIntermediateLanguage"),
        AbiCompatible::WebAssemblyTextFormat => owned("WebAssemblyTextFormat"),
        AbiCompatible::LuaBytecode => owned("LuaBytecode"),
        AbiCompatible::PythonBytecode => owned("PythonBytecode"),
        AbiCompatible::LlvmIr => owned("LlvmIr"),
        AbiCompatible::MSL => owned("MSL"),
        AbiCompatible::SPIRV => owned("SPIRV"),
    }
}
/// The text of a type.
pub open spec fn type_text(x: GaiaType) -> Seq<char>
    decreases x, 2nat,
{
    match x {
        GaiaType::Bool => "Bool"@,
        GaiaType::I8 => "I8"@,
        GaiaType::U8 => "U8"@,
        GaiaType::I16 => "I16"@,
        GaiaType::U16 => "U16"@,
        GaiaType::I32 => "I32"@,
        GaiaType::U32 => "U32"@,
        GaiaType::I64 => "I64"@,
        GaiaType::U64 => "U64"@,
        GaiaType::F16 => "F16"@,
        GaiaType::F32 => "F32"@,
        GaiaType::F64 => "F64"@,
        GaiaType::Pointer(f0, f1) => tuple_text("Pointer"@, seq![type_text(*f0), space_text(f1)]),
        GaiaType::Array(f0, f1) => tuple_text("Array"@, seq![type_text(*f0), decimal_text(f1 as int)]),
        GaiaType::Vector(f0, f1) => tuple_text("Vector"@, seq![type_text(*f0), decimal_text(f1 as int)]),
        GaiaType::Struct(f0) => tuple_text("Struct"@, seq![str_debug(f0@)]),
        GaiaType::String => "String"@,
        GaiaType::Object => "Object"@,
        GaiaType::Class(f0) => tuple_text("Class"@, seq![str_debug(f0@)]),
        GaiaType::Interface(f0) => tuple_text("Interface"@, seq![str_debug(f0@)]),
        GaiaType::Any => "Any"@,
        GaiaType::Tensor(f0, f1) => tuple_text("Tensor"@, seq![type_text(*f0), nums_text(f1@.map_values(|v: isize| v as int))]),
        GaiaType::Void => "Void"@,
        GaiaType::Opaque(f0) => tuple_text("Opaque"@, seq![str_debug(f0@)]),
        GaiaType::FunctionPtr(f0) => tuple_text("FunctionPtr"@, seq![sig_text(*f0)]),
    }
}

/// The text of a signature.
pub open spec fn sig_text(s: GaiaSignature) -> Seq<char>
    decreases s, 1nat,
{
    struct_text(
        "GaiaSignature"@,
        seq![field_text("params"@, list_text(types_text(s.params@))), field_text("return_type"@, type_text(s.return_type))],
    )
}

/// The texts of types.
pub open spec fn types_text(ts: Seq<GaiaType>) -> Seq<Seq<char>>
    decreases ts, 0nat,
{
    if ts.len() == 0 {
        seq![]
    } else {
        types_text(ts.drop_last()).push(type_text(ts.last()))
    }
}

pub fn type_debug(x: &GaiaType) -> (r: String)
    ensures
        r@ == type_text(*x),
    decreases x, 2nat,
{
    match x {
        GaiaType::Bool => owned("Bool"),
        GaiaType::I8 => owned("I8"),
        GaiaType::U8 => owned("U8"),
        GaiaType::I16 => owned("I16"),
        GaiaType::U16 => owned("U16"),
        GaiaType::I32 => owned("I32"),
        GaiaType::U32 => owned("U32"),
        GaiaType::I64 => owned("I64"),
        GaiaType::U64 => owned("U64"),
        GaiaType::F16 => owned("F16"),
        GaiaType::F32 => owned("F32"),
        GaiaType::F64 => owned("F64"),
        GaiaType::Pointer(f0, f1) => tuple_debug("Pointer", two(type_debug(&**f0), space_debug(*f1))),
        GaiaType::Array(f0, f1) => tuple_debug("Array", two(type_debug(&**f0), format_u64(*f1 as u64))),
        GaiaType::Vector(f0, f1) => tuple_debug("Vector", two(type_debug(&**f0), format_u64(*f1 as u64))),
        GaiaType::Struct(f0) => tuple_debug("Struct", one(str_debug_text(f0.as_str()))),
        GaiaType::String => owned("String"),
        GaiaType::Object => owned("Object"),
        GaiaType::Class(f0) => tuple_debug("Class", one(str_debug_text(f0.as_str()))),
        GaiaType::Interface(f0) => tuple_debug("Interface", one(str_debug_text(f0.as_str()))),
        GaiaType::Any => owned("Any"),
        GaiaType::Tensor(f0, f1) => tuple_debug("Tensor", two(type_debug(&**f0), isizes_debug(f1))),
        GaiaType::Void => owned("Void"),
        GaiaType::Opaque(f0) => tuple_debug("Opaque", one(str_debug_text(f0.as_str()))),
        GaiaType::FunctionPtr(f0) => tuple_debug("FunctionPtr", one(sig_debug(&**f0))),
    }
}

pub fn sig_debug(s: &GaiaSignature) -> (r: String)
    ensures
        r@ == sig_text(*s),
    decreases s, 1nat,
{
    let ps = list_debug(types_debug(&s.params));
    let rt = type_debug(&s.return_type);
    struct_debug("GaiaSignature", two(field_debug("params", ps), field_debug("return_type", rt)))
}

fn types_debug(ts: &Vec<GaiaType>) -> (r: Vec<String>)
    ensures
        string_views(r@) == types_text(ts@),
    decreases ts, 0nat,
{
    let mut r: Vec<String> = Vec::new();
    let mut i: usize = 0;
    while i < ts.len()
        invariant
            i <= ts@.len(),
            string_views(r@) == types_text(ts@.take(i as int)),
        decreases ts@.len() - i,
    {
        proof {
            assert(ts@.take(i + 1).drop_last() =~= ts@.take(i as int));
        }
        let t = type_debug(&ts[i]);
        let ghost before = r@;
        r.push(t);
        assert(string_views(r@) =~= string_views(before).push(t@));
        i = i + 1;
    }
    assert(ts@.take(ts@.len() as int) =~= ts@);
    r
}

/// The text of a constant.
pub open spec fn constant_text(x: GaiaConstant) -> Seq<char>
    decreases x, 1nat,
{
    match x {
        GaiaConstant::Bool(f0) => tuple_text("Bool"@, seq![bool_text(f0)]),
        GaiaConstant::I8(f0) => tuple_text("I8"@, seq![decimal_text(f0 as int)]),
        GaiaConstant::U8(f0) => tuple_text("U8"@, seq![decimal_text(f0 as int)]),
        GaiaConstant::I16(f0) => tuple_text("I16"@, seq![decimal_text(f0 as int)]),
        GaiaConstant::U16(f0) => tuple_text("U16"@, seq![decimal_text(f0 as int)]),
        GaiaConstant::I32(f0) => tuple_text("I32"@, seq![decimal_text(f0 as int)]),
        GaiaConstant::U32(f0) => tuple_text("U32"@, seq![decimal_text(f0 as int)]),
        GaiaConstant::I64(f0) => tuple_text("I64"@, seq![decimal_text(f0 as int)]),
        GaiaConstant::U64(f0) => tuple_text("U64"@, seq![decimal_text(f0 as int)]),
        GaiaConstant::F32 { bits, text } => struct_text("F32"@, seq![field_text("bits"@, decimal_text(bits as int)), field_text("text"@, str_debug(text@))]),
        GaiaConstant::F64 { bits, text } => struct_text("F64"@, seq![field_text("bits"@, decimal_text(bits as int)), field_text("text"@, str_debug(text@))]),
        GaiaConstant::String(f0) => tuple_text("String"@, seq![str_debug(f0@)]),
        GaiaConstant::Blob(f0) => tuple_text("Blob"@, seq![nums_text(f0@.map_values(|v: u8| v as int))]),
        GaiaConstant::Array(f0) => tuple_text("Array"@, seq![list_text(constants_text(f0@))]),
        GaiaConstant::Null => "Null"@,
    }
}

/// The texts of constants.
pub open spec fn constants_text(cs: Seq<GaiaConstant>) -> Seq<Seq<char>>
    decreases cs, 0nat,
{
    if cs.len() == 0 {
        seq![]
    } else {
        constants_text(cs.drop_last()).push(constant_text(cs.last()))
    }
}

pub fn constant_debug(x: &GaiaConstant) -> (r: String)
    ensures
        r@ == constant_text(*x),
    decreases x, 1nat,
{
    match x {
        GaiaConstant::Bool(f0) => tuple_debug("Bool", one(bool_debug(*f0))),
        GaiaConstant::I8(f0) => tuple_debug("I8", one(format_i64(*f0 as i64))),
        GaiaConstant::U8(f0) => tuple_debug("U8", one(format_u64(*f0 as u64))),
        GaiaConstant::I16(f0) => tuple_debug("I16", one(format_i64(*f0 as i64))),
        GaiaConstant::U16(f0) => tuple_debug("U16", one(format_u64(*f0 as u64))),
        GaiaConstant::I32(f0) => tuple_debug("I32", one(format_i64(*f0 as i64))),
        GaiaConstant::U32(f0) => tuple_debug("U32", one(format_u64(*f0 as u64))),
        GaiaConstant::I64(f0) => tuple_debug("I64", one(format_i64(*f0 as i64))),
        GaiaConstant::U64(f0) => tuple_debug("U64", one(format_u64(*f0 as u64))),
        GaiaConstant::F32 { bits, text } => struct_debug("F32", two(field_debug("bits", format_u64(*bits as u64)), field_debug("text", str_debug_text(text.as_str())))),
        GaiaConstant::F64 { bits, text } => struct_debug("F64", two(field_debug("bits", format_u64(*bits as u64)), field_debug("text", str_debug_text(text.as_str())))),
        GaiaConstant::String(f0) => tuple_debug("String", one(str_debug_text(f0.as_str()))),
        GaiaConstant::Blob(f0) => tuple_debug("Blob", one(bytes_debug(f0))),
        GaiaConstant::Array(f0) => tuple_debug("Array", one(list_debug(constants_debug(f0)))),
        GaiaConstant::Null => owned("Null"),
    }
}

fn constants_debug(cs: &Vec<GaiaConstant>) -> (r: Vec<String>)
    ensures
        string_views(r@) == constants_text(cs@),
    decreases cs, 0nat,
{
    let mut r: Vec<String> = Vec::new();
    let mut i: usize = 0;
    while i < cs.len()
        invariant
            i <= cs@.len(),
            string_views(r@) == constants_text(cs@.take(i as int)),
        decreases cs@.len() - i,
    {
        proof {
            assert(cs@.take(i + 1).drop_last() =~= cs@.take(i as int));
        }
        let t = constant_debug(&cs[i]);
        let ghost before = r@;
        r.push(t);
        assert(string_views(r@) =~= string_views(before).push(t@));
        i = i + 1;
    }
    assert(cs@.take(cs@.len() as int) =~= cs@);
    r
}

/// `Some(n)` or `None`.
pub open spec fn opt_u32_text(o: Option<u32>) -> Seq<char> {
    match o {
        Some(v) => tuple_text("Some"@, seq![decimal_text(v as int)]),
        None => "None"@,
    }
}

fn opt_u32_debug(o: Option<u32>) -> (r: String)
    ensures
        r@ == opt_u32_text(o),
{
    match o {
        Some(v) => tuple_debug("Some", one(format_u64(v as u64))),
        None => owned("None"),
    }
}

/// The text of a neural operator.
pub open spec fn neural_text(n: NeuralNode) -> Seq<char> {
    struct_text("NeuralNode"@, seq![field_text("op"@, str_debug(n.op@))])
}

fn neural_debug(n: &NeuralNode) -> (r: String)
    ensures
        r@ == neural_text(*n),
{
    struct_debug("NeuralNode", one(field_debug("op", str_debug_text(n.op.as_str()))))
}

/// The text `{:?}` gives a core instruction.
pub open spec fn core_debug(x: CoreInstruction) -> Seq<char> {
    match x {
        CoreInstruction::Alloca(f0, f1) => tuple_text("Alloca"@, seq![type_text(f0), decimal_text(f1 as int)]),
        CoreInstruction::Load(f0) => tuple_text("Load"@, seq![type_text(f0)]),
        CoreInstruction::Store(f0) => tuple_text("Store"@, seq![type_text(f0)]),
        CoreInstruction::Gep { base_type, indices } => struct_text("Gep"@, seq![field_text("base_type"@, type_text(base_type)), field_text("indices"@, nums_text(indices@.map_values(|v: usize| v as int)))]),
        CoreInstruction::Add(f0) => tuple_text("Add"@, seq![type_text(f0)]),
        CoreInstruction::Sub(f0) => tuple_text("Sub"@, seq![type_text(f0)]),
        CoreInstruction::Mul(f0) => tuple_text("Mul"@, seq![type_text(f0)]),
        CoreInstruction::Div(f0) => tuple_text("Div"@, seq![type_text(f0)]),
        CoreInstruction::Rem(f0) => tuple_text("Rem"@, seq![type_text(f0)]),
        CoreInstruction::And(f0) => tuple_text("And"@, seq![type_text(f0)]),
        CoreInstruction::Or(f0) => tuple_text("Or"@, seq![type_text(f0)]),
        CoreInstruction::Xor(f0) => tuple_text("Xor"@, seq![type_text(f0)]),
        CoreInstruction::Shl(f0) => tuple_text("Shl"@, seq![type_text(f0)]),
        CoreInstruction::Shr(f0) => tuple_text("Shr"@, seq![type_text(f0)]),
        CoreInstruction::Neg(f0) => tuple_text("Neg"@, seq![type_text(f0)]),
        CoreInstruction::Not(f0) => tuple_text("Not"@, seq![type_text(f0)]),
        CoreInstruction::Cmp(f0, f1) => tuple_text("Cmp"@, seq![condition_text(f0), type_text(f1)]),
        CoreInstruction::Cast { from, to, kind } => struct_text("Cast"@, seq![field_text("from"@, type_text(from)), field_text("to"@, type_text(to)), field_text("kind"@, cast_text(kind))]),
        CoreInstruction::PushConstant(f0) => tuple_text("PushConstant"@, seq![constant_text(f0)]),
        CoreInstruction::Pop => "Pop"@,
        CoreInstruction::Dup => "Dup"@,
        CoreInstruction::LoadLocal(f0, f1) => tuple_text("LoadLocal"@, seq![decimal_text(f0 as int), type_text(f1)]),
        CoreInstruction::StoreLocal(f0, f1) => tuple_text("StoreLocal"@, seq![decimal_text(f0 as int), type_text(f1)]),
        CoreInstruction::LoadArg(f0, f1) => tuple_text("LoadArg"@, seq![decimal_text(f0 as int), type_text(f1)]),
        CoreInstruction::StoreArg(f0, f1) => tuple_text("StoreArg"@, seq![decimal_text(f0 as int), type_text(f1)]),
        CoreInstruction::Ret => "Ret"@,
        CoreInstruction::Br(f0) => tuple_text("Br"@, seq![str_debug(f0@)]),
        CoreInstruction::BrTrue(f0) => tuple_text("BrTrue"@, seq![str_debug(f0@)]),
        CoreInstruction::BrFalse(f0) => tuple_text("BrFalse"@, seq![str_debug(f0@)]),
        CoreInstruction::Label(f0) => tuple_text("Label"@, seq![str_debug(f0@)]),
        CoreInstruction::Call(f0, f1) => tuple_text("Call"@, seq![str_debug(f0@), decimal_text(f1 as int)]),
        CoreInstruction::CallIndirect(f0) => tuple_text("CallIndirect"@, seq![decimal_text(f0 as int)]),
        CoreInstruction::New(f0) => tuple_text("New"@, seq![str_debug(f0@)]),
        CoreInstruction::NewArray(f0, f1) => tuple_text("NewArray"@, seq![type_text(f0), bool_text(f1)]),
        CoreInstruction::LoadField(f0, f1) => tuple_text("LoadField"@, seq![str_debug(f0@), str_debug(f1@)]),
        CoreInstruction::StoreField(f0, f1) => tuple_text("StoreField"@, seq![str_debug(f0@), str_debug(f1@)]),
        CoreInstruction::LoadElement(f0) => tuple_text("LoadElement"@, seq![type_text(f0)]),
        CoreInstruction::StoreElement(f0) => tuple_text("StoreElement"@, seq![type_text(f0)]),
        CoreInstruction::ArrayLength => "ArrayLength"@,
        CoreInstruction::ArrayPush => "ArrayPush"@,
        CoreInstruction::StructNew(f0) => tuple_text("StructNew"@, seq![str_debug(f0@)]),
        CoreInstruction::StructGet { struct_name, field_index, is_signed } => struct_text("StructGet"@, seq![field_text("struct_name"@, str_debug(struct_name@)), field_text("field_index"@, decimal_text(field_index as int)), field_text("is_signed"@, bool_text(is_signed))]),
        CoreInstruction::StructSet { struct_name, field_index } => struct_text("StructSet"@, seq![field_text("struct_name"@, str_debug(struct_name@)), field_text("field_index"@, decimal_text(field_index as int))]),
        CoreInstruction::ArrayNew(f0) => tuple_text("ArrayNew"@, seq![str_debug(f0@)]),
        CoreInstruction::ArrayGet { array_name, is_signed } => struct_text("ArrayGet"@, seq![field_text("array_name"@, str_debug(array_name@)), field_text("is_signed"@, bool_text(is_signed))]),
        CoreInstruction::ArraySet(f0) => tuple_text("ArraySet"@, seq![str_debug(f0@)]),
    }
}

/// The debug text of a core instruction.
pub fn core_debug_text(x: &CoreInstruction) -> (r: String)
    ensures
        r@ == core_debug(*x),
{
    match x {
        CoreInstruction::Alloca(f0, f1) => tuple_debug("Alloca", two(type_debug(f0), format_u64(*f1 as u64))),
        CoreInstruction::Load(f0) => tuple_debug("Load", one(type_debug(f0))),
        CoreInstruction::Store(f0) => tuple_debug("Store", one(type_debug(f0))),
        CoreInstruction::Gep { base_type, indices } => struct_debug("Gep", two(field_debug("base_type", type_debug(base_type)), field_debug("indices", usizes_debug(indices)))),
        CoreInstruction::Add(f0) => tuple_debug("Add", one(type_debug(f0))),
        CoreInstruction::Sub(f0) => tuple_debug("Sub", one(type_debug(f0))),
        CoreInstruction::Mul(f0) => tuple_debug("Mul", one(type_debug(f0))),
        CoreInstruction::Div(f0) => tuple_debug("Div", one(type_debug(f0))),
        CoreInstruction::Rem(f0) => tuple_debug("Rem", one(type_debug(f0))),
        CoreInstruction::And(f0) => tuple_debug("And", one(type_debug(f0))),
        CoreInstruction::Or(f0) => tuple_debug("Or", one(type_debug(f0))),
        CoreInstruction::Xor(f0) => tuple_debug("Xor", one(type_debug(f0))),
        CoreInstruction::Shl(f0) => tuple_debug("Shl", one(type_debug(f0))),
        CoreInstruction::Shr(f0) => tuple_debug("Shr", one(type_debug(f0))),
        CoreInstruction::Neg(f0) => tuple_debug("Neg", one(type_debug(f0))),
        CoreInstruction::Not(f0) => tuple_debug("Not", one(type_debug(f0))),
        CoreInstruction::Cmp(f0, f1) => tuple_debug("Cmp", two(condition_debug(*f0), type_debug(f1))),
        CoreInstruction::Cast { from, to, kind } => struct_debug("Cast", three(field_debug("from", type_debug(from)), field_debug("to", type_debug(to)), field_debug("kind", cast_debug(*kind)))),
        CoreInstruction::PushConstant(f0) => tuple_debug("PushConstant", one(constant_debug(f0))),
        CoreInstruction::Pop => owned("Pop"),
        CoreInstruction::Dup => owned("Dup"),
        CoreInstruction::LoadLocal(f0, f1) => tuple_debug("LoadLocal", two(format_u64(*f0 as u64), type_debug(f1))),
        CoreInstruction::StoreLocal(f0, f1) => tuple_debug("StoreLocal", two(format_u64(*f0 as u64), type_debug(f1))),
        CoreInstruction::LoadArg(f0, f1) => tuple_debug("LoadArg", two(format_u64(*f0 as u64), type_debug(f1))),
        CoreInstruction::StoreArg(f0, f1) => tuple_debug("StoreArg", two(format_u64(*f0 as u64), type_debug(f1))),
        CoreInstruction::Ret => owned("Ret"),
        CoreInstruction::Br(f0) => tuple_debug("Br", one(str_debug_text(f0.as_str()))),
        CoreInstruction::BrTrue(f0) => tuple_debug("BrTrue", one(str_debug_text(f0.as_str()))),
        CoreInstruction::BrFalse(f0) => tuple_debug("BrFalse", one(str_debug_text(f0.as_str()))),
        CoreInstruction::Label(f0) => tuple_debug("Label", one(str_debug_text(f0.as_str()))),
        CoreInstruction::Call(f0, f1) => tuple_debug("Call", two(str_debug_text(f0.as_str()), format_u64(*f1 as u64))),
        CoreInstruction::CallIndirect(f0) => tuple_debug("CallIndirect", one(format_u64(*f0 as u64))),
        CoreInstruction::New(f0) => tuple_debug("New", one(str_debug_text(f0.as_str()))),
        CoreInstruction::NewArray(f0, f1) => tuple_debug("NewArray", two(type_debug(f0), bool_debug(*f1))),
        CoreInstruction::LoadField(f0, f1) => tuple_debug("LoadField", two(str_debug_text(f0.as_str()), str_debug_text(f1.as_str()))),
        CoreInstruction::StoreField(f0, f1) => tuple_debug("StoreField", two(str_debug_text(f0.as_str()), str_debug_text(f1.as_str()))),
        CoreInstruction::LoadElement(f0) => tuple_debug("LoadElement", one(type_debug(f0))),
        CoreInstruction::StoreElement(f0) => tuple_debug("StoreElement", one(type_debug(f0))),
        CoreInstruction::ArrayLength => owned("ArrayLength"),
        CoreInstruction::ArrayPush => owned("ArrayPush"),
        CoreInstruction::StructNew(f0) => tuple_debug("StructNew", one(str_debug_text(f0.as_str()))),
        CoreInstruction::StructGet { struct_name, field_index, is_signed } => struct_debug("StructGet", three(field_debug("struct_name", str_debug_text(struct_name.as_str())), field_debug("field_index", format_u64(*field_index as u64)), field_debug("is_signed", bool_debug(*is_signed)))),
        CoreInstruction::StructSet { struct_name, field_index } => struct_debug("StructSet", two(field_debug("struct_name", str_debug_text(struct_name.as_str())), field_debug("field_index", format_u64(*field_index as u64)))),
        CoreInstruction::ArrayNew(f0) => tuple_debug("ArrayNew", one(str_debug_text(f0.as_str()))),
        CoreInstruction::ArrayGet { array_name, is_signed } => struct_debug("ArrayGet", two(field_debug("array_name", str_debug_text(array_name.as_str())), field_debug("is_signed", bool_debug(*is_signed)))),
        CoreInstruction::ArraySet(f0) => tuple_debug("ArraySet", one(str_debug_text(f0.as_str()))),
    }
}

/// The text `{:?}` gives a managed instruction.
pub open spec fn managed_debug(x: ManagedInstruction) -> Seq<char> {
    match x {
        ManagedInstruction::CallMethod { target, method, signature, is_virtual, call_site_id } => struct_text("CallMethod"@, seq![field_text("target"@, str_debug(target@)), field_text("method"@, str_debug(method@)), field_text("signature"@, sig_text(signature)), field_text("is_virtual"@, bool_text(is_virtual)), field_text("call_site_id"@, opt_u32_text(call_site_id))]),
        ManagedInstruction::CallStatic { target, method, signature } => struct_text("CallStatic"@, seq![field_text("target"@, str_debug(target@)), field_text("method"@, str_debug(method@)), field_text("signature"@, sig_text(signature))]),
        ManagedInstruction::Box(f0) => tuple_text("Box"@, seq![type_text(f0)]),
        ManagedInstruction::Unbox(f0) => tuple_text("Unbox"@, seq![type_text(f0)]),
        ManagedInstruction::InstanceOf(f0) => tuple_text("InstanceOf"@, seq![type_text(f0)]),
        ManagedInstruction::CheckCast(f0) => tuple_text("CheckCast"@, seq![type_text(f0)]),
        ManagedInstruction::Initiate(f0) => tuple_text("Initiate"@, seq![decimal_text(f0 as int)]),
        ManagedInstruction::Finalize => "Finalize"@,
    }
}

/// The debug text of a managed instruction.
pub fn managed_debug_text(x: &ManagedInstruction) -> (r: String)
    ensures
        r@ == managed_debug(*x),
{
    match x {
        ManagedInstruction::CallMethod { target, method, signature, is_virtual, call_site_id } => struct_debug("CallMethod", five(field_debug("target", str_debug_text(target.as_str())), field_debug("method", str_debug_text(method.as_str())), field_debug("signature", sig_debug(signature)), field_debug("is_virtual", bool_debug(*is_virtual)), field_debug("call_site_id", opt_u32_debug(*call_site_id)))),
        ManagedInstruction::CallStatic { target, method, signature } => struct_debug("CallStatic", three(field_debug("target", str_debug_text(target.as_str())), field_debug("method", str_debug_text(method.as_str())), field_debug("signature", sig_debug(signature)))),
        ManagedInstruction::Box(f0) => tuple_debug("Box", one(type_debug(f0))),
        ManagedInstruction::Unbox(f0) => tuple_debug("Unbox", one(type_debug(f0))),
        ManagedInstruction::InstanceOf(f0) => tuple_debug("InstanceOf", one(type_debug(f0))),
        ManagedInstruction::CheckCast(f0) => tuple_debug("CheckCast", one(type_debug(f0))),
        ManagedInstruction::Initiate(f0) => tuple_debug("Initiate", one(format_u64(*f0 as u64))),
        ManagedInstruction::Finalize => owned("Finalize"),
    }
}

/// The text `{:?}` gives a domain instruction.
pub open spec fn domain_debug(x: DomainInstruction) -> Seq<char> {
    match x {
        DomainInstruction::Neural(f0) => tuple_text("Neural"@, seq![neural_text(f0)]),
        DomainInstruction::MatMul { a_shape, b_shape, transpose_a, transpose_b } => struct_text("MatMul"@, seq![field_text("a_shape"@, nums_text(a_shape@.map_values(|v: usize| v as int))), field_text("b_shape"@, nums_text(b_shape@.map_values(|v: usize| v as int))), field_text("transpose_a"@, bool_text(transpose_a)), field_text("transpose_b"@, bool_text(transpose_b))]),
        DomainInstruction::Conv2D { stride, padding, dilation, groups } => struct_text("Conv2D"@, seq![field_text("stride"@, list_text(seq![decimal_text(stride[0] as int), decimal_text(stride[1] as int)])), field_text("padding"@, list_text(seq![decimal_text(padding[0] as int), decimal_text(padding[1] as int)])), field_text("dilation"@, list_text(seq![decimal_text(dilation[0] as int), decimal_text(dilation[1] as int)])), field_text("groups"@, decimal_text(groups as int))]),
        DomainInstruction::ElementWise(f0, f1) => tuple_text("ElementWise"@, seq![type_text(f0), str_debug(f1@)]),
        DomainInstruction::GetThreadId(f0) => tuple_text("GetThreadId"@, seq![decimal_text(f0 as int)]),
        DomainInstruction::GetGroupSize(f0) => tuple_text("GetGroupSize"@, seq![decimal_text(f0 as int)]),
        DomainInstruction::Barrier => "Barrier"@,
    }
}

/// The debug text of a domain instruction.
pub fn domain_debug_text(x: &DomainInstruction) -> (r: String)
    ensures
        r@ == domain_debug(*x),
{
    match x {
        DomainInstruction::Neural(f0) => tuple_debug("Neural", one(neural_debug(f0))),
        DomainInstruction::MatMul { a_shape, b_shape, transpose_a, transpose_b } => struct_debug("MatMul", four(field_debug("a_shape", usizes_debug(a_shape)), field_debug("b_shape", usizes_debug(b_shape)), field_debug("transpose_a", bool_debug(*transpose_a)), field_debug("transpose_b", bool_debug(*transpose_b)))),
        DomainInstruction::Conv2D { stride, padding, dilation, groups } => struct_debug("Conv2D", four(field_debug("stride", pair_debug(*stride)), field_debug("padding", pair_debug(*padding)), field_debug("dilation", pair_debug(*dilation)), field_debug("groups", format_u64(*groups as u64)))),
        DomainInstruction::ElementWise(f0, f1) => tuple_debug("ElementWise", two(type_debug(f0), str_debug_text(f1.as_str()))),
        DomainInstruction::GetThreadId(f0) => tuple_debug("GetThreadId", one(format_u64(*f0 as u64))),
        DomainInstruction::GetGroupSize(f0) => tuple_debug("GetGroupSize", one(format_u64(*f0 as u64))),
        DomainInstruction::Barrier => owned("Barrier"),
    }
}

/// The text of an architecture.
pub open spec fn arch_text(a: ArchitectureView) -> Seq<char> {
    match a {
        ArchitectureView::Unknown => "Unknown"@,
        ArchitectureView::X86_64 => "X86_64"@,
        ArchitectureView::CLR => "CLR"@,
        ArchitectureView::JVM => "JVM"@,
        ArchitectureView::WASM32 => "WASM32"@,
        ArchitectureView::WASM64 => "WASM64"@,
        ArchitectureView::RISCV64 => "RISCV64"@,
        ArchitectureView::NvSass => "NvSass"@,
        ArchitectureView::Other(s) => tuple_text("Other"@, seq![str_debug(s)]),
    }
}

fn arch_debug(a: &Architecture) -> (r: String)
    ensures
        r@ == arch_text(a@),
{
    match a {
        Architecture::Unknown => owned("Unknown"),
        Architecture::X86_64 => owned("X86_64"),
        Architecture::CLR => owned("CLR"),
        Architecture::JVM => owned("JVM"),
        Architecture::WASM32 => owned("WASM32"),
        Architecture::WASM64 => owned("WASM64"),
        Architecture::RISCV64 => owned("RISCV64"),
        Architecture::NvSass => owned("NvSass"),
        Architecture::Other(s) => tuple_debug("Other", one(str_debug_text(s.as_str()))),
    }
}

/// The text of an API.
pub open spec fn api_text(t: ApiCompatible) -> Seq<char> {
    match t {
        ApiCompatible::Unknown => "Unknown"@,
        ApiCompatible::Linux => "Linux"@,
        ApiCompatible::Apple => "Apple"@,
        ApiCompatible::Metal => "Metal"@,
        ApiCompatible::MicrosoftVisualC => "MicrosoftVisualC"@,
        ApiCompatible::WASI => "WASI"@,
        ApiCompatible::ClrRuntime(v) => tuple_text("ClrRuntime"@, seq![decimal_text(v as int)]),
        ApiCompatible::JvmRuntime(v) => tuple_text("JvmRuntime"@, seq![decimal_text(v as int)]),
    }
}

fn api_debug(t: ApiCompatible) -> (r: String)
    ensures
        r@ == api_text(t),
{
    match t {
        ApiCompatible::Unknown => owned("Unknown"),
        ApiCompatible::Linux => owned("Linux"),
        ApiCompatible::Apple => owned("Apple"),
        ApiCompatible::Metal => owned("Metal"),
        ApiCompatible::MicrosoftVisualC => owned("MicrosoftVisualC"),
        ApiCompatible::WASI => owned("WASI"),
        ApiCompatible::ClrRuntime(v) => tuple_debug("ClrRuntime", one(format_u64(v as u64))),
        ApiCompatible::JvmRuntime(v) => tuple_debug("JvmRuntime", one(format_u64(v as u64))),
    }
}

/// The text `{:?}` gives a compilation target.
pub open spec fn target_debug(t: TargetView) -> Seq<char> {
    struct_text(
        "CompilationTarget"@,
        seq![field_text("build"@, arch_text(t.build)), field_text("host"@, abi_text(t.host)), field_text("target"@, api_text(t.target))],
    )
}

/// The debug text of a compilation target.
pub fn target_debug_text(t: &CompilationTarget) -> (r: String)
    ensures
        r@ == target_debug(t@),
{
    struct_debug(
        "CompilationTarget",
        three(field_debug("build", arch_debug(&t.build)), field_debug("host", abi_debug(t.host)), field_debug("target", api_debug(t.target))),
    )
}

} // verus!
