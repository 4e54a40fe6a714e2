//! The CLR backend's text output: a module written as intermediate-language
//! assembly text. The text is a sequence of pieces (lines, and the opening
//! and closing of indented blocks) rendered with four spaces per level.
use vstd::prelude::*;
use crate::adapters::{apply_mappings, default_table, table_lookup, FunctionMapper, MappingTable};
use crate::backends::jvm::FieldTypes;
use crate::config::GaiaSettings;
use crate::error::GaiaError;
use crate::instruction::{CmpCondition, CoreInstruction, GaiaInstruction};
use crate::program::{GaiaBlock, GaiaClass, GaiaConstant, GaiaField, GaiaFunction, GaiaGlobal, GaiaModule, GaiaStruct, GaiaTerminator};
use crate::target::{il_target, il_target_view};
use crate::text::{copy_string, decimal_text, format_i64, join, owned, push_char, push_str, string_views};
use crate::types::GaiaType;

verus! {

/// A piece of indented text: a line at the current depth, one level
/// deeper from here on, or one level shallower followed by a line.
pub ghost enum IlPiece {
    Line(Seq<char>),
    Open,
    Close(Seq<char>),
}

/// Four spaces per level.
pub open spec fn indent_text(d: nat) -> Seq<char>
    decreases d,
{
    if d == 0 {
        seq![]
    } else {
        indent_text((d - 1) as nat) + seq![' ', ' ', ' ', ' ']
    }
}

/// The depth after a piece.
pub open spec fn piece_depth(p: IlPiece, d: nat) -> nat {
    match p {
        IlPiece::Line(_) => d,
        IlPiece::Open => d + 1,
        IlPiece::Close(_) => if d > 0 {
            (d - 1) as nat
        } else {
            0
        },
    }
}

/// The text a piece writes at a depth.
pub open spec fn piece_text(p: IlPiece, d: nat) -> Seq<char> {
    match p {
        IlPiece::Line(t) => indent_text(d) + t + seq!['\n'],
        IlPiece::Open => seq![],
        IlPiece::Close(t) => indent_text(piece_depth(p, d)) + t + seq!['\n'],
    }
}

/// The depth after pieces, from a depth.
pub open spec fn depth_after(ps: Seq<IlPiece>, d: nat) -> nat
    decreases ps.len(),
{
    if ps.len() == 0 {
        d
    } else {
        piece_depth(ps.last(), depth_after(ps.drop_last(), d))
    }
}

/// The text of pieces, from a depth.
pub open spec fn render(ps: Seq<IlPiece>, d: nat) -> Seq<char>
    decreases ps.len(),
{
    if ps.len() == 0 {
        seq![]
    } else {
        render(ps.drop_last(), d) + piece_text(ps.last(), depth_after(ps.drop_last(), d))
    }
}

/// Lines as pieces.
pub open spec fn lines(ls: Seq<Seq<char>>) -> Seq<IlPiece> {
    ls.map_values(|l: Seq<char>| IlPiece::Line(l))
}

/// An intermediate-language text being written.
pub struct IlWriter {
    out: String,
    depth: usize,
    pieces: Ghost<Seq<IlPiece>>,
}

impl IlWriter {
    /// The pieces written so far.
    pub closed spec fn pieces(self) -> Seq<IlPiece> {
        self.pieces@
    }

    /// The text holds the pieces written and the depth is theirs.
    pub closed spec fn wf(self) -> bool {
        self.out@ == render(self.pieces@, 0) && self.depth == depth_after(self.pieces@, 0)
    }

    /// The current depth.
    pub closed spec fn depth(self) -> nat {
        depth_after(self.pieces@, 0)
    }

    pub fn new() -> (r: IlWriter)
        ensures
            r.wf(),
            r.pieces() == Seq::<IlPiece>::empty(),
    {
        let ghost empty: Seq<IlPiece> = seq![];
        IlWriter { out: String::new(), depth: 0, pieces: Ghost(empty) }
    }

    fn indent(&mut self, d: usize)
        ensures
            final(self).out@ == old(self).out@ + indent_text(d as nat),
            final(self).depth == old(self).depth,
            final(self).pieces == old(self).pieces,
    {
        let ghost start = self.out@;
        let mut i: usize = 0;
        while i < d
            invariant
                i <= d,
                self.out@ == start + indent_text(i as nat),
                self.depth == old(self).depth,
                self.pieces == old(self).pieces,
            decreases d - i,
        {
            push_str(&mut self.out, "    ");
            proof {
                reveal_strlit("    ");
            }
            i = i + 1;
            assert(self.out@ =~= start + indent_text(i as nat));
        }
    }

    /// Writes a line at the current depth.
    pub fn line(&mut self, text: &str)
        requires
            old(self).wf(),
        ensures
            final(self).wf(),
            final(self).pieces() == old(self).pieces().push(IlPiece::Line(text@)),
            final(self).depth() == old(self).depth(),
    {
        let d = self.depth;
        self.indent(d);
        push_str(&mut self.out, text);
        push_char(&mut self.out, '\n');
        let ghost ps = self.pieces@.push(IlPiece::Line(text@));
        self.pieces = Ghost(ps);
        assert(ps.drop_last() =~= old(self).pieces@);
        assert(self.out@ =~= render(ps, 0));
    }

    /// One level deeper.
    pub fn open(&mut self)
        requires
            old(self).wf(),
            old(self).depth() < usize::MAX,
        ensures
            final(self).wf(),
            final(self).pieces() == old(self).pieces().push(IlPiece::Open),
            final(self).depth() == old(self).depth() + 1,
    {
        self.depth = self.depth + 1;
        let ghost ps = self.pieces@.push(IlPiece::Open);
        self.pieces = Ghost(ps);
        assert(ps.drop_last() =~= old(self).pieces@);
        assert(self.out@ =~= render(ps, 0));
    }

    /// One level shallower, then a line.
    pub fn close(&mut self, text: &str)
        requires
            old(self).wf(),
        ensures
            final(self).wf(),
            final(self).pieces() == old(self).pieces().push(IlPiece::Close(text@)),
            old(self).depth() > 0 ==> final(self).depth() == old(self).depth() - 1,
    {
        if self.depth > 0 {
            self.depth = self.depth - 1;
        }
        let d = self.depth;
        let ghost ps = self.pieces@.push(IlPiece::Close(text@));
        assert(ps.drop_last() =~= old(self).pieces@);
        self.indent(d);
        push_str(&mut self.out, text);
        push_char(&mut self.out, '\n');
        self.pieces = Ghost(ps);
        assert(self.out@ =~= render(ps, 0));
    }

    /// The text written.
    pub fn text(&self) -> (r: &String)
        requires
            self.wf(),
        ensures
            r@ == render(self.pieces(), 0),
    {
        &self.out
    }
}

/// Text joined: `a` then `b`.
fn cat(a: &str, b: &str) -> (r: String)
    ensures
        r@ == a@ + b@,
{
    let mut s = owned(a);
    push_str(&mut s, b);
    s
}

/// The intermediate-language name of a type.
pub open spec fn msil_type_name(t: GaiaType) -> Seq<char>
    decreases t,
{
    match t {
        GaiaType::I8 => "int8"@,
        GaiaType::U8 => "uint8"@,
        GaiaType::I16 => "int16"@,
        GaiaType::U16 => "uint16"@,
        GaiaType::I32 => "int32"@,
        GaiaType::U32 => "uint32"@,
        GaiaType::I64 => "int64"@,
        GaiaType::U64 => "uint64"@,
        GaiaType::F32 => "float32"@,
        GaiaType::F64 => "float64"@,
        GaiaType::Bool => "bool"@,
        GaiaType::String => "string"@,
        GaiaType::Object => "object"@,
        GaiaType::Class(name) => name@,
        GaiaType::Struct(name) => name@,
        GaiaType::Array(elem, _) => msil_type_name(*elem) + "[]"@,
        GaiaType::Pointer(_, _) => "native int"@,
        GaiaType::Void => "void"@,
        _ => "object"@,
    }
}

/// The intermediate-language name of a type.
pub fn gaia_type_to_msil_name(t: &GaiaType) -> (r: String)
    ensures
        r@ == msil_type_name(*t),
    decreases t,
{
    match t {
        GaiaType::I8 => owned("int8"),
        GaiaType::U8 => owned("uint8"),
        GaiaType::I16 => owned("int16"),
        GaiaType::U16 => owned("uint16"),
        GaiaType::I32 => owned("int32"),
        GaiaType::U32 => owned("uint32"),
        GaiaType::I64 => owned("int64"),
        GaiaType::U64 => owned("uint64"),
        GaiaType::F32 => owned("float32"),
        GaiaType::F64 => owned("float64"),
        GaiaType::Bool => owned("bool"),
        GaiaType::String => owned("string"),
        GaiaType::Object => owned("object"),
        GaiaType::Class(name) => copy_string(name),
        GaiaType::Struct(name) => copy_string(name),
        GaiaType::Array(elem, _) => {
            let mut s = gaia_type_to_msil_name(elem);
            push_str(&mut s, "[]");
            s
        },
        GaiaType::Pointer(_, _) => owned("native int"),
        GaiaType::Void => owned("void"),
        _ => owned("object"),
    }
}

/// The line that loads a constant, or none for a constant without one.
pub open spec fn msil_constant(c: GaiaConstant) -> Option<Seq<Seq<char>>> {
    match c {
        GaiaConstant::I8(v) => Some(seq!["ldc.i4 "@ + decimal_text(v as int)]),
        GaiaConstant::U8(v) => Some(seq!["ldc.i4 "@ + decimal_text(v as int)]),
        GaiaConstant::I16(v) => Some(seq!["ldc.i4 "@ + decimal_text(v as int)]),
        GaiaConstant::U16(v) => Some(seq!["ldc.i4 "@ + decimal_text(v as int)]),
        GaiaConstant::I32(v) => Some(seq!["ldc.i4 "@ + decimal_text(v as int)]),
        GaiaConstant::U32(v) => Some(seq!["ldc.i4 "@ + decimal_text((v as i32) as int)]),
        GaiaConstant::I64(v) => Some(seq!["ldc.i8 "@ + decimal_text(v as int)]),
        GaiaConstant::U64(v) => Some(seq!["ldc.i8 "@ + decimal_text((v as i64) as int)]),
        GaiaConstant::F32 { bits, text } => Some(seq!["ldc.r4 "@ + text@]),
        GaiaConstant::F64 { bits, text } => Some(seq!["ldc.r8 "@ + text@]),
        GaiaConstant::String(s) => Some(seq!["ldstr \""@ + s@ + "\""@]),
        GaiaConstant::Bool(b) => Some(seq!["ldc.i4 "@ + decimal_text(if b { 1 } else { 0 })]),
        GaiaConstant::Null => Some(seq!["ldnull"@]),
        _ => None,
    }
}

/// The load or store through an address of a type: `ldind` or `stind`.
pub open spec fn msil_indirect(base: Seq<char>, t: GaiaType) -> Seq<char> {
    base + match t {
        GaiaType::I8 => ".i4"@,
        GaiaType::I16 => ".i4"@,
        GaiaType::I32 => ".i4"@,
        GaiaType::I64 => ".i8"@,
        GaiaType::F32 => ".r4"@,
        GaiaType::F64 => ".r8"@,
        _ => ".ref"@,
    }
}

/// The lines of a comparison.
pub open spec fn msil_compare(c: CmpCondition) -> Seq<Seq<char>> {
    match c {
        CmpCondition::Eq => seq!["ceq"@],
        CmpCondition::Ne => seq!["ceq"@, "ldc.i4 0"@, "ceq"@],
        CmpCondition::Lt => seq!["clt"@],
        CmpCondition::Le => seq!["cgt"@, "ldc.i4 0"@, "ceq"@],
        CmpCondition::Gt => seq!["cgt"@],
        CmpCondition::Ge => seq!["clt"@, "ldc.i4 0"@, "ceq"@],
    }
}

/// The name a call goes to: the mapped name for the intermediate-language
/// target, else the name itself.
pub open spec fn msil_callee(tb: MappingTable, name: Seq<char>) -> Seq<char> {
    match table_lookup(tb, il_target_view(), name) {
        Some(m) => m,
        None => name,
    }
}

/// The type name of a field: its recorded name, else `object`.
pub open spec fn msil_field_type(ft: Map<(Seq<char>, Seq<char>), Seq<char>>, class: Seq<char>, field: Seq<char>) -> Seq<char> {
    if ft.dom().contains((class, field)) {
        ft[(class, field)]
    } else {
        "object"@
    }
}

/// The lines of an instruction, or none where a constant has no line.
/// Instructions without a form here write nothing.
pub open spec fn msil_instr(
    i: GaiaInstruction,
    ft: Map<(Seq<char>, Seq<char>), Seq<char>>,
    tb: MappingTable,
) -> Option<Seq<Seq<char>>> {
    match i {
        GaiaInstruction::Core(c) => match c {
            CoreInstruction::PushConstant(k) => msil_constant(k),
            CoreInstruction::Load(t) => Some(seq![msil_indirect("ldind"@, t)]),
            CoreInstruction::Store(t) => Some(seq![msil_indirect("stind"@, t)]),
            CoreInstruction::Add(_) => Some(seq!["add"@]),
            CoreInstruction::Sub(_) => Some(seq!["sub"@]),
            CoreInstruction::Mul(_) => Some(seq!["mul"@]),
            CoreInstruction::Div(_) => Some(seq!["div"@]),
            CoreInstruction::Pop => Some(seq!["pop"@]),
            CoreInstruction::Dup => Some(seq!["dup"@]),
            CoreInstruction::Cmp(cond, _) => Some(msil_compare(cond)),
            CoreInstruction::Ret => Some(seq!["ret"@]),
            CoreInstruction::Br(l) => Some(seq!["br "@ + l@]),
            CoreInstruction::BrTrue(l) => Some(seq!["brtrue "@ + l@]),
            CoreInstruction::BrFalse(l) => Some(seq!["brfalse "@ + l@]),
            CoreInstruction::Label(n) => Some(seq![n@ + ":"@]),
            CoreInstruction::Call(name, _) => Some(seq!["call "@ + msil_callee(tb, name@)]),
            CoreInstruction::LoadLocal(k, _) => Some(seq!["ldloc "@ + decimal_text(k as int)]),
            CoreInstruction::StoreLocal(k, _) => Some(seq!["stloc "@ + decimal_text(k as int)]),
            CoreInstruction::LoadArg(k, _) => Some(seq!["ldarg "@ + decimal_text(k as int)]),
            CoreInstruction::StoreArg(k, _) => Some(seq!["starg "@ + decimal_text(k as int)]),
            CoreInstruction::New(t) => Some(seq!["newobj instance void "@ + t@ + "::.ctor()"@]),
            CoreInstruction::NewArray(t, _) => Some(seq!["newarr "@ + msil_type_name(t)]),
            CoreInstruction::LoadField(t, f) => Some(
                seq!["ldfld "@ + msil_field_type(ft, t@, f@) + " "@ + t@ + "::"@ + f@],
            ),
            CoreInstruction::StoreField(t, f) => Some(
                seq!["stfld "@ + msil_field_type(ft, t@, f@) + " "@ + t@ + "::"@ + f@],
            ),
            CoreInstruction::LoadElement(t) => Some(seq!["ldelem "@ + msil_type_name(t)]),
            CoreInstruction::StoreElement(t) => Some(seq!["stelem "@ + msil_type_name(t)]),
            CoreInstruction::ArrayLength => Some(seq!["ldlen"@]),
            _ => Some(seq![]),
        },
        _ => Some(seq![]),
    }
}

/// Writes one line.
fn emit(w: &mut IlWriter, text: &str)
    requires
        old(w).wf(),
    ensures
        final(w).wf(),
        final(w).pieces() == old(w).pieces() + lines(seq![text@]),
        final(w).depth() == old(w).depth(),
{
    w.line(text);
    assert(lines(seq![text@]) =~= seq![IlPiece::Line(text@)]);
    assert(old(w).pieces().push(IlPiece::Line(text@)) =~= old(w).pieces() + lines(seq![text@]));
}

/// Writes lines in order.
fn emit_all(w: &mut IlWriter, ls: &Vec<String>)
    requires
        old(w).wf(),
    ensures
        final(w).wf(),
        final(w).pieces() == old(w).pieces() + lines(string_views(ls@)),
        final(w).depth() == old(w).depth(),
{
    let ghost start = w.pieces();
    let mut k: usize = 0;
    while k < ls.len()
        invariant
            k <= ls@.len(),
            w.wf(),
            w.pieces() == start + lines(string_views(ls@).take(k as int)),
            w.depth() == old(w).depth(),
        decreases ls.len() - k,
    {
        emit(w, ls[k].as_str());
        proof {
            assert(string_views(ls@).take(k + 1) =~= string_views(ls@).take(k as int) + seq![ls@[k as int]@]);
            assert(lines(string_views(ls@).take(k + 1)) =~= lines(string_views(ls@).take(k as int)) + lines(
                seq![ls@[k as int]@],
            ));
        }
        k = k + 1;
    }
    assert(string_views(ls@).take(k as int) =~= string_views(ls@));
}

/// The line that loads a constant.
fn constant_line(c: &GaiaConstant) -> (r: Option<String>)
    ensures
        match msil_constant(*c) {
            Some(ls) => r matches Some(l) && ls == seq![l@],
            None => r is None,
        },
{
    match c {
        GaiaConstant::I8(v) => Some(cat("ldc.i4 ", format_i64(*v as i64).as_str())),
        GaiaConstant::U8(v) => Some(cat("ldc.i4 ", format_i64(*v as i64).as_str())),
        GaiaConstant::I16(v) => Some(cat("ldc.i4 ", format_i64(*v as i64).as_str())),
        GaiaConstant::U16(v) => Some(cat("ldc.i4 ", format_i64(*v as i64).as_str())),
        GaiaConstant::I32(v) => Some(cat("ldc.i4 ", format_i64(*v as i64).as_str())),
        GaiaConstant::U32(v) => Some(cat("ldc.i4 ", format_i64((*v as i32) as i64).as_str())),
        GaiaConstant::I64(v) => Some(cat("ldc.i8 ", format_i64(*v).as_str())),
        GaiaConstant::U64(v) => Some(cat("ldc.i8 ", format_i64(*v as i64).as_str())),
        GaiaConstant::F32 { bits, text } => Some(cat("ldc.r4 ", text.as_str())),
        GaiaConstant::F64 { bits, text } => Some(cat("ldc.r8 ", text.as_str())),
        GaiaConstant::String(s) => {
            let mut l = cat("ldstr \"", s.as_str());
            push_str(&mut l, "\"");
            Some(l)
        },
        GaiaConstant::Bool(b) => Some(cat("ldc.i4 ", format_i64(if *b { 1 } else { 0 }).as_str())),
        GaiaConstant::Null => Some(owned("ldnull")),
        _ => None,
    }
}

fn indirect_line(base: &str, t: &GaiaType) -> (r: String)
    ensures
        r@ == msil_indirect(base@, *t),
{
    let suffix = match t {
        GaiaType::I8 => ".i4",
        GaiaType::I16 => ".i4",
        GaiaType::I32 => ".i4",
        GaiaType::I64 => ".i8",
        GaiaType::F32 => ".r4",
        GaiaType::F64 => ".r8",
        _ => ".ref",
    };
    cat(base, suffix)
}

fn compare_lines(c: CmpCondition) -> (r: Vec<String>)
    ensures
        string_views(r@) == msil_compare(c),
{
    let r = match c {
        CmpCondition::Eq => vec![owned("ceq")],
        CmpCondition::Ne => vec![owned("ceq"), owned("ldc.i4 0"), owned("ceq")],
        CmpCondition::Lt => vec![owned("clt")],
        CmpCondition::Le => vec![owned("cgt"), owned("ldc.i4 0"), owned("ceq")],
        CmpCondition::Gt => vec![owned("cgt")],
        CmpCondition::Ge => vec![owned("clt"), owned("ldc.i4 0"), owned("ceq")],
    };
    assert(string_views(r@) =~= msil_compare(c));
    r
}

fn field_line(op: &str, ft: &FieldTypes, t: &String, f: &String) -> (r: String)
    ensures
        r@ == op@ + msil_field_type(ft.as_map(), t@, f@) + " "@ + t@ + "::"@ + f@,
{
    let mut l = owned(op);
    match ft.get(t.as_str(), f.as_str()) {
        Some(n) => push_str(&mut l, n.as_str()),
        None => push_str(&mut l, "object"),
    }
    push_str(&mut l, " ");
    push_str(&mut l, t.as_str());
    push_str(&mut l, "::");
    push_str(&mut l, f.as_str());
    l
}

/// Writes the lines of an instruction (`msil_instr`); a constant without a
/// line gives an error.
pub fn compile_instruction(
    w: &mut IlWriter,
    i: &GaiaInstruction,
    ft: &FieldTypes,
    mapper: &FunctionMapper,
) -> (r: Result<(), GaiaError>)
    requires
        old(w).wf(),
    ensures
        final(w).wf(),
        final(w).depth() == old(w).depth(),
        match msil_instr(*i, ft.as_map(), mapper.table()) {
            Some(ls) => r is Ok && final(w).pieces() == old(w).pieces() + lines(ls),
            None => r matches Err(GaiaError::Custom { message }) && message@ == "Unsupported constant type for CLR"@,
        },
{
    let one: Option<String> = match i {
        GaiaInstruction::Core(c) => match c {
            CoreInstruction::PushConstant(k) => match constant_line(k) {
                Some(l) => Some(l),
                None => {
                    return Err(GaiaError::custom_error("Unsupported constant type for CLR"));
                },
            },
            CoreInstruction::Load(t) => Some(indirect_line("ldind", t)),
            CoreInstruction::Store(t) => Some(indirect_line("stind", t)),
            CoreInstruction::Add(_) => Some(owned("add")),
            CoreInstruction::Sub(_) => Some(owned("sub")),
            CoreInstruction::Mul(_) => Some(owned("mul")),
            CoreInstruction::Div(_) => Some(owned("div")),
            CoreInstruction::Pop => Some(owned("pop")),
            CoreInstruction::Dup => Some(owned("dup")),
            CoreInstruction::Cmp(cond, _) => {
                let ls = compare_lines(*cond);
                emit_all(w, &ls);
                return Ok(());
            },
            CoreInstruction::Ret => Some(owned("ret")),
            CoreInstruction::Br(l) => Some(cat("br ", l.as_str())),
            CoreInstruction::BrTrue(l) => Some(cat("brtrue ", l.as_str())),
            CoreInstruction::BrFalse(l) => Some(cat("brfalse ", l.as_str())),
            CoreInstruction::Label(n) => Some(cat(n.as_str(), ":")),
            CoreInstruction::Call(name, _) => {
                let target = il_target();
                let callee: &str = match mapper.map_function(&target, name.as_str()) {
                    Some(m) => m,
                    None => name.as_str(),
                };
                Some(cat("call ", callee))
            },
            CoreInstruction::LoadLocal(k, _) => Some(cat("ldloc ", format_i64(*k as i64).as_str())),
            CoreInstruction::StoreLocal(k, _) => Some(cat("stloc ", format_i64(*k as i64).as_str())),
            CoreInstruction::LoadArg(k, _) => Some(cat("ldarg ", format_i64(*k as i64).as_str())),
            CoreInstruction::StoreArg(k, _) => Some(cat("starg ", format_i64(*k as i64).as_str())),
            CoreInstruction::New(t) => {
                let mut l = cat("newobj instance void ", t.as_str());
                push_str(&mut l, "::.ctor()");
                Some(l)
            },
            CoreInstruction::NewArray(t, _) => Some(cat("newarr ", gaia_type_to_msil_name(t).as_str())),
            CoreInstruction::LoadField(t, f) => Some(field_line("ldfld ", ft, t, f)),
            CoreInstruction::StoreField(t, f) => Some(field_line("stfld ", ft, t, f)),
            CoreInstruction::LoadElement(t) => Some(cat("ldelem ", gaia_type_to_msil_name(t).as_str())),
            CoreInstruction::StoreElement(t) => Some(cat("stelem ", gaia_type_to_msil_name(t).as_str())),
            CoreInstruction::ArrayLength => Some(owned("ldlen")),
            _ => None,
        },
        _ => None,
    };
    match one {
        Some(l) => {
            emit(w, l.as_str());
        },
        None => {
            assert(old(w).pieces() + lines(seq![]) =~= old(w).pieces());
        },
    }
    Ok(())
}

/// The lines of instructions in order, or none if one has none.
pub open spec fn msil_instrs(
    is: Seq<GaiaInstruction>,
    ft: Map<(Seq<char>, Seq<char>), Seq<char>>,
    tb: MappingTable,
) -> Option<Seq<Seq<char>>>
    decreases is.len(),
{
    if is.len() == 0 {
        Some(seq![])
    } else {
        match msil_instrs(is.drop_last(), ft, tb) {
            Some(a) => match msil_instr(is.last(), ft, tb) {
                Some(b) => Some(a + b),
                None => None,
            },
            None => None,
        }
    }
}

/// The lines of a block's ending.
pub open spec fn msil_terminator(t: GaiaTerminator) -> Seq<Seq<char>> {
    match t {
        GaiaTerminator::Jump(l) => seq!["br "@ + l@],
        GaiaTerminator::Branch { true_label, false_label } => seq!["brtrue "@ + true_label@, "br "@ + false_label@],
        GaiaTerminator::Return => seq!["ret"@],
        GaiaTerminator::Call { callee, args_count, next_block } => seq!["call "@ + callee@, "br "@ + next_block@],
        GaiaTerminator::Halt => seq!["ldc.i4 0"@, "call ExitProcess"@],
    }
}

/// The lines of a block: its label, its instructions, its ending.
pub open spec fn msil_block(b: GaiaBlock, ft: Map<(Seq<char>, Seq<char>), Seq<char>>, tb: MappingTable) -> Option<
    Seq<Seq<char>>,
> {
    match msil_instrs(b.instructions@, ft, tb) {
        Some(is) => Some(seq![b.label@ + ":"@] + is + msil_terminator(b.terminator)),
        None => None,
    }
}

/// The lines of blocks in order.
pub open spec fn msil_blocks(
    bs: Seq<GaiaBlock>,
    ft: Map<(Seq<char>, Seq<char>), Seq<char>>,
    tb: MappingTable,
) -> Option<Seq<Seq<char>>>
    decreases bs.len(),
{
    if bs.len() == 0 {
        Some(seq![])
    } else {
        match msil_blocks(bs.drop_last(), ft, tb) {
            Some(a) => match msil_block(bs.last(), ft, tb) {
                Some(b) => Some(a + b),
                None => None,
            },
            None => None,
        }
    }
}

/// The type names of parameters.
pub open spec fn msil_params(ps: Seq<GaiaType>) -> Seq<Seq<char>> {
    ps.map_values(|t: GaiaType| msil_type_name(t))
}

/// The header of a method: its declaration line, then one level deeper,
/// `.entrypoint` for `main`, and the stack size.
pub open spec fn msil_method_head(f: GaiaFunction) -> Seq<IlPiece> {
    seq![
        IlPiece::Line(
            ".method public hidebysig "@ + msil_type_name(f.signature.return_type) + " "@ + f.name@ + "("@ + join(
                msil_params(f.signature.params@),
                ", "@,
            ) + ") cil managed {"@,
        ),
        IlPiece::Open,
    ] + (if f.name@ == "main"@ {
        lines(seq![".entrypoint"@])
    } else {
        seq![]
    }) + lines(seq![".maxstack 8"@])
}

/// A method: its header, its blocks, then the closing brace and an empty line.
pub open spec fn msil_function(f: GaiaFunction, ft: Map<(Seq<char>, Seq<char>), Seq<char>>, tb: MappingTable) -> Option<
    Seq<IlPiece>,
> {
    match msil_blocks(f.blocks@, ft, tb) {
        Some(ls) => Some(msil_method_head(f) + lines(ls) + seq![IlPiece::Close("}"@), IlPiece::Line(""@)]),
        None => None,
    }
}

/// Methods in order.
pub open spec fn msil_functions(
    fs: Seq<GaiaFunction>,
    ft: Map<(Seq<char>, Seq<char>), Seq<char>>,
    tb: MappingTable,
) -> Option<Seq<IlPiece>>
    decreases fs.len(),
{
    if fs.len() == 0 {
        Some(seq![])
    } else {
        match msil_functions(fs.drop_last(), ft, tb) {
            Some(a) => match msil_function(fs.last(), ft, tb) {
                Some(b) => Some(a + b),
                None => None,
            },
            None => None,
        }
    }
}

fn terminator_lines(t: &GaiaTerminator) -> (r: Vec<String>)
    ensures
        string_views(r@) == msil_terminator(*t),
{
    let r = match t {
        GaiaTerminator::Jump(l) => vec![cat("br ", l.as_str())],
        GaiaTerminator::Branch { true_label, false_label } => vec![
            cat("brtrue ", true_label.as_str()),
            cat("br ", false_label.as_str()),
        ],
        GaiaTerminator::Return => vec![owned("ret")],
        GaiaTerminator::Call { callee, args_count, next_block } => vec![
            cat("call ", callee.as_str()),
            cat("br ", next_block.as_str()),
        ],
        GaiaTerminator::Halt => vec![owned("ldc.i4 0"), owned("call ExitProcess")],
    };
    assert(string_views(r@) =~= msil_terminator(*t));
    r
}

fn unsupported() -> (e: GaiaError)
    ensures
        e matches GaiaError::Custom { message } && message@ == "Unsupported constant type for CLR"@,
{
    GaiaError::custom_error("Unsupported constant type for CLR")
}

/// Writes a block (`msil_block`).
fn compile_block(w: &mut IlWriter, b: &GaiaBlock, ft: &FieldTypes, mapper: &FunctionMapper) -> (r: Result<(), GaiaError>)
    requires
        old(w).wf(),
    ensures
        final(w).wf(),
        final(w).depth() == old(w).depth(),
        match msil_block(*b, ft.as_map(), mapper.table()) {
            Some(ls) => r is Ok && final(w).pieces() == old(w).pieces() + lines(ls),
            None => r matches Err(GaiaError::Custom { message }) && message@ == "Unsupported constant type for CLR"@,
        },
{
    let ghost m = ft.as_map();
    let ghost tb = mapper.table();
    let label = cat(b.label.as_str(), ":");
    emit(w, label.as_str());
    let ghost start = old(w).pieces();
    let ghost head = seq![b.label@ + ":"@];
    let is = &b.instructions;
    let mut k: usize = 0;
    assert(is@.take(0) =~= seq![]);
    while k < is.len()
        invariant
            k <= is@.len(),
            is == &b.instructions,
            w.wf(),
            w.depth() == old(w).depth(),
            m == ft.as_map(),
            tb == mapper.table(),
            msil_instrs(is@.take(k as int), m, tb) matches Some(acc) && w.pieces() == start + lines(head + acc),
        decreases is.len() - k,
    {
        proof {
            assert(is@.take(k + 1).drop_last() =~= is@.take(k as int));
        }
        let ghost acc = msil_instrs(is@.take(k as int), m, tb)->Some_0;
        let ghost before = w.pieces();
        match compile_instruction(w, &is[k], ft, mapper) {
            Ok(()) => {},
            Err(e) => {
                proof {
                    assert(msil_instr(is@[k as int], m, tb) is None);
                    lemma_instrs_none(is@, k as int, m, tb);
                    assert(msil_block(*b, m, tb) is None);
                }
                return Err(e);
            },
        }
        proof {
            let b2 = msil_instr(is@[k as int], m, tb)->Some_0;
            assert(lines(head + acc + b2) =~= lines(head + acc) + lines(b2));
        }
        k = k + 1;
    }
    assert(is@.take(k as int) =~= is@);
    let acc = terminator_lines(&b.terminator);
    let ghost before = w.pieces();
    emit_all(w, &acc);
    proof {
        let ins = msil_instrs(is@, m, tb)->Some_0;
        assert(lines(head + ins + msil_terminator(b.terminator)) =~= lines(head + ins) + lines(
            msil_terminator(b.terminator),
        ));
    }
    Ok(())
}

proof fn lemma_instrs_none(
    is: Seq<GaiaInstruction>,
    k: int,
    ft: Map<(Seq<char>, Seq<char>), Seq<char>>,
    tb: MappingTable,
)
    requires
        0 <= k < is.len(),
        msil_instr(is[k], ft, tb) is None,
    ensures
        msil_instrs(is, ft, tb) is None,
    decreases is.len(),
{
    if k < is.len() - 1 {
        assert(is.drop_last()[k] == is[k]);
        lemma_instrs_none(is.drop_last(), k, ft, tb);
    }
}

proof fn lemma_blocks_none(
    bs: Seq<GaiaBlock>,
    k: int,
    ft: Map<(Seq<char>, Seq<char>), Seq<char>>,
    tb: MappingTable,
)
    requires
        0 <= k < bs.len(),
        msil_block(bs[k], ft, tb) is None,
    ensures
        msil_blocks(bs, ft, tb) is None,
    decreases bs.len(),
{
    if k < bs.len() - 1 {
        assert(bs.drop_last()[k] == bs[k]);
        lemma_blocks_none(bs.drop_last(), k, ft, tb);
    }
}

proof fn lemma_functions_none(
    fs: Seq<GaiaFunction>,
    k: int,
    ft: Map<(Seq<char>, Seq<char>), Seq<char>>,
    tb: MappingTable,
)
    requires
        0 <= k < fs.len(),
        msil_function(fs[k], ft, tb) is None,
    ensures
        msil_functions(fs, ft, tb) is None,
    decreases fs.len(),
{
    if k < fs.len() - 1 {
        assert(fs.drop_last()[k] == fs[k]);
        lemma_functions_none(fs.drop_last(), k, ft, tb);
    }
}

/// The type names of parameters.
fn param_names(ps: &Vec<GaiaType>) -> (r: Vec<String>)
    ensures
        string_views(r@) == msil_params(ps@),
{
    let mut r: Vec<String> = Vec::new();
    let mut k: usize = 0;
    while k < ps.len()
        invariant
            k <= ps@.len(),
            r@.len() == k,
            forall|j: int| 0 <= j < k ==> (#[trigger] r@[j])@ == msil_type_name(ps@[j]),
        decreases ps.len() - k,
    {
        r.push(gaia_type_to_msil_name(&ps[k]));
        k = k + 1;
    }
    assert(string_views(r@) =~= msil_params(ps@));
    r
}

/// Writes a method's header (`msil_method_head`).
fn method_head(w: &mut IlWriter, f: &GaiaFunction)
    requires
        old(w).wf(),
        old(w).depth() < usize::MAX,
    ensures
        final(w).wf(),
        final(w).depth() == old(w).depth() + 1,
        final(w).pieces() == old(w).pieces() + msil_method_head(*f),
{
    let mut l = cat(".method public hidebysig ", gaia_type_to_msil_name(&f.signature.return_type).as_str());
    push_str(&mut l, " ");
    push_str(&mut l, f.name.as_str());
    push_str(&mut l, "(");
    let names = param_names(&f.signature.params);
    push_str(&mut l, crate::text::join_strings(&names, ", ").as_str());
    push_str(&mut l, ") cil managed {");
    w.line(l.as_str());
    w.open();
    let ghost mid = w.pieces();
    if crate::text::str_eq(f.name.as_str(), "main") {
        emit(w, ".entrypoint");
    } else {
        assert(mid + lines(seq![]) =~= mid);
    }
    emit(w, ".maxstack 8");
    assert(w.pieces() =~= old(w).pieces() + msil_method_head(*f));
}

/// Writes a function as a method (`msil_function`).
pub fn compile_function(w: &mut IlWriter, f: &GaiaFunction, ft: &FieldTypes, mapper: &FunctionMapper) -> (r: Result<
    (),
    GaiaError,
>)
    requires
        old(w).wf(),
        old(w).depth() < usize::MAX,
    ensures
        final(w).wf(),
        r is Ok ==> final(w).depth() == old(w).depth(),
        match msil_function(*f, ft.as_map(), mapper.table()) {
            Some(ps) => r is Ok && final(w).pieces() == old(w).pieces() + ps,
            None => r matches Err(GaiaError::Custom { message }) && message@ == "Unsupported constant type for CLR"@,
        },
{
    let ghost m = ft.as_map();
    let ghost tb = mapper.table();
    method_head(w, f);
    let ghost start = w.pieces();
    let bs = &f.blocks;
    let mut k: usize = 0;
    assert(bs@.take(0) =~= seq![]);
    assert(start + lines(seq![]) =~= start);
    while k < bs.len()
        invariant
            k <= bs@.len(),
            bs == &f.blocks,
            w.wf(),
            w.depth() == old(w).depth() + 1,
            m == ft.as_map(),
            tb == mapper.table(),
            msil_blocks(bs@.take(k as int), m, tb) matches Some(acc) && w.pieces() == start + lines(acc),
        decreases bs.len() - k,
    {
        proof {
            assert(bs@.take(k + 1).drop_last() =~= bs@.take(k as int));
        }
        let ghost acc = msil_blocks(bs@.take(k as int), m, tb)->Some_0;
        match compile_block(w, &bs[k], ft, mapper) {
            Ok(()) => {},
            Err(e) => {
                proof {
                    assert(msil_block(bs@[k as int], m, tb) is None);
                    lemma_blocks_none(bs@, k as int, m, tb);
                }
                return Err(e);
            },
        }
        proof {
            let b2 = msil_block(bs@[k as int], m, tb)->Some_0;
            assert(lines(acc + b2) =~= lines(acc) + lines(b2));
        }
        k = k + 1;
    }
    assert(bs@.take(k as int) =~= bs@);
    w.close("}");
    w.line("");
    assert(w.pieces() =~= old(w).pieces() + msil_function(*f, m, tb)->Some_0);
    Ok(())
}

/// Writes functions as methods in order (`msil_functions`).
fn compile_functions(w: &mut IlWriter, fs: &Vec<GaiaFunction>, ft: &FieldTypes, mapper: &FunctionMapper) -> (r: Result<
    (),
    GaiaError,
>)
    requires
        old(w).wf(),
        old(w).depth() < usize::MAX,
    ensures
        final(w).wf(),
        r is Ok ==> final(w).depth() == old(w).depth(),
        match msil_functions(fs@, ft.as_map(), mapper.table()) {
            Some(ps) => r is Ok && final(w).pieces() == old(w).pieces() + ps,
            None => r matches Err(GaiaError::Custom { message }) && message@ == "Unsupported constant type for CLR"@,
        },
{
    let ghost m = ft.as_map();
    let ghost tb = mapper.table();
    let ghost start = w.pieces();
    let mut k: usize = 0;
    assert(fs@.take(0) =~= seq![]);
    assert(start + seq![] =~= start);
    while k < fs.len()
        invariant
            k <= fs@.len(),
            w.wf(),
            w.depth() == old(w).depth(),
            old(w).depth() < usize::MAX,
            m == ft.as_map(),
            tb == mapper.table(),
            msil_functions(fs@.take(k as int), m, tb) matches Some(acc) && w.pieces() == start + acc,
        decreases fs.len() - k,
    {
        proof {
            assert(fs@.take(k + 1).drop_last() =~= fs@.take(k as int));
        }
        let ghost acc = msil_functions(fs@.take(k as int), m, tb)->Some_0;
        match compile_function(w, &fs[k], ft, mapper) {
            Ok(()) => {},
            Err(e) => {
                proof {
                    assert(msil_function(fs@[k as int], m, tb) is None);
                    lemma_functions_none(fs@, k as int, m, tb);
                }
                return Err(e);
            },
        }
        proof {
            let b2 = msil_function(fs@[k as int], m, tb)->Some_0;
            assert(start + acc + b2 =~= start + (acc + b2));
        }
        k = k + 1;
    }
    assert(fs@.take(k as int) =~= fs@);
    Ok(())
}

/// The opening of a class: its declaration line, then one level deeper.
pub open spec fn class_head(name: Seq<char>) -> Seq<IlPiece> {
    seq![
        IlPiece::Line(".class public auto ansi beforefieldinit "@ + name + " extends [mscorlib]System.Object {"@),
        IlPiece::Open,
    ]
}

/// The closing of a class: the closing brace and an empty line.
pub open spec fn class_end() -> Seq<IlPiece> {
    seq![IlPiece::Close("}"@), IlPiece::Line(""@)]
}

/// The declaration of a public field.
pub open spec fn field_decl(name: Seq<char>, t: GaiaType) -> Seq<char> {
    ".field public "@ + msil_type_name(t) + " "@ + name
}

/// The constructor written for a structure: it calls `Object`'s.
pub open spec fn default_ctor() -> Seq<IlPiece> {
    seq![
        IlPiece::Line(".method public hidebysig specialname rtspecialname instance void .ctor() cil managed {"@),
        IlPiece::Open,
        IlPiece::Line("ldarg.0"@),
        IlPiece::Line("call instance void [mscorlib]System.Object::.ctor()"@),
        IlPiece::Line("ret"@),
        IlPiece::Close("}"@),
    ]
}

pub open spec fn struct_field_decls(fs: Seq<(String, GaiaType)>) -> Seq<Seq<char>> {
    fs.map_values(|p: (String, GaiaType)| field_decl(p.0@, p.1))
}

pub open spec fn class_field_decls(fs: Seq<GaiaField>) -> Seq<Seq<char>> {
    fs.map_values(|f: GaiaField| field_decl(f.name@, f.ty))
}

/// A structure as a class: its fields and a constructor.
pub open spec fn msil_struct(s: GaiaStruct) -> Seq<IlPiece> {
    class_head(s.name@) + lines(struct_field_decls(s.fields@)) + default_ctor() + class_end()
}

/// Structures in order.
pub open spec fn msil_structs(ss: Seq<GaiaStruct>) -> Seq<IlPiece>
    decreases ss.len(),
{
    if ss.len() == 0 {
        seq![]
    } else {
        msil_structs(ss.drop_last()) + msil_struct(ss.last())
    }
}

/// A class: its fields and its methods.
pub open spec fn msil_class(c: GaiaClass, ft: Map<(Seq<char>, Seq<char>), Seq<char>>, tb: MappingTable) -> Option<
    Seq<IlPiece>,
> {
    match msil_functions(c.methods@, ft, tb) {
        Some(ms) => Some(class_head(c.name@) + lines(class_field_decls(c.fields@)) + ms + class_end()),
        None => None,
    }
}

/// Classes in order.
pub open spec fn msil_classes(
    cs: Seq<GaiaClass>,
    ft: Map<(Seq<char>, Seq<char>), Seq<char>>,
    tb: MappingTable,
) -> Option<Seq<IlPiece>>
    decreases cs.len(),
{
    if cs.len() == 0 {
        Some(seq![])
    } else {
        match msil_classes(cs.drop_last(), ft, tb) {
            Some(a) => match msil_class(cs.last(), ft, tb) {
                Some(b) => Some(a + b),
                None => None,
            },
            None => None,
        }
    }
}

/// Field type names recorded for a structure's fields.
pub open spec fn record_struct_fields(
    ft: Map<(Seq<char>, Seq<char>), Seq<char>>,
    owner: Seq<char>,
    fs: Seq<(String, GaiaType)>,
) -> Map<(Seq<char>, Seq<char>), Seq<char>>
    decreases fs.len(),
{
    if fs.len() == 0 {
        ft
    } else {
        record_struct_fields(ft, owner, fs.drop_last()).insert((owner, fs.last().0@), msil_type_name(fs.last().1))
    }
}

/// Field type names recorded for a class's fields.
pub open spec fn record_class_fields(
    ft: Map<(Seq<char>, Seq<char>), Seq<char>>,
    owner: Seq<char>,
    fs: Seq<GaiaField>,
) -> Map<(Seq<char>, Seq<char>), Seq<char>>
    decreases fs.len(),
{
    if fs.len() == 0 {
        ft
    } else {
        record_class_fields(ft, owner, fs.drop_last()).insert((owner, fs.last().name@), msil_type_name(fs.last().ty))
    }
}

/// Field type names recorded for the fields of structures.
pub open spec fn record_structs(
    ft: Map<(Seq<char>, Seq<char>), Seq<char>>,
    ss: Seq<GaiaStruct>,
) -> Map<(Seq<char>, Seq<char>), Seq<char>>
    decreases ss.len(),
{
    if ss.len() == 0 {
        ft
    } else {
        record_struct_fields(record_structs(ft, ss.drop_last()), ss.last().name@, ss.last().fields@)
    }
}

/// Field type names recorded for the fields of classes.
pub open spec fn record_classes(
    ft: Map<(Seq<char>, Seq<char>), Seq<char>>,
    cs: Seq<GaiaClass>,
) -> Map<(Seq<char>, Seq<char>), Seq<char>>
    decreases cs.len(),
{
    if cs.len() == 0 {
        ft
    } else {
        record_class_fields(record_classes(ft, cs.drop_last()), cs.last().name@, cs.last().fields@)
    }
}

/// Field type names recorded for globals, as fields of `Main`.
pub open spec fn record_globals(
    ft: Map<(Seq<char>, Seq<char>), Seq<char>>,
    gs: Seq<GaiaGlobal>,
) -> Map<(Seq<char>, Seq<char>), Seq<char>>
    decreases gs.len(),
{
    if gs.len() == 0 {
        ft
    } else {
        record_globals(ft, gs.drop_last()).insert(("Main"@, gs.last().name@), msil_type_name(gs.last().ty))
    }
}

/// The field type names of a module: structure fields, class fields, then
/// globals as fields of `Main`; a later one replaces an earlier one.
pub open spec fn msil_field_types(m: GaiaModule) -> Map<(Seq<char>, Seq<char>), Seq<char>> {
    record_globals(record_classes(record_structs(Map::empty(), m.structs@), m.classes@), m.globals@)
}

/// The text of a module as pieces: the assembly declaration, one external
/// assembly per import, the structures, the classes, then the functions.
/// None where a constant has no line.
pub open spec fn msil_module(m: GaiaModule, ft: Map<(Seq<char>, Seq<char>), Seq<char>>, tb: MappingTable) -> Option<
    Seq<IlPiece>,
> {
    let head = lines(
        seq![".assembly "@ + m.name@ + " {}"@] + m.imports@.map_values(
            |i: crate::program::GaiaImport| ".assembly extern "@ + i.library@ + " {}"@,
        ),
    );
    match msil_classes(m.classes@, ft, tb) {
        Some(cs) => match msil_functions(m.functions@, ft, tb) {
            Some(fs) => Some(head + msil_structs(m.structs@) + cs + fs),
            None => None,
        },
        None => None,
    }
}

/// What compiling a module to text gives, with a function-mapping table:
/// the UTF-8 bytes of the rendered text, or the error of a constant
/// without a line.
pub open spec fn msil_output(r: Result<Vec<u8>, GaiaError>, m: GaiaModule, tb: MappingTable) -> bool {
    match msil_module(m, msil_field_types(m), tb) {
        Some(ps) => r matches Ok(b) && b@ == vstd::utf8::encode_utf8(render(ps, 0)),
        None => r matches Err(GaiaError::Custom { message }) && message@ == "Unsupported constant type for CLR"@,
    }
}

/// Writes a structure as a class (`msil_struct`).
fn compile_struct(w: &mut IlWriter, s: &GaiaStruct)
    requires
        old(w).wf(),
        old(w).depth() + 1 < usize::MAX,
    ensures
        final(w).wf(),
        final(w).depth() == old(w).depth(),
        final(w).pieces() == old(w).pieces() + msil_struct(*s),
{
    let head = cat(".class public auto ansi beforefieldinit ", s.name.as_str());
    let mut head = head;
    push_str(&mut head, " extends [mscorlib]System.Object {");
    w.line(head.as_str());
    w.open();
    let mut decls: Vec<String> = Vec::new();
    let mut k: usize = 0;
    while k < s.fields.len()
        invariant
            k <= s.fields@.len(),
            decls@.len() == k,
            forall|j: int| 0 <= j < k ==> (#[trigger] decls@[j])@ == field_decl(s.fields@[j].0@, s.fields@[j].1),
        decreases s.fields.len() - k,
    {
        let mut d = cat(".field public ", gaia_type_to_msil_name(&s.fields[k].1).as_str());
        push_str(&mut d, " ");
        push_str(&mut d, s.fields[k].0.as_str());
        decls.push(d);
        k = k + 1;
    }
    assert(string_views(decls@) =~= struct_field_decls(s.fields@));
    emit_all(w, &decls);
    w.line(".method public hidebysig specialname rtspecialname instance void .ctor() cil managed {");
    w.open();
    w.line("ldarg.0");
    w.line("call instance void [mscorlib]System.Object::.ctor()");
    w.line("ret");
    w.close("}");
    w.close("}");
    w.line("");
    assert(w.pieces() =~= old(w).pieces() + msil_struct(*s));
}

/// Writes a class with its fields and methods (`msil_class`).
fn compile_class(w: &mut IlWriter, c: &GaiaClass, ft: &FieldTypes, mapper: &FunctionMapper) -> (r: Result<(), GaiaError>)
    requires
        old(w).wf(),
        old(w).depth() + 1 < usize::MAX,
    ensures
        final(w).wf(),
        r is Ok ==> final(w).depth() == old(w).depth(),
        match msil_class(*c, ft.as_map(), mapper.table()) {
            Some(ps) => r is Ok && final(w).pieces() == old(w).pieces() + ps,
            None => r matches Err(GaiaError::Custom { message }) && message@ == "Unsupported constant type for CLR"@,
        },
{
    let mut head = cat(".class public auto ansi beforefieldinit ", c.name.as_str());
    push_str(&mut head, " extends [mscorlib]System.Object {");
    w.line(head.as_str());
    w.open();
    let mut decls: Vec<String> = Vec::new();
    let mut k: usize = 0;
    while k < c.fields.len()
        invariant
            k <= c.fields@.len(),
            decls@.len() == k,
            forall|j: int| 0 <= j < k ==> (#[trigger] decls@[j])@ == field_decl(c.fields@[j].name@, c.fields@[j].ty),
        decreases c.fields.len() - k,
    {
        let mut d = cat(".field public ", gaia_type_to_msil_name(&c.fields[k].ty).as_str());
        push_str(&mut d, " ");
        push_str(&mut d, c.fields[k].name.as_str());
        decls.push(d);
        k = k + 1;
    }
    assert(string_views(decls@) =~= class_field_decls(c.fields@));
    emit_all(w, &decls);
    let ghost mid = w.pieces();
    match compile_functions(w, &c.methods, ft, mapper) {
        Ok(()) => {},
        Err(e) => {
            return Err(e);
        },
    }
    w.close("}");
    w.line("");
    assert(w.pieces() =~= old(w).pieces() + msil_class(*c, ft.as_map(), mapper.table())->Some_0);
    Ok(())
}

proof fn lemma_classes_none(
    cs: Seq<GaiaClass>,
    k: int,
    ft: Map<(Seq<char>, Seq<char>), Seq<char>>,
    tb: MappingTable,
)
    requires
        0 <= k < cs.len(),
        msil_class(cs[k], ft, tb) is None,
    ensures
        msil_classes(cs, ft, tb) is None,
    decreases cs.len(),
{
    if k < cs.len() - 1 {
        assert(cs.drop_last()[k] == cs[k]);
        lemma_classes_none(cs.drop_last(), k, ft, tb);
    }
}

/// Writes classes in order (`msil_classes`).
fn compile_classes(w: &mut IlWriter, cs: &Vec<GaiaClass>, ft: &FieldTypes, mapper: &FunctionMapper) -> (r: Result<
    (),
    GaiaError,
>)
    requires
        old(w).wf(),
        old(w).depth() + 1 < usize::MAX,
    ensures
        final(w).wf(),
        r is Ok ==> final(w).depth() == old(w).depth(),
        match msil_classes(cs@, ft.as_map(), mapper.table()) {
            Some(ps) => r is Ok && final(w).pieces() == old(w).pieces() + ps,
            None => r matches Err(GaiaError::Custom { message }) && message@ == "Unsupported constant type for CLR"@,
        },
{
    let ghost m = ft.as_map();
    let ghost tb = mapper.table();
    let ghost start = w.pieces();
    let mut k: usize = 0;
    assert(cs@.take(0) =~= seq![]);
    assert(start + seq![] =~= start);
    while k < cs.len()
        invariant
            k <= cs@.len(),
            w.wf(),
            w.depth() == old(w).depth(),
            old(w).depth() + 1 < usize::MAX,
            m == ft.as_map(),
            tb == mapper.table(),
            msil_classes(cs@.take(k as int), m, tb) matches Some(acc) && w.pieces() == start + acc,
        decreases cs.len() - k,
    {
        proof {
            assert(cs@.take(k + 1).drop_last() =~= cs@.take(k as int));
        }
        let ghost acc = msil_classes(cs@.take(k as int), m, tb)->Some_0;
        match compile_class(w, &cs[k], ft, mapper) {
            Ok(()) => {},
            Err(e) => {
                proof {
                    assert(msil_class(cs@[k as int], m, tb) is None);
                    lemma_classes_none(cs@, k as int, m, tb);
                }
                return Err(e);
            },
        }
        proof {
            let b2 = msil_class(cs@[k as int], m, tb)->Some_0;
            assert(start + acc + b2 =~= start + (acc + b2));
        }
        k = k + 1;
    }
    assert(cs@.take(k as int) =~= cs@);
    Ok(())
}

/// Writes structures in order (`msil_structs`).
fn compile_structs(w: &mut IlWriter, ss: &Vec<GaiaStruct>)
    requires
        old(w).wf(),
        old(w).depth() + 1 < usize::MAX,
    ensures
        final(w).wf(),
        final(w).depth() == old(w).depth(),
        final(w).pieces() == old(w).pieces() + msil_structs(ss@),
{
    let ghost start = w.pieces();
    let mut k: usize = 0;
    assert(ss@.take(0) =~= seq![]);
    assert(start + seq![] =~= start);
    while k < ss.len()
        invariant
            k <= ss@.len(),
            w.wf(),
            w.depth() == old(w).depth(),
            old(w).depth() + 1 < usize::MAX,
            w.pieces() == start + msil_structs(ss@.take(k as int)),
        decreases ss.len() - k,
    {
        proof {
            assert(ss@.take(k + 1).drop_last() =~= ss@.take(k as int));
        }
        compile_struct(w, &ss[k]);
        proof {
            assert(start + msil_structs(ss@.take(k as int)) + msil_struct(ss@[k as int]) =~= start + (msil_structs(
                ss@.take(k as int),
            ) + msil_struct(ss@[k as int])));
        }
        k = k + 1;
    }
    assert(ss@.take(k as int) =~= ss@);
}

/// The field type names of a module (`msil_field_types`).
pub(crate) fn field_types_of(m: &GaiaModule) -> (r: FieldTypes)
    ensures
        r.as_map() == msil_field_types(*m),
{
    let mut ft = FieldTypes::new();
    let ss = &m.structs;
    let mut i: usize = 0;
    assert(ss@.take(0) =~= seq![]);
    while i < ss.len()
        invariant
            i <= ss@.len(),
            ss == &m.structs,
            ft.as_map() == record_structs(Map::empty(), ss@.take(i as int)),
        decreases ss.len() - i,
    {
        let s = &ss[i];
        let ghost base = ft.as_map();
        proof {
            assert(ss@.take(i + 1).drop_last() =~= ss@.take(i as int));
        }
        let mut j: usize = 0;
        assert(s.fields@.take(0) =~= seq![]);
        while j < s.fields.len()
            invariant
                j <= s.fields@.len(),
                ft.as_map() == record_struct_fields(base, s.name@, s.fields@.take(j as int)),
            decreases s.fields.len() - j,
        {
            proof {
                assert(s.fields@.take(j + 1).drop_last() =~= s.fields@.take(j as int));
            }
            ft.insert(copy_string(&s.name), copy_string(&s.fields[j].0), gaia_type_to_msil_name(&s.fields[j].1));
            j = j + 1;
        }
        assert(s.fields@.take(j as int) =~= s.fields@);
        i = i + 1;
    }
    assert(ss@.take(i as int) =~= ss@);
    let ghost after_structs = ft.as_map();
    let cs = &m.classes;
    let mut i: usize = 0;
    assert(cs@.take(0) =~= seq![]);
    while i < cs.len()
        invariant
            i <= cs@.len(),
            cs == &m.classes,
            ft.as_map() == record_classes(after_structs, cs@.take(i as int)),
        decreases cs.len() - i,
    {
        let c = &cs[i];
        let ghost base = ft.as_map();
        proof {
            assert(cs@.take(i + 1).drop_last() =~= cs@.take(i as int));
        }
        let mut j: usize = 0;
        assert(c.fields@.take(0) =~= seq![]);
        while j < c.fields.len()
            invariant
                j <= c.fields@.len(),
                ft.as_map() == record_class_fields(base, c.name@, c.fields@.take(j as int)),
            decreases c.fields.len() - j,
        {
            proof {
                assert(c.fields@.take(j + 1).drop_last() =~= c.fields@.take(j as int));
            }
            ft.insert(copy_string(&c.name), copy_string(&c.fields[j].name), gaia_type_to_msil_name(&c.fields[j].ty));
            j = j + 1;
        }
        assert(c.fields@.take(j as int) =~= c.fields@);
        i = i + 1;
    }
    assert(cs@.take(i as int) =~= cs@);
    let ghost after_classes = ft.as_map();
    let gs = &m.globals;
    let mut i: usize = 0;
    assert(gs@.take(0) =~= seq![]);
    while i < gs.len()
        invariant
            i <= gs@.len(),
            gs == &m.globals,
            ft.as_map() == record_globals(after_classes, gs@.take(i as int)),
        decreases gs.len() - i,
    {
        proof {
            assert(gs@.take(i + 1).drop_last() =~= gs@.take(i as int));
        }
        ft.insert(owned("Main"), copy_string(&gs[i].name), gaia_type_to_msil_name(&gs[i].ty));
        i = i + 1;
    }
    assert(gs@.take(i as int) =~= gs@);
    ft
}

/// Writes a module (`msil_module`) into an empty writer.
fn compile_program(w: &mut IlWriter, m: &GaiaModule, ft: &FieldTypes, mapper: &FunctionMapper) -> (r: Result<(), GaiaError>)
    requires
        old(w).wf(),
        old(w).pieces() == Seq::<IlPiece>::empty(),
    ensures
        final(w).wf(),
        match msil_module(*m, ft.as_map(), mapper.table()) {
            Some(ps) => r is Ok && final(w).pieces() == ps,
            None => r matches Err(GaiaError::Custom { message }) && message@ == "Unsupported constant type for CLR"@,
        },
{
    let mut heads: Vec<String> = Vec::new();
    let mut a = cat(".assembly ", m.name.as_str());
    push_str(&mut a, " {}");
    heads.push(a);
    let mut k: usize = 0;
    while k < m.imports.len()
        invariant
            k <= m.imports@.len(),
            heads@.len() == k + 1,
            heads@[0]@ == ".assembly "@ + m.name@ + " {}"@,
            forall|j: int|
                0 <= j < k ==> (#[trigger] heads@[j + 1])@ == ".assembly extern "@ + m.imports@[j].library@ + " {}"@,
        decreases m.imports.len() - k,
    {
        let mut e = cat(".assembly extern ", m.imports[k].library.as_str());
        push_str(&mut e, " {}");
        heads.push(e);
        k = k + 1;
    }
    let ghost want = seq![".assembly "@ + m.name@ + " {}"@] + m.imports@.map_values(
        |i: crate::program::GaiaImport| ".assembly extern "@ + i.library@ + " {}"@,
    );
    assert forall|j: int| 0 <= j < heads@.len() implies string_views(heads@)[j] == want[j] by {
        if j > 0 {
            let p = j - 1;
            assert(heads@[p + 1] == heads@[j]);
        }
    }
    assert(string_views(heads@) =~= want);
    emit_all(w, &heads);
    assert(w.depth() == 0);
    compile_structs(w, &m.structs);
    match compile_classes(w, &m.classes, ft, mapper) {
        Ok(()) => {},
        Err(e) => {
            return Err(e);
        },
    }
    match compile_functions(w, &m.functions, ft, mapper) {
        Ok(()) => {},
        Err(e) => {
            return Err(e);
        },
    }
    assert(w.pieces() =~= msil_module(*m, ft.as_map(), mapper.table())->Some_0);
    Ok(())
}

/// Compiles a module to intermediate-language text with a function mapper,
/// as UTF-8 bytes.
fn compile_module(m: &GaiaModule, mapper: &FunctionMapper) -> (r: Result<Vec<u8>, GaiaError>)
    ensures
        msil_output(r, *m, mapper.table()),
{
    let ft = field_types_of(m);
    let mut w = IlWriter::new();
    match compile_program(&mut w, m, &ft, mapper) {
        Ok(()) => {},
        Err(e) => {
            return Err(e);
        },
    }
    Ok(w.text().as_str().as_bytes_vec())
}

impl crate::backends::ClrBackend {
    /// The intermediate-language text of a module, as UTF-8 bytes, with
    /// the function mappings of the default settings.
    pub fn generate(program: &GaiaModule) -> (r: Result<Vec<u8>, GaiaError>)
        ensures
            msil_output(r, *program, crate::adapters::default_mapper_table()),
    {
        let mapper = FunctionMapper::new();
        compile_module(program, &mapper)
    }

    /// The intermediate-language text of a module, as UTF-8 bytes, with
    /// the function mappings of the given settings.
    pub fn generate_with_settings(program: &GaiaModule, settings: &GaiaSettings) -> (r: Result<Vec<u8>, GaiaError>)
        ensures
            msil_output(r, *program, apply_mappings(default_table(), settings.function_mappings@)),
    {
        let mapper = match FunctionMapper::from_config(settings) {
            Ok(m) => m,
            Err(_) => FunctionMapper::new(),
        };
        compile_module(program, &mapper)
    }
}

/// The intermediate-language text of a module (`ClrBackend::generate`).
pub fn compile(program: &GaiaModule) -> (r: Result<Vec<u8>, GaiaError>)
    ensures
        msil_output(r, *program, crate::adapters::default_mapper_table()),
{
    crate::backends::ClrBackend::generate(program)
}

} // verus!
