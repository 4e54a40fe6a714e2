//! Export to .NET IL instructions and an IL listing.
use vstd::prelude::*;
use vstd::string::StrSliceExecFns;
use vstd::utf8::encode_utf8;
use super::{text_view, ExportAdapter};
use crate::error::GaiaError;
use crate::ir::{GaiaConstant, GaiaFunction, GaiaInstruction, GaiaProgram, GaiaType};
use crate::text::{
    copy_string, decimal_text, format_i64, format_u64, join, join_strings, owned, push_char,
    push_str, str_eq, string_views,
};

verus! {

/// Options of the IL export.
#[derive(Debug, Clone)]
pub struct IlExportConfig {
    pub generate_metadata: bool,
    pub optimize_il: bool,
    pub target_framework: String,
    pub generate_debug_info: bool,
}

impl IlExportConfig {
    /// The default options.
    pub open spec fn is_default(&self) -> bool {
        &&& self.generate_metadata
        &&& !self.optimize_il
        &&& self.target_framework@ == "net8.0"@
        &&& !self.generate_debug_info
    }
}

impl Default for IlExportConfig {
    fn default() -> (r: Self)
        ensures
            r.is_default(),
            r.generate_metadata,
            !r.optimize_il,
            r.target_framework@ == "net8.0"@,
            !r.generate_debug_info,
    {
        IlExportConfig {
            generate_metadata: true,
            optimize_il: false,
            target_framework: owned("net8.0"),
            generate_debug_info: false,
        }
    }
}

/// Export adapter to .NET IL.
#[derive(Debug, Clone)]
pub struct IlExportAdapter {
    config: IlExportConfig,
}

/// An IL instruction or directive: opcode text, operand texts, an optional note.
#[derive(Debug, Clone)]
pub struct IlInstruction {
    pub opcode: String,
    pub operands: Vec<String>,
    pub metadata: Option<String>,
}

/// Spec view of an IL instruction.
pub struct IlView {
    pub opcode: Seq<char>,
    pub operands: Seq<Seq<char>>,
    pub metadata: Option<Seq<char>>,
}

impl View for IlInstruction {
    type V = IlView;

    open spec fn view(&self) -> IlView {
        IlView {
            opcode: self.opcode@,
            operands: string_views(self.operands@),
            metadata: text_view(self.metadata),
        }
    }
}

pub open spec fn il(opcode: Seq<char>, operands: Seq<Seq<char>>) -> IlView {
    IlView { opcode, operands, metadata: None }
}

pub open spec fn il_noted(opcode: Seq<char>, operands: Seq<Seq<char>>, note: Seq<char>) -> IlView {
    IlView { opcode, operands, metadata: Some(note) }
}

/// Short form `<base>.<n>` for slots 0 to 3, else `<base>` with the slot number.
pub open spec fn il_slot(base: Seq<char>, index: u32) -> IlView {
    if index < 4 {
        il(base + "."@ + decimal_text(index as int), Seq::empty())
    } else {
        il(base, seq![decimal_text(index as int)])
    }
}

/// The IL instruction that each flat instruction becomes.
pub open spec fn il_export_view(i: GaiaInstruction) -> IlView {
    match i {
        GaiaInstruction::LoadConstant(c) => match c {
            GaiaConstant::Integer8(v) => il("ldc.i4"@, seq![decimal_text(v as int)]),
            GaiaConstant::Integer16(v) => il("ldc.i4"@, seq![decimal_text(v as int)]),
            GaiaConstant::Integer32(v) => il("ldc.i4"@, seq![decimal_text(v as int)]),
            GaiaConstant::Integer64(v) => il("ldc.i8"@, seq![decimal_text(v as int)]),
            GaiaConstant::Float32 { text, .. } => il("ldc.r4"@, seq![text@]),
            GaiaConstant::Float64 { text, .. } => il("ldc.r8"@, seq![text@]),
            GaiaConstant::String(s) => il("ldstr"@, seq!["\""@ + s@ + "\""@]),
            GaiaConstant::Boolean(b) => il(
                "ldc.i4"@,
                seq![
                    if b {
                        "1"@
                    } else {
                        "0"@
                    },
                ],
            ),
            GaiaConstant::Null => il("ldnull"@, Seq::empty()),
        },
        GaiaInstruction::LoadLocal(index) => il_slot("ldloc"@, index),
        GaiaInstruction::StoreLocal(index) => il_slot("stloc"@, index),
        GaiaInstruction::LoadArgument(index) => il_slot("ldarg"@, index),
        GaiaInstruction::StoreArgument(index) => il("starg"@, seq![decimal_text(index as int)]),
        GaiaInstruction::Call(name) => il("call"@, seq![name@]),
        GaiaInstruction::Return => il("ret"@, Seq::empty()),
        GaiaInstruction::Add => il("add"@, Seq::empty()),
        GaiaInstruction::Subtract => il("sub"@, Seq::empty()),
        GaiaInstruction::Multiply => il("mul"@, Seq::empty()),
        GaiaInstruction::Divide => il("div"@, Seq::empty()),
        GaiaInstruction::Duplicate => il("dup"@, Seq::empty()),
        GaiaInstruction::Pop => il("pop"@, Seq::empty()),
        GaiaInstruction::Comment(_) => il("nop"@, Seq::empty()),
    }
}

/// The IL name of a flat type.
pub open spec fn il_type_name(t: GaiaType) -> Seq<char>
    decreases t,
{
    match t {
        GaiaType::Integer8 => "int8"@,
        GaiaType::Integer16 => "int16"@,
        GaiaType::Integer32 => "int32"@,
        GaiaType::Integer64 => "int64"@,
        GaiaType::Float32 => "float32"@,
        GaiaType::Float64 => "float64"@,
        GaiaType::String => "string"@,
        GaiaType::Boolean => "bool"@,
        GaiaType::Object => "object"@,
        GaiaType::Pointer => "native int"@,
        GaiaType::Array(inner) => il_type_name(*inner) + "[]"@,
        GaiaType::Custom(name) => name@,
    }
}

/// `[i] <type>` for each local.
pub open spec fn il_local_entries(locals: Seq<GaiaType>) -> Seq<Seq<char>> {
    Seq::new(
        locals.len(),
        |i: int| "["@ + decimal_text(i) + "] "@ + il_type_name(locals[i]),
    )
}

/// The `.locals` directive of a function with locals.
pub open spec fn il_locals_view(locals: Seq<GaiaType>) -> IlView {
    il(".locals"@, seq!["init ("@ + join(il_local_entries(locals), ", "@) + ")"@])
}

pub open spec fn il_export_views(s: Seq<GaiaInstruction>) -> Seq<IlView> {
    s.map_values(|i: GaiaInstruction| il_export_view(i))
}

/// A function as IL: its declaration, braces, locals, and body.
pub open spec fn il_function_views(f: GaiaFunction) -> Seq<IlView> {
    seq![
        il_noted(".method"@, seq!["public"@, "static"@, "void"@, f.name@], "method declaration"@),
        il("{"@, Seq::empty()),
    ] + (if f.locals@.len() > 0 {
        seq![il_locals_view(f.locals@)]
    } else {
        Seq::empty()
    }) + il_export_views(f.instructions@) + seq![il("}"@, Seq::empty())]
}

pub open spec fn il_functions_views(fs: Seq<GaiaFunction>) -> Seq<IlView>
    decreases fs.len(),
{
    if fs.len() == 0 {
        Seq::empty()
    } else {
        il_functions_views(fs.drop_last()) + il_function_views(fs.last())
    }
}

/// A program as IL: the assembly declaration, its version, then each function.
pub open spec fn il_program_views(name: Seq<char>, fs: Seq<GaiaFunction>) -> Seq<IlView> {
    seq![
        il_noted(".assembly"@, seq![name], "assembly declaration"@),
        il(".ver"@, seq!["1:0:0:0"@]),
    ] + il_functions_views(fs)
}

pub open spec fn il_views(s: Seq<IlInstruction>) -> Seq<IlView> {
    s.map_values(|i: IlInstruction| i@)
}

/// Directives and braces start at the line's beginning; instructions are indented.
pub open spec fn il_is_directive(opcode: Seq<char>) -> bool {
    (opcode.len() > 0 && opcode[0] == '.') || opcode == "{"@ || opcode == "}"@
}

/// One line of the listing.
pub open spec fn il_line(v: IlView) -> Seq<char> {
    let head = if il_is_directive(v.opcode) {
        v.opcode
    } else {
        "    "@ + v.opcode
    };
    let tail = if v.operands.len() == 0 {
        Seq::empty()
    } else {
        " "@ + join(v.operands, " "@)
    };
    head + tail + "\n"@
}

/// The listing of instructions, one line each.
pub open spec fn il_listing(s: Seq<IlView>) -> Seq<char>
    decreases s.len(),
{
    if s.len() == 0 {
        Seq::empty()
    } else {
        il_listing(s.drop_last()) + il_line(s.last())
    }
}

fn instr(opcode: &str, operands: Vec<String>) -> (r: IlInstruction)
    ensures
        r@ == il(opcode@, string_views(operands@)),
{
    IlInstruction { opcode: owned(opcode), operands, metadata: None }
}

fn none() -> (r: Vec<String>)
    ensures
        string_views(r@) == Seq::<Seq<char>>::empty(),
{
    let v: Vec<String> = Vec::new();
    assert(string_views(v@) =~= Seq::<Seq<char>>::empty());
    v
}

fn one(s: String) -> (r: Vec<String>)
    ensures
        string_views(r@) == seq![s@],
{
    let v: Vec<String> = vec![s];
    assert(string_views(v@) =~= seq![s@]);
    v
}

fn slot(base: &str, index: u32) -> (r: IlInstruction)
    ensures
        r@ == il_slot(base@, index),
{
    let digits = format_u64(index as u64);
    if index < 4 {
        let mut op = owned(base);
        push_char(&mut op, '.');
        push_str(&mut op, digits.as_str());
        proof {
            reveal_strlit(".");
            assert(op@ =~= base@ + "."@ + decimal_text(index as int));
        }
        IlInstruction { opcode: op, operands: none(), metadata: None }
    } else {
        IlInstruction { opcode: owned(base), operands: one(digits), metadata: None }
    }
}

/// The IL name of a flat type.
pub fn gaia_type_to_il_type(gaia_type: &GaiaType) -> (r: String)
    ensures
        r@ == il_type_name(*gaia_type),
    decreases gaia_type,
{
    match gaia_type {
        GaiaType::Integer8 => owned("int8"),
        GaiaType::Integer16 => owned("int16"),
        GaiaType::Integer32 => owned("int32"),
        GaiaType::Integer64 => owned("int64"),
        GaiaType::Float32 => owned("float32"),
        GaiaType::Float64 => owned("float64"),
        GaiaType::String => owned("string"),
        GaiaType::Boolean => owned("bool"),
        GaiaType::Object => owned("object"),
        GaiaType::Pointer => owned("native int"),
        GaiaType::Array(inner) => {
            let mut s = gaia_type_to_il_type(inner);
            push_str(&mut s, "[]");
            s
        },
        GaiaType::Custom(name) => copy_string(name),
    }
}

fn locals_instruction(locals: &Vec<GaiaType>) -> (r: IlInstruction)
    ensures
        r@ == il_locals_view(locals@),
{
    let mut entries: Vec<String> = Vec::new();
    let mut i: usize = 0;
    while i < locals.len()
        invariant
            i <= locals.len(),
            string_views(entries@) == il_local_entries(locals@).take(i as int),
        decreases locals.len() - i,
    {
        let mut e = owned("[");
        let digits = format_u64(i as u64);
        push_str(&mut e, digits.as_str());
        push_str(&mut e, "] ");
        let t = gaia_type_to_il_type(&locals[i]);
        push_str(&mut e, t.as_str());
        let ghost before = entries@;
        entries.push(e);
        proof {
            assert(string_views(entries@) =~= string_views(before).push(e@));
        }
        i = i + 1;
        assert(string_views(entries@) =~= il_local_entries(locals@).take(i as int));
    }
    assert(il_local_entries(locals@).take(i as int) =~= il_local_entries(locals@));
    let joined = join_strings(&entries, ", ");
    let mut text = owned("init (");
    push_str(&mut text, joined.as_str());
    push_str(&mut text, ")");
    instr(".locals", one(text))
}

impl IlExportAdapter {
    /// An adapter with the default options.
    pub fn new() -> (r: Self)
        ensures
            r.config().is_default(),
            r.config().target_framework@ == "net8.0"@,
    {
        IlExportAdapter { config: IlExportConfig::default() }
    }

    /// An adapter with the given options.
    pub fn with_config(config: IlExportConfig) -> (r: Self)
        ensures
            r.config() == config,
    {
        IlExportAdapter { config }
    }

    pub closed spec fn config(&self) -> IlExportConfig {
        self.config
    }

    /// Sets the .NET framework to target.
    pub fn set_target_framework(&mut self, framework: String)
        ensures
            final(self).config() == (IlExportConfig {
                target_framework: framework,
                ..old(self).config()
            }),
    {
        self.config.target_framework = framework;
    }
}

impl Default for IlExportAdapter {
    fn default() -> (r: Self)
        ensures
            r.config().target_framework@ == "net8.0"@,
    {
        Self::new()
    }
}

impl ExportAdapter<IlInstruction> for IlExportAdapter {
    fn export_instruction(&self, gaia_instruction: &GaiaInstruction) -> (r: Result<
        IlInstruction,
        GaiaError,
    >)
        ensures
            r matches Ok(x) && x@ == il_export_view(*gaia_instruction),
    {
        match gaia_instruction {
            GaiaInstruction::LoadConstant(constant) => match constant {
                GaiaConstant::Integer8(value) => Ok(
                    instr("ldc.i4", one(format_i64(*value as i64))),
                ),
                GaiaConstant::Integer16(value) => Ok(
                    instr("ldc.i4", one(format_i64(*value as i64))),
                ),
                GaiaConstant::Integer32(value) => Ok(
                    instr("ldc.i4", one(format_i64(*value as i64))),
                ),
                GaiaConstant::Integer64(value) => Ok(instr("ldc.i8", one(format_i64(*value)))),
                GaiaConstant::Float32 { text, .. } => Ok(instr("ldc.r4", one(copy_string(text)))),
                GaiaConstant::Float64 { text, .. } => Ok(instr("ldc.r8", one(copy_string(text)))),
                GaiaConstant::String(value) => {
                    let mut quoted = owned("\"");
                    push_str(&mut quoted, value.as_str());
                    push_str(&mut quoted, "\"");
                    Ok(instr("ldstr", one(quoted)))
                },
                GaiaConstant::Boolean(value) => Ok(
                    instr(
                        "ldc.i4",
                        one(
                            if *value {
                                owned("1")
                            } else {
                                owned("0")
                            },
                        ),
                    ),
                ),
                GaiaConstant::Null => Ok(instr("ldnull", none())),
            },
            GaiaInstruction::LoadLocal(index) => Ok(slot("ldloc", *index)),
            GaiaInstruction::StoreLocal(index) => Ok(slot("stloc", *index)),
            GaiaInstruction::LoadArgument(index) => Ok(slot("ldarg", *index)),
            GaiaInstruction::StoreArgument(index) => Ok(
                instr("starg", one(format_u64(*index as u64))),
            ),
            GaiaInstruction::Call(function_name) => Ok(
                instr("call", one(copy_string(function_name))),
            ),
            GaiaInstruction::Return => Ok(instr("ret", none())),
            GaiaInstruction::Add => Ok(instr("add", none())),
            GaiaInstruction::Subtract => Ok(instr("sub", none())),
            GaiaInstruction::Multiply => Ok(instr("mul", none())),
            GaiaInstruction::Divide => Ok(instr("div", none())),
            GaiaInstruction::Duplicate => Ok(instr("dup", none())),
            GaiaInstruction::Pop => Ok(instr("pop", none())),
            GaiaInstruction::Comment(_) => Ok(instr("nop", none())),
        }
    }

    fn export_program(&self, gaia_program: &GaiaProgram) -> (r: Result<
        Vec<IlInstruction>,
        GaiaError,
    >)
        ensures
            r matches Ok(v) && il_views(v@) == il_program_views(
                gaia_program.name@,
                gaia_program.functions@,
            ),
    {
        let mut out: Vec<IlInstruction> = Vec::new();
        out.push(
            IlInstruction {
                opcode: owned(".assembly"),
                operands: one(copy_string(&gaia_program.name)),
                metadata: Some(owned("assembly declaration")),
            },
        );
        out.push(instr(".ver", one(owned("1:0:0:0"))));
        let fs = &gaia_program.functions;
        assert(il_views(out@) =~= il_program_views(gaia_program.name@, fs@.take(0)));
        let mut i: usize = 0;
        while i < fs.len()
            invariant
                i <= fs.len(),
                il_views(out@) == il_program_views(gaia_program.name@, fs@.take(i as int)),
            decreases fs.len() - i,
        {
            let f = &fs[i];
            let ghost start = il_views(out@);
            let mut decl_ops: Vec<String> = Vec::new();
            decl_ops.push(owned("public"));
            decl_ops.push(owned("static"));
            decl_ops.push(owned("void"));
            decl_ops.push(copy_string(&f.name));
            assert(string_views(decl_ops@) =~= seq!["public"@, "static"@, "void"@, f.name@]);
            out.push(
                IlInstruction {
                    opcode: owned(".method"),
                    operands: decl_ops,
                    metadata: Some(owned("method declaration")),
                },
            );
            out.push(instr("{", none()));
            if f.locals.len() > 0 {
                out.push(locals_instruction(&f.locals));
            }
            let ghost head = il_views(out@);
            assert(head =~= start + (seq![
                il_noted(".method"@, seq!["public"@, "static"@, "void"@, f.name@], "method declaration"@),
                il("{"@, Seq::empty()),
            ] + (if f.locals@.len() > 0 {
                seq![il_locals_view(f.locals@)]
            } else {
                Seq::empty()
            })));
            let instrs = &f.instructions;
            let mut j: usize = 0;
            while j < instrs.len()
                invariant
                    i < fs.len(),
                    f == &fs@[i as int],
                    instrs == f.instructions,
                    j <= instrs.len(),
                    il_views(out@) == head + il_export_views(instrs@.take(j as int)),
                decreases instrs.len() - j,
            {
                let r = self.export_instruction(&instrs[j]);
                match r {
                    Ok(x) => {
                        let ghost before = out@;
                        out.push(x);
                        proof {
                            assert(il_views(out@) =~= il_views(before).push(x@));
                            assert(instrs@.take(j + 1) =~= instrs@.take(j as int).push(
                                instrs@[j as int],
                            ));
                            assert(il_export_views(instrs@.take(j + 1)) =~= il_export_views(
                                instrs@.take(j as int),
                            ).push(il_export_view(instrs@[j as int])));
                        }
                        j = j + 1;
                    },
                    Err(e) => {
                        return Err(e);
                    },
                }
            }
            let ghost before_close = out@;
            out.push(instr("}", none()));
            proof {
                assert(instrs@.take(j as int) =~= instrs@);
                assert(il_views(out@) =~= il_views(before_close).push(il("}"@, Seq::empty())));
                assert(fs@.take(i + 1).drop_last() =~= fs@.take(i as int));
                assert(il_views(out@) =~= start + il_function_views(fs@[i as int]));
            }
            i = i + 1;
            assert(il_views(out@) =~= il_program_views(gaia_program.name@, fs@.take(i as int)));
        }
        assert(fs@.take(i as int) =~= fs@);
        Ok(out)
    }

    fn adapter_name(&self) -> (r: &'static str)
        ensures
            r@ == "IL Export Adapter"@,
    {
        "IL Export Adapter"
    }

    fn generate_binary(&self, il_instructions: &[IlInstruction]) -> (r: Result<
        Vec<u8>,
        GaiaError,
    >)
        ensures
            r matches Ok(b) && b@ == encode_utf8(il_listing(il_views(il_instructions@))),
    {
        let ghost views = il_views(il_instructions@);
        let mut text = String::new();
        let mut k: usize = 0;
        while k < il_instructions.len()
            invariant
                k <= il_instructions@.len(),
                views == il_views(il_instructions@),
                text@ == il_listing(views.take(k as int)),
            decreases il_instructions@.len() - k,
        {
            let ins = &il_instructions[k];
            let ghost before = text@;
            let dot = ins.opcode.as_str().unicode_len() > 0 && ins.opcode.as_str().get_char(0)
                == '.';
            if dot || str_eq(ins.opcode.as_str(), "{") || str_eq(ins.opcode.as_str(), "}") {
                push_str(&mut text, ins.opcode.as_str());
            } else {
                push_str(&mut text, "    ");
                push_str(&mut text, ins.opcode.as_str());
            }
            if ins.operands.len() > 0 {
                push_char(&mut text, ' ');
                let joined = join_strings(&ins.operands, " ");
                push_str(&mut text, joined.as_str());
            }
            push_char(&mut text, '\n');
            proof {
                reveal_strlit(" ");
                reveal_strlit("\n");
                assert(views[k as int] == ins@);
                assert(text@ =~= before + il_line(ins@));
                assert(views.take(k + 1).drop_last() =~= views.take(k as int));
            }
            k = k + 1;
        }
        assert(views.take(k as int) =~= views);
        let bytes = text.as_str().as_bytes_vec();
        Ok(bytes)
    }
}

} // verus!
