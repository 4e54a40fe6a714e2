use gaia_assembler::backends::msil::compile;
use gaia_assembler::backends::ClrBackend;
use gaia_assembler::config::GaiaSettings;
use gaia_assembler::error::GaiaError;
use gaia_assembler::instruction::{CmpCondition, CoreInstruction, GaiaInstruction};
use gaia_assembler::program::{
    GaiaBlock, GaiaClass, GaiaConstant, GaiaField, GaiaFunction, GaiaGlobal, GaiaImport, GaiaModule, GaiaStruct,
    GaiaTerminator, Visibility,
};
use gaia_assembler::types::{GaiaSignature, GaiaType};

fn core_instr(c: CoreInstruction) -> GaiaInstruction {
    GaiaInstruction::Core(c)
}

fn function(name: &str, params: Vec<GaiaType>, ret: GaiaType, blocks: Vec<GaiaBlock>) -> GaiaFunction {
    GaiaFunction {
        name: name.to_string(),
        signature: GaiaSignature { params, return_type: ret },
        blocks,
        is_external: false,
    }
}

fn block(label: &str, instructions: Vec<GaiaInstruction>, terminator: GaiaTerminator) -> GaiaBlock {
    GaiaBlock { label: label.to_string(), instructions, terminator }
}

fn module(functions: Vec<GaiaFunction>) -> GaiaModule {
    GaiaModule {
        name: "Demo".to_string(),
        functions,
        structs: vec![],
        classes: vec![],
        constants: vec![],
        globals: vec![],
        imports: vec![],
    }
}

fn listing(ls: &[&str]) -> String {
    let mut s = String::new();
    for l in ls {
        s.push_str(l);
        s.push('\n');
    }
    s
}

fn text(r: Result<Vec<u8>, GaiaError>) -> String {
    String::from_utf8(r.unwrap()).unwrap()
}

#[test]
fn msil_entry_point() {
    let m = module(vec![function(
        "main",
        vec![],
        GaiaType::I32,
        vec![block("entry", vec![core_instr(CoreInstruction::PushConstant(GaiaConstant::I32(42)))], GaiaTerminator::Return)],
    )]);
    let expected = listing(&[
        ".assembly Demo {}",
        ".method public hidebysig int32 main() cil managed {",
        "    .entrypoint",
        "    .maxstack 8",
        "    entry:",
        "    ldc.i4 42",
        "    ret",
        "}",
        "",
    ]);
    assert_eq!(text(ClrBackend::generate(&m)), expected);
    assert_eq!(text(compile(&m)), expected);
}

#[test]
fn msil_comparisons_constants_and_calls() {
    let m = module(vec![function(
        "f",
        vec![GaiaType::I32, GaiaType::String],
        GaiaType::Void,
        vec![block(
            "b0",
            vec![
                core_instr(CoreInstruction::PushConstant(GaiaConstant::U32(4294967295))),
                core_instr(CoreInstruction::PushConstant(GaiaConstant::Bool(true))),
                core_instr(CoreInstruction::Cmp(CmpCondition::Le, GaiaType::I32)),
                core_instr(CoreInstruction::PushConstant(GaiaConstant::String("hi".to_string()))),
                core_instr(CoreInstruction::Call("print".to_string(), 1)),
                core_instr(CoreInstruction::Call("__builtin_print".to_string(), 1)),
                core_instr(CoreInstruction::Call("helper".to_string(), 0)),
                core_instr(CoreInstruction::Load(GaiaType::I16)),
                core_instr(CoreInstruction::Store(GaiaType::Object)),
                core_instr(CoreInstruction::LoadLocal(3, GaiaType::I32)),
                core_instr(CoreInstruction::Rem(GaiaType::I32)),
            ],
            GaiaTerminator::Branch { true_label: "t".to_string(), false_label: "e".to_string() },
        )],
    )]);
    let expected = listing(&[
        ".assembly Demo {}",
        ".method public hidebysig void f(int32, string) cil managed {",
        "    .maxstack 8",
        "    b0:",
        "    ldc.i4 -1",
        "    ldc.i4 1",
        "    cgt",
        "    ldc.i4 0",
        "    ceq",
        "    ldstr \"hi\"",
        "    call void [mscorlib]System.Console::WriteLine(string)",
        "    call void [mscorlib]System.Console::WriteLine(string)",
        "    call helper",
        "    ldind.i4",
        "    stind.ref",
        "    ldloc 3",
        "    brtrue t",
        "    br e",
        "}",
        "",
    ]);
    assert_eq!(text(ClrBackend::generate_with_settings(&m, &GaiaSettings::default())), expected);
}

#[test]
fn msil_structs_classes_and_fields() {
    let mut m = module(vec![function(
        "main",
        vec![],
        GaiaType::Void,
        vec![block(
            "entry",
            vec![
                core_instr(CoreInstruction::New("Point".to_string())),
                core_instr(CoreInstruction::LoadField("Point".to_string(), "x".to_string())),
                core_instr(CoreInstruction::StoreField("Main".to_string(), "count".to_string())),
                core_instr(CoreInstruction::LoadField("Other".to_string(), "y".to_string())),
                core_instr(CoreInstruction::NewArray(GaiaType::Array(Box::new(GaiaType::F64), 2), true)),
            ],
            GaiaTerminator::Halt,
        )],
    )]);
    m.imports = vec![GaiaImport { library: "System.Runtime".to_string(), symbol: "x".to_string() }];
    m.structs = vec![GaiaStruct { name: "Point".to_string(), fields: vec![("x".to_string(), GaiaType::I64)] }];
    m.classes = vec![GaiaClass {
        name: "Box".to_string(),
        parent: None,
        interfaces: vec![],
        fields: vec![GaiaField {
            name: "v".to_string(),
            ty: GaiaType::Bool,
            is_static: false,
            visibility: Visibility::Public,
        }],
        methods: vec![function("get", vec![], GaiaType::Bool, vec![block("e", vec![], GaiaTerminator::Return)])],
        attributes: vec![],
    }];
    m.globals = vec![GaiaGlobal { name: "count".to_string(), ty: GaiaType::U16, initial_value: None }];
    let expected = listing(&[
        ".assembly Demo {}",
        ".assembly extern System.Runtime {}",
        ".class public auto ansi beforefieldinit Point extends [mscorlib]System.Object {",
        "    .field public int64 x",
        "    .method public hidebysig specialname rtspecialname instance void .ctor() cil managed {",
        "        ldarg.0",
        "        call instance void [mscorlib]System.Object::.ctor()",
        "        ret",
        "    }",
        "}",
        "",
        ".class public auto ansi beforefieldinit Box extends [mscorlib]System.Object {",
        "    .field public bool v",
        "    .method public hidebysig bool get() cil managed {",
        "        .maxstack 8",
        "        e:",
        "        ret",
        "    }",
        "    ",
        "}",
        "",
        ".method public hidebysig void main() cil managed {",
        "    .entrypoint",
        "    .maxstack 8",
        "    entry:",
        "    newobj instance void Point::.ctor()",
        "    ldfld int64 Point::x",
        "    stfld uint16 Main::count",
        "    ldfld object Other::y",
        "    newarr float64[]",
        "    ldc.i4 0",
        "    call ExitProcess",
        "}",
        "",
    ]);
    assert_eq!(text(ClrBackend::generate(&m)), expected);
}

#[test]
fn msil_unsupported_constant() {
    let m = module(vec![function(
        "main",
        vec![],
        GaiaType::Void,
        vec![block(
            "entry",
            vec![core_instr(CoreInstruction::PushConstant(GaiaConstant::Blob(vec![1, 2])))],
            GaiaTerminator::Return,
        )],
    )]);
    match ClrBackend::generate(&m) {
        Err(GaiaError::Custom { message }) => assert_eq!(message, "Unsupported constant type for CLR"),
        _ => panic!("expected an error"),
    }
}

#[test]
fn pe_image_of_module() {
    let m = module(vec![function("main", vec![], GaiaType::Void, vec![block("entry", vec![], GaiaTerminator::Return)])]);
    let image = gaia_assembler::backends::pe::compile(&m).unwrap();
    assert_eq!(image.len(), 1024);
    assert_eq!(&image[0..2], b"MZ");
    assert_eq!(&image[0x80..0x84], b"PE\0\0");
    let text = "// IL Code for Demo\n.assembly Demo {}\n.method public hidebysig void main() cil managed {\n";
    assert_eq!(&image[0x84 + 24..0x84 + 24 + text.len()], text.as_bytes());
    assert_eq!(gaia_assembler::backends::PEBackend::compile(&m).unwrap(), image);
}
