use gaia_assembler::backends::jvm::{
    build_method_descriptor, convert_gaia_function_to_jvm, convert_gaia_instruction_to_jvm,
    convert_gaia_to_jvm, convert_gaia_type_to_jvm_descriptor, FieldTypes, JvmContext, JvmInstruction,
};
use gaia_assembler::backends::pe::{create_minimal_dotnet_pe, generate_dotnet_pe_file};
use gaia_assembler::backends::{ClrArtifact, ClrBackend, ElfBackend, JvmBackend, PEBackend, SpirvBackend, WasiBackend, X86Backend};
use gaia_assembler::adapters::FunctionMapper;
use gaia_assembler::config::GaiaConfig;
use gaia_assembler::error::GaiaError;
use gaia_assembler::instruction::{CoreInstruction, GaiaInstruction};
use gaia_assembler::program::{
    GaiaBlock, GaiaClass, GaiaConstant, GaiaField, GaiaFunction, GaiaGlobal, GaiaModule, GaiaTerminator, Visibility,
};
use gaia_assembler::target::{AbiCompatible, ApiCompatible, Architecture, CompilationTarget};
use gaia_assembler::types::{GaiaSignature, GaiaType};

fn ctx() -> JvmContext {
    JvmContext { function_mapper: FunctionMapper::new(), field_types: FieldTypes::new() }
}

fn core_instr(c: CoreInstruction) -> GaiaInstruction {
    GaiaInstruction::Core(c)
}

fn lower_one(c: CoreInstruction) -> Vec<JvmInstruction> {
    convert_gaia_instruction_to_jvm(&core_instr(c), &ctx()).unwrap()
}

#[test]
fn test_backend_creation() {
    let jvm_backend = JvmBackend::default();
    let msil_backend = ClrBackend::default();
    let wasi_backend = WasiBackend::default();
    assert_eq!(jvm_backend.name(), "JVM");
    assert_eq!(msil_backend.name(), "MSIL");
    assert_eq!(PEBackend::name(), "PE");
    assert_eq!(wasi_backend.name(), "WASI");
}

#[test]
fn backend_scores() {
    let x64_pe = CompilationTarget { build: Architecture::X86_64, host: AbiCompatible::PE, target: ApiCompatible::MicrosoftVisualC };
    let x64_pe_linux = CompilationTarget { build: Architecture::X86_64, host: AbiCompatible::PE, target: ApiCompatible::Linux };
    let jvm = CompilationTarget { build: Architecture::JVM, host: AbiCompatible::Unknown, target: ApiCompatible::JvmRuntime(8) };
    let jasm = CompilationTarget { build: Architecture::JVM, host: AbiCompatible::JavaAssembly, target: ApiCompatible::JvmRuntime(8) };
    let wasm = CompilationTarget { build: Architecture::WASM32, host: AbiCompatible::Unknown, target: ApiCompatible::WASI };
    let spirv = CompilationTarget { build: Architecture::Unknown, host: AbiCompatible::SPIRV, target: ApiCompatible::Unknown };
    assert_eq!(X86Backend::default().match_score(&x64_pe), 100);
    assert_eq!(X86Backend::default().match_score(&x64_pe_linux), 80);
    assert_eq!(X86Backend::default().match_score(&jvm), 0);
    assert_eq!(JvmBackend::default().match_score(&jvm), 80);
    assert_eq!(JvmBackend::default().match_score(&jasm), 5);
    assert_eq!(JvmBackend::default().match_score(&x64_pe), 0);
    assert_eq!(WasiBackend::default().match_score(&wasm), 5);
    assert_eq!(ClrBackend::default().match_score(&jvm), 0);
    assert_eq!(SpirvBackend::default().match_score(&spirv), 95);
    assert_eq!(ElfBackend::default().match_score(&spirv), 0);
    assert_eq!(ElfBackend::default().name(), "ELF");
}

#[test]
fn jvm_descriptors() {
    assert_eq!(convert_gaia_type_to_jvm_descriptor(&GaiaType::Bool), "Z");
    assert_eq!(convert_gaia_type_to_jvm_descriptor(&GaiaType::U16), "S");
    assert_eq!(convert_gaia_type_to_jvm_descriptor(&GaiaType::F16), "F");
    assert_eq!(convert_gaia_type_to_jvm_descriptor(&GaiaType::Class("java.util.List".to_string())), "Ljava/util/List;");
    assert_eq!(
        convert_gaia_type_to_jvm_descriptor(&GaiaType::Array(Box::new(GaiaType::Array(Box::new(GaiaType::I64), 2)), 3)),
        "[[J"
    );
    assert_eq!(convert_gaia_type_to_jvm_descriptor(&GaiaType::Any), "Ljava/lang/Object;");
    let params = vec![GaiaType::I32, GaiaType::String];
    assert_eq!(build_method_descriptor(&params, &Some(GaiaType::Void)), "(ILjava/lang/String;)V");
    assert_eq!(build_method_descriptor(&[], &None), "()V");
}

#[test]
fn jvm_integer_constants() {
    assert!(matches!(lower_one(CoreInstruction::PushConstant(GaiaConstant::I32(0)))[..], [JvmInstruction::Iconst0]));
    assert!(matches!(lower_one(CoreInstruction::PushConstant(GaiaConstant::I32(-1)))[..], [JvmInstruction::IconstM1]));
    assert!(matches!(lower_one(CoreInstruction::PushConstant(GaiaConstant::I32(100)))[..], [JvmInstruction::Bipush { value: 100 }]));
    assert!(matches!(lower_one(CoreInstruction::PushConstant(GaiaConstant::I32(-300)))[..], [JvmInstruction::Sipush { value: -300 }]));
    match &lower_one(CoreInstruction::PushConstant(GaiaConstant::I32(70000)))[..] {
        [JvmInstruction::Ldc { symbol }] => assert_eq!(symbol, "70000"),
        _ => panic!("expected ldc"),
    }
    assert!(matches!(lower_one(CoreInstruction::PushConstant(GaiaConstant::U8(200)))[..], [JvmInstruction::Bipush { value: -56 }]));
    match &lower_one(CoreInstruction::PushConstant(GaiaConstant::I64(-5)))[..] {
        [JvmInstruction::Ldc2W { symbol }] => assert_eq!(symbol, "-5"),
        _ => panic!("expected ldc2_w"),
    }
}

#[test]
fn jvm_float_constants() {
    let zero = GaiaConstant::F32 { bits: 0x8000_0000, text: "-0".to_string() };
    assert!(matches!(lower_one(CoreInstruction::PushConstant(zero))[..], [JvmInstruction::Fconst0]));
    let two = GaiaConstant::F32 { bits: 0x4000_0000, text: "2".to_string() };
    assert!(matches!(lower_one(CoreInstruction::PushConstant(two))[..], [JvmInstruction::Fconst2]));
    let half = GaiaConstant::F64 { bits: 0x3fe0_0000_0000_0000, text: "0.5".to_string() };
    match &lower_one(CoreInstruction::PushConstant(half))[..] {
        [JvmInstruction::Ldc2W { symbol }] => assert_eq!(symbol, "0.5"),
        _ => panic!("expected ldc2_w"),
    }
}

#[test]
fn jvm_unsupported_and_missing() {
    match convert_gaia_instruction_to_jvm(&core_instr(CoreInstruction::PushConstant(GaiaConstant::Blob(vec![1]))), &ctx()) {
        Err(GaiaError::Custom { message }) => assert_eq!(message, "Unsupported constant type for JVM"),
        _ => panic!("expected an unsupported constant"),
    }
    match convert_gaia_instruction_to_jvm(&core_instr(CoreInstruction::Load(GaiaType::I32)), &ctx()) {
        Err(GaiaError::NotImplemented { feature }) => assert_eq!(feature, "JVM indirect load"),
        _ => panic!("expected not implemented"),
    }
    assert!(lower_one(CoreInstruction::Rem(GaiaType::I32)).is_empty());
}

#[test]
fn jvm_slots_elements_objects() {
    assert!(matches!(lower_one(CoreInstruction::LoadLocal(3, GaiaType::I64))[..], [JvmInstruction::Lload { index: 3 }]));
    assert!(matches!(lower_one(CoreInstruction::StoreArg(70000, GaiaType::Bool))[..], [JvmInstruction::Istore { index: 4464 }]));
    assert!(matches!(lower_one(CoreInstruction::StoreLocal(1, GaiaType::String))[..], [JvmInstruction::Astore { index: 1 }]));
    assert!(matches!(lower_one(CoreInstruction::LoadElement(GaiaType::U8))[..], [JvmInstruction::Baload]));
    assert!(matches!(lower_one(CoreInstruction::NewArray(GaiaType::Bool, false))[..], [JvmInstruction::Newarray { atype: 4 }]));
    match &lower_one(CoreInstruction::New("a.b.C".to_string()))[..] {
        [JvmInstruction::New { class_name }, JvmInstruction::Dup, JvmInstruction::Invokespecial { class_name: c2, method_name, descriptor }] => {
            assert_eq!(class_name, "a/b/C");
            assert_eq!(c2, "a/b/C");
            assert_eq!(method_name, "<init>");
            assert_eq!(descriptor, "()V");
        }
        _ => panic!("expected new, dup, invokespecial"),
    }
    match &lower_one(CoreInstruction::LoadField("p.Q".to_string(), "f".to_string()))[..] {
        [JvmInstruction::Getfield { class_name, field_name, descriptor }] => {
            assert_eq!(class_name, "p/Q");
            assert_eq!(field_name, "f");
            assert_eq!(descriptor, "Ljava/lang/Object;");
        }
        _ => panic!("expected getfield"),
    }
}

#[test]
fn jvm_calls_use_the_mapper() {
    match &lower_one(CoreInstruction::Call("print".to_string(), 2))[..] {
        [JvmInstruction::Invokestatic { class_name, method_name, descriptor }] => {
            assert_eq!(class_name, "Main");
            assert_eq!(method_name, "java.lang.System.out.println");
            assert_eq!(descriptor, "(II)V");
        }
        _ => panic!("expected invokestatic"),
    }
    match &lower_one(CoreInstruction::Call("user_fn".to_string(), 0))[..] {
        [JvmInstruction::Invokestatic { method_name, descriptor, .. }] => {
            assert_eq!(method_name, "user_fn");
            assert_eq!(descriptor, "()V");
        }
        _ => panic!("expected invokestatic"),
    }
}

fn sig(params: Vec<GaiaType>, ret: GaiaType) -> GaiaSignature {
    GaiaSignature { params, return_type: ret }
}

#[test]
fn jvm_function_lowering() {
    let f = GaiaFunction {
        name: "main".to_string(),
        signature: sig(vec![GaiaType::I32], GaiaType::Void),
        blocks: vec![
            GaiaBlock {
                label: "entry".to_string(),
                instructions: vec![core_instr(CoreInstruction::PushConstant(GaiaConstant::I32(1))), core_instr(CoreInstruction::Pop)],
                terminator: GaiaTerminator::Branch { true_label: "a".to_string(), false_label: "b".to_string() },
            },
            GaiaBlock { label: "a".to_string(), instructions: vec![], terminator: GaiaTerminator::Halt },
        ],
        is_external: false,
    };
    let m = convert_gaia_function_to_jvm(&f, &ctx()).unwrap();
    assert_eq!(m.name, "main");
    assert_eq!(m.descriptor, "(I)V");
    assert!(m.access_flags.is_public && m.access_flags.is_static);
    assert_eq!(m.max_stack, 10);
    assert_eq!(m.instructions.len(), 6);
    assert!(matches!(m.instructions[0], JvmInstruction::Iconst1));
    assert!(matches!(m.instructions[1], JvmInstruction::Pop));
    assert!(matches!(&m.instructions[2], JvmInstruction::Ifne { target } if target == "a"));
    assert!(matches!(&m.instructions[3], JvmInstruction::Goto { target } if target == "b"));
    assert!(matches!(m.instructions[4], JvmInstruction::Iconst0));
    assert!(matches!(&m.instructions[5], JvmInstruction::Invokestatic { method_name, .. } if method_name == "exit"));
}

#[test]
fn jvm_module_lowering() {
    let module = GaiaModule {
        name: "Demo".to_string(),
        functions: vec![GaiaFunction {
            name: "main".to_string(),
            signature: sig(vec![], GaiaType::Void),
            blocks: vec![GaiaBlock {
                label: "entry".to_string(),
                instructions: vec![core_instr(CoreInstruction::LoadField("Point".to_string(), "x".to_string()))],
                terminator: GaiaTerminator::Return,
            }],
            is_external: false,
        }],
        structs: vec![],
        classes: vec![GaiaClass {
            name: "Point".to_string(),
            parent: None,
            interfaces: vec![],
            fields: vec![GaiaField { name: "x".to_string(), ty: GaiaType::I32, is_static: false, visibility: Visibility::Private }],
            methods: vec![],
            attributes: vec![],
        }],
        constants: vec![],
        globals: vec![GaiaGlobal { name: "count".to_string(), ty: GaiaType::I64, initial_value: None }],
        imports: vec![],
    };
    let p = convert_gaia_to_jvm(&module, &GaiaConfig::default()).unwrap();
    assert_eq!(p.name, "Demo");
    assert_eq!(p.version.major, 52);
    assert_eq!(p.methods.len(), 1);
    match &p.methods[0].instructions[0] {
        JvmInstruction::Getfield { descriptor, .. } => assert_eq!(descriptor, "I"),
        _ => panic!("expected getfield"),
    }
    assert_eq!(p.fields.len(), 2);
    assert_eq!(p.fields[0].name, "x");
    assert!(p.fields[0].access_flags.is_private && !p.fields[0].access_flags.is_static);
    assert_eq!(p.fields[1].name, "count");
    assert_eq!(p.fields[1].descriptor, "J");
    assert!(p.fields[1].access_flags.is_public && p.fields[1].access_flags.is_static);
}

#[test]
fn jvm_module_first_error_wins() {
    let bad = |name: &str, ins: CoreInstruction| GaiaFunction {
        name: name.to_string(),
        signature: sig(vec![], GaiaType::Void),
        blocks: vec![GaiaBlock { label: "e".to_string(), instructions: vec![core_instr(ins)], terminator: GaiaTerminator::Return }],
        is_external: false,
    };
    let module = GaiaModule {
        name: "M".to_string(),
        functions: vec![bad("f", CoreInstruction::Store(GaiaType::I32)), bad("g", CoreInstruction::Load(GaiaType::I32))],
        structs: vec![],
        classes: vec![],
        constants: vec![],
        globals: vec![],
        imports: vec![],
    };
    match convert_gaia_to_jvm(&module, &GaiaConfig::default()) {
        Err(GaiaError::NotImplemented { feature }) => assert_eq!(feature, "JVM indirect store"),
        _ => panic!("expected the first error"),
    }
}

#[test]
fn pe_image_layout() {
    let image = create_minimal_dotnet_pe("ret", "Prog").unwrap();
    assert_eq!(image.len(), 1024);
    assert_eq!(&image[0..2], b"MZ");
    assert!(image[2..0x80].iter().all(|b| *b == 0));
    assert_eq!(&image[0x80..0x84], b"PE\0\0");
    assert_eq!(&image[0x84..0x86], &[0x4C, 0x01]);
    assert_eq!(&image[0x98..0x9C], &[0x0B, 0x01, 0x0E, 0x00]);
    let text = b"// IL Code for Prog\nret";
    assert_eq!(&image[0x9C..0x9C + text.len()], text);
    assert!(image[0x9C + text.len()..].iter().all(|b| *b == 0));
    let long = "x".repeat(2000);
    let cut = create_minimal_dotnet_pe(&long, "P").unwrap();
    assert_eq!(cut.len(), 1024);
    assert_eq!(cut[1023], b'x');
    let from_bytes = generate_dotnet_pe_file(b"nop", "Q").unwrap();
    assert_eq!(&from_bytes[0x9C..0x9C + 20], b"// IL Code for Q\nnop");
}

#[test]
fn test_backend_initialization() {
    let _jvm = JvmBackend::default();
    let _msil = ClrBackend::default();
    let _pe = PEBackend::default();
    let _wasi = WasiBackend::default();
}

fn simple_program() -> GaiaModule {
    GaiaModule {
        name: "simple_test".to_string(),
        functions: vec![GaiaFunction {
            name: "main".to_string(),
            signature: sig(vec![], GaiaType::Void),
            blocks: vec![GaiaBlock { label: "entry".to_string(), instructions: vec![], terminator: GaiaTerminator::Return }],
            is_external: false,
        }],
        structs: vec![],
        classes: vec![],
        constants: vec![],
        globals: vec![],
        imports: vec![],
    }
}

#[test]
fn test_backend_specific_features() {
    let program = simple_program();
    let jvm = JvmBackend::generate_program(&program).unwrap();
    assert_eq!(jvm.name, "simple_test");
    assert_eq!(jvm.methods.len(), 1);
    let il = ClrBackend::generate(&program).unwrap();
    assert!(String::from_utf8(il).unwrap().starts_with(".assembly simple_test {}\n"));
    assert_eq!(gaia_assembler::backends::pe::compile(&program).unwrap().len(), 1024);
    let wasm = gaia_assembler::backends::wasi::compile_program(&program);
    assert_eq!(wasm.functions.len(), 1);
    assert_eq!(JvmBackend::default().primary_target().host, AbiCompatible::Unknown);
    assert_eq!(ClrBackend::default().primary_target().host, AbiCompatible::MicrosoftIntermediateLanguage);
}

fn config_for(build: Architecture, host: AbiCompatible) -> GaiaConfig {
    let mut config = GaiaConfig::default();
    config.target = CompilationTarget { build, host, target: ApiCompatible::Unknown };
    config
}

#[test]
fn jvm_generate_class_by_host() {
    let program = simple_program();
    let backend = JvmBackend::default();
    let class = backend.generate_class(&program, &config_for(Architecture::JVM, AbiCompatible::Unknown)).unwrap();
    assert_eq!(class.name, "simple_test");
    match backend.generate_class(&program, &config_for(Architecture::JVM, AbiCompatible::JavaAssembly)) {
        Err(GaiaError::Custom { message }) => assert_eq!(message, "JASM output is currently disabled"),
        _ => panic!("expected the disabled assembly output"),
    }
    match backend.generate_class(&program, &config_for(Architecture::JVM, AbiCompatible::PE)) {
        Err(GaiaError::Custom { message }) => assert_eq!(message, "Unsupported host ABI: PE"),
        _ => panic!("expected an unsupported host"),
    }
}

#[test]
fn jvm_generate_class_lowering_error_comes_first() {
    let mut program = simple_program();
    program.functions[0].blocks[0].instructions = vec![core_instr(CoreInstruction::Store(GaiaType::I32))];
    match JvmBackend::default().generate_class(&program, &config_for(Architecture::JVM, AbiCompatible::PE)) {
        Err(GaiaError::NotImplemented { feature }) => assert_eq!(feature, "JVM indirect store"),
        _ => panic!("expected the lowering error"),
    }
}

#[test]
fn clr_generate_artifact_by_host() {
    let program = simple_program();
    let backend = ClrBackend::default();
    match backend.generate_artifact(&program, &config_for(Architecture::CLR, AbiCompatible::Unknown)) {
        Ok(ClrArtifact::Assembly(p)) => assert_eq!(p.module_name, "simple_test.dll"),
        _ => panic!("expected an assembly"),
    }
    match backend.generate_artifact(&program, &config_for(Architecture::CLR, AbiCompatible::MicrosoftIntermediateLanguage)) {
        Ok(ClrArtifact::IlText(bytes)) => {
            assert!(String::from_utf8(bytes).unwrap().starts_with(".assembly simple_test {}\n"))
        }
        _ => panic!("expected text"),
    }
    match backend.generate_artifact(&program, &config_for(Architecture::CLR, AbiCompatible::ELF)) {
        Err(GaiaError::InvalidData { message }) => assert_eq!(message, "Unsupported host ABI for CLR backend"),
        _ => panic!("expected an unsupported host"),
    }
}
