use gaia_assembler::backends::clr::{convert_to_clr_program, gaia_type_to_clr_type, ClrInstruction, ClrOpcode, ClrVersion};
use gaia_assembler::config::GaiaSettings;
use gaia_assembler::error::GaiaError;
use gaia_assembler::instruction::{CmpCondition, CoreInstruction, GaiaInstruction};
use gaia_assembler::program::{
    GaiaBlock, GaiaClass, GaiaConstant, GaiaField, GaiaFunction, GaiaImport, GaiaModule, GaiaStruct, GaiaTerminator,
    Visibility,
};
use gaia_assembler::types::{GaiaSignature, GaiaType};

fn core_instr(c: CoreInstruction) -> GaiaInstruction {
    GaiaInstruction::Core(c)
}

fn function(name: &str, params: Vec<GaiaType>, instructions: Vec<GaiaInstruction>, terminator: GaiaTerminator) -> GaiaFunction {
    GaiaFunction {
        name: name.to_string(),
        signature: GaiaSignature { params, return_type: GaiaType::I32 },
        blocks: vec![GaiaBlock { label: "entry".to_string(), instructions, terminator }],
        is_external: false,
    }
}

fn module() -> GaiaModule {
    GaiaModule {
        name: "Demo".to_string(),
        functions: vec![function(
            "main",
            vec![GaiaType::String, GaiaType::Array(Box::new(GaiaType::I64), 3)],
            vec![
                core_instr(CoreInstruction::PushConstant(GaiaConstant::U32(4294967295))),
                core_instr(CoreInstruction::Label("x".to_string())),
                core_instr(CoreInstruction::Cmp(CmpCondition::Ne, GaiaType::I32)),
                core_instr(CoreInstruction::Call("print".to_string(), 1)),
                core_instr(CoreInstruction::LoadLocal(65537, GaiaType::I32)),
                core_instr(CoreInstruction::LoadField("P".to_string(), "x".to_string())),
            ],
            GaiaTerminator::Halt,
        )],
        structs: vec![GaiaStruct { name: "P".to_string(), fields: vec![("x".to_string(), GaiaType::F64)] }],
        classes: vec![GaiaClass {
            name: "C".to_string(),
            parent: None,
            interfaces: vec![],
            fields: vec![GaiaField { name: "s".to_string(), ty: GaiaType::String, is_static: false, visibility: Visibility::Public }],
            methods: vec![function("get", vec![], vec![], GaiaTerminator::Return)],
            attributes: vec![],
        }],
        constants: vec![],
        globals: vec![],
        imports: vec![
            GaiaImport { library: "System.Runtime".to_string(), symbol: "a".to_string() },
            GaiaImport { library: "System.Runtime".to_string(), symbol: "b".to_string() },
            GaiaImport { library: "mscorlib".to_string(), symbol: "c".to_string() },
        ],
    }
}

#[test]
fn clr_program_of_module() {
    let p = convert_to_clr_program(&module(), Some(&GaiaSettings::default())).unwrap();
    assert_eq!(p.name, "Demo");
    assert_eq!(p.module_name, "Demo.dll");
    assert_eq!(p.version, ClrVersion { major: 1, minor: 0, build: 0, revision: 0 });
    let names: Vec<&str> = p.external_assemblies.iter().map(|a| a.name.as_str()).collect();
    assert_eq!(names, vec!["mscorlib", "System.Runtime"]);
    assert_eq!(p.external_assemblies[0].public_key_token, Some(vec![0xB7, 0x7A, 0x5C, 0x56, 0x19, 0x34, 0xE0, 0x89]));
    assert_eq!(p.types.len(), 2);
    assert_eq!(p.types[0].name, "P");
    assert_eq!(p.types[0].fields[0].field_type.name, "float64");
    assert!(p.types[0].fields[0].field_type.is_value_type);
    assert!(p.types[0].methods.is_empty());
    assert_eq!(p.types[1].name, "C");
    assert!(p.types[1].fields[0].field_type.is_reference_type);
    assert_eq!(p.types[1].methods[0].name, "get");
    assert!(!p.types[1].methods[0].is_entry_point);
    let main = &p.global_methods[0];
    assert!(main.is_entry_point);
    assert_eq!(main.parameters[0].name, "arg0");
    assert_eq!(main.parameters[1].name, "arg1");
    assert_eq!(main.parameters[1].parameter_type.name, "int64[]");
    assert!(main.parameters[1].parameter_type.is_reference_type);
    assert_eq!(main.return_type.name, "int32");
    assert_eq!(main.max_stack, 8);
    assert_eq!(
        main.instructions,
        vec![
            ClrInstruction::WithImmediate { opcode: ClrOpcode::LdcI4, value: -1 },
            ClrInstruction::Simple { opcode: ClrOpcode::Ceq },
            ClrInstruction::WithImmediate { opcode: ClrOpcode::LdcI4, value: 0 },
            ClrInstruction::Simple { opcode: ClrOpcode::Ceq },
            ClrInstruction::WithMethod { opcode: ClrOpcode::Call, method_ref: "void [mscorlib]System.Console::WriteLine(string)".to_string() },
            ClrInstruction::WithLocalVar { opcode: ClrOpcode::Ldloc, index: 1 },
            ClrInstruction::WithField { opcode: ClrOpcode::Ldfld, field_ref: "float64 P::x".to_string() },
            ClrInstruction::WithImmediate { opcode: ClrOpcode::LdcI4, value: 0 },
            ClrInstruction::WithMethod { opcode: ClrOpcode::Call, method_ref: "ExitProcess".to_string() },
        ]
    );
}

#[test]
fn clr_type_references() {
    let r = gaia_type_to_clr_type(&GaiaType::Pointer(Box::new(GaiaType::I8), gaia_assembler::types::AddressSpace::Generic));
    assert_eq!(r.name, "object");
    let c = gaia_type_to_clr_type(&GaiaType::Class("Foo".to_string()));
    assert_eq!(c.name, "Foo");
    assert!(c.is_reference_type && !c.is_value_type);
    let s = gaia_type_to_clr_type(&GaiaType::Struct("Bar".to_string()));
    assert!(s.is_value_type && !s.is_reference_type);
}

#[test]
fn clr_unsupported_constant_in_class_method() {
    let mut m = module();
    m.classes[0].methods[0].blocks[0].instructions = vec![core_instr(CoreInstruction::PushConstant(GaiaConstant::Array(vec![])))];
    match convert_to_clr_program(&m, None) {
        Err(GaiaError::Custom { message }) => assert_eq!(message, "Unsupported constant type for CLR"),
        _ => panic!("expected an error"),
    }
}

#[test]
fn text_and_program_refuse_alike() {
    let good = module();
    assert!(convert_to_clr_program(&good, None).is_ok());
    assert!(gaia_assembler::backends::ClrBackend::generate(&good).is_ok());
    let mut bad = module();
    bad.functions[0].blocks[0].instructions.push(core_instr(CoreInstruction::PushConstant(GaiaConstant::Blob(vec![7]))));
    assert!(convert_to_clr_program(&bad, None).is_err());
    assert!(gaia_assembler::backends::ClrBackend::generate(&bad).is_err());
}
