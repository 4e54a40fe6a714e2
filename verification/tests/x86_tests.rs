use gaia_assembler::backends::X86Backend;
use gaia_assembler::error::GaiaError;
use gaia_assembler::instruction::{CoreInstruction, GaiaInstruction};
use gaia_assembler::program::{GaiaBlock, GaiaConstant, GaiaFunction, GaiaModule, GaiaTerminator};
use gaia_assembler::textmap::TextMap;
use gaia_assembler::types::{GaiaSignature, GaiaType};

const PROLOGUE: [u8; 24] = [
    0x55, 0x48, 0x89, 0xE5, 0x48, 0x83, 0xEC, 0x20, 0x48, 0x89, 0x4D, 0x10, 0x48, 0x89, 0x55, 0x18, 0x4C, 0x89, 0x45,
    0x20, 0x4C, 0x89, 0x4D, 0x28,
];
const EPILOGUE: [u8; 5] = [0x48, 0x89, 0xEC, 0x5D, 0xC3];

fn function(name: &str, instructions: Vec<GaiaInstruction>) -> GaiaFunction {
    GaiaFunction {
        name: name.to_string(),
        signature: GaiaSignature { params: vec![], return_type: GaiaType::I32 },
        blocks: vec![GaiaBlock { label: "entry".to_string(), instructions, terminator: GaiaTerminator::Return }],
        is_external: false,
    }
}

fn module(functions: Vec<GaiaFunction>) -> GaiaModule {
    GaiaModule {
        name: "m".to_string(),
        functions,
        structs: vec![],
        classes: vec![],
        constants: vec![],
        globals: vec![],
        imports: vec![],
    }
}

#[test]
fn x86_function_push_and_pop() {
    let f = function(
        "main",
        vec![
            GaiaInstruction::Core(CoreInstruction::PushConstant(GaiaConstant::I32(42))),
            GaiaInstruction::Core(CoreInstruction::Pop),
        ],
    );
    let mut code = vec![0x90u8];
    let mut outside = vec![];
    let mut inside = vec![];
    let mut strings = vec![];
    let table: TextMap<usize> = TextMap::new();
    X86Backend::default()
        .generate_function(&f, &vec!["main".to_string()], &mut code, &mut outside, &mut inside, &table, &mut strings)
        .unwrap();
    let mut expected = vec![0x90u8];
    expected.extend_from_slice(&PROLOGUE);
    expected.extend_from_slice(&[0x68, 42, 0, 0, 0, 0x58]);
    expected.extend_from_slice(&EPILOGUE);
    assert_eq!(code, expected);
    assert!(outside.is_empty() && inside.is_empty() && strings.is_empty());
}

#[test]
fn x86_module_patches_main_and_internal_calls() {
    let program = module(vec![
        function("helper", vec![]),
        function("main", vec![GaiaInstruction::Core(CoreInstruction::Call("helper".to_string(), 0))]),
    ]);
    let image = X86Backend::default().generate_code(&program).unwrap();
    let mut expected = vec![
        0x48, 0x83, 0xEC, 0x20, 0xFF, 0x15, 0, 0, 0, 0, 0xE8, 0x26, 0, 0, 0, 0x48, 0x89, 0xC1, 0xFF, 0x15, 0, 0, 0, 0,
    ];
    // helper at 24
    expected.extend_from_slice(&PROLOGUE);
    expected.extend_from_slice(&EPILOGUE);
    // main at 53: the call at 77 reaches back to 24
    expected.extend_from_slice(&PROLOGUE);
    expected.extend_from_slice(&[0xE8, 0xC6, 0xFF, 0xFF, 0xFF, 0x50]);
    expected.extend_from_slice(&EPILOGUE);
    assert_eq!(image.code, expected);
    assert_eq!(image.call_exit_pos, 18);
    assert_eq!(image.external_call_positions, vec![("nyar_init_runtime".to_string(), 4)]);
    assert!(image.rdata_content.is_empty());
}

#[test]
fn x86_module_strings_and_outside_calls() {
    let program = module(vec![function(
        "start",
        vec![
            GaiaInstruction::Core(CoreInstruction::PushConstant(GaiaConstant::String("hi".to_string()))),
            GaiaInstruction::Core(CoreInstruction::Call("puts".to_string(), 1)),
        ],
    )]);
    let image = X86Backend::default().generate_code(&program).unwrap();
    // no `main`: the first function is called, at 24
    assert_eq!(&image.code[10..15], &[0xE8, 9, 0, 0, 0]);
    assert_eq!(image.rdata_content, b"hi\0".to_vec());
    // lea rax at 48, its displacement at 51
    assert_eq!(image.string_patches, vec![(51, 0)]);
    // push rax at 55, pop rcx at 56, the outside call at 57
    assert_eq!(image.external_call_positions, vec![("nyar_init_runtime".to_string(), 4), ("puts".to_string(), 57)]);
    assert_eq!(&image.code[57..64], &[0xFF, 0x15, 0, 0, 0, 0, 0x50]);
}

#[test]
fn x86_unsupported_constant() {
    let program = module(vec![function(
        "main",
        vec![GaiaInstruction::Core(CoreInstruction::PushConstant(GaiaConstant::Bool(true)))],
    )]);
    match X86Backend::default().generate_code(&program) {
        Err(GaiaError::Custom { message }) => assert_eq!(message, "Unsupported constant type for x86 backend"),
        _ => panic!("expected an error"),
    }
}

#[test]
fn x86_unsupported_instructions_name_themselves() {
    let cases = vec![
        (GaiaInstruction::Core(CoreInstruction::Ret), "Unsupported core instruction: Ret".to_string()),
        (
            GaiaInstruction::Core(CoreInstruction::StoreArg(2, GaiaType::I32)),
            format!("Unsupported core instruction: {:?}", CoreInstruction::StoreArg(2, GaiaType::I32)),
        ),
        (
            GaiaInstruction::Domain(gaia_assembler::instruction::DomainInstruction::Barrier),
            "Unsupported domain instruction: Barrier".to_string(),
        ),
    ];
    for (instruction, expected) in cases {
        let program = module(vec![function("main", vec![instruction])]);
        match X86Backend::default().generate_code(&program) {
            Err(GaiaError::Custom { message }) => assert_eq!(message, expected),
            _ => panic!("expected an error"),
        }
    }
}

#[test]
fn x86_function_error_keeps_bytes_before_it() {
    let f = function(
        "main",
        vec![
            GaiaInstruction::Core(CoreInstruction::PushConstant(GaiaConstant::I32(1))),
            GaiaInstruction::Core(CoreInstruction::Load(GaiaType::I32)),
        ],
    );
    let mut code = vec![];
    let mut outside = vec![];
    let mut inside = vec![];
    let mut strings = vec![];
    let table: TextMap<usize> = TextMap::new();
    let r = X86Backend::default().generate_function(
        &f,
        &vec!["main".to_string()],
        &mut code,
        &mut outside,
        &mut inside,
        &table,
        &mut strings,
    );
    assert!(matches!(r, Err(GaiaError::Custom { .. })));
    let mut expected = PROLOGUE.to_vec();
    expected.extend_from_slice(&[0x68, 1, 0, 0, 0]);
    assert_eq!(code, expected);
    assert!(outside.is_empty() && inside.is_empty() && strings.is_empty());
}
