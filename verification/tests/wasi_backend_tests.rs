use gaia_assembler::backends::wasi::{compile_program, WasiInstruction, WasmValueType};
use gaia_assembler::instruction::{CmpCondition, CoreInstruction, GaiaInstruction};
use gaia_assembler::program::{GaiaBlock, GaiaConstant, GaiaFunction, GaiaModule, GaiaTerminator};
use gaia_assembler::types::{GaiaSignature, GaiaType};

fn core_instr(c: CoreInstruction) -> GaiaInstruction {
    GaiaInstruction::Core(c)
}

fn module(functions: Vec<GaiaFunction>) -> GaiaModule {
    GaiaModule {
        name: "w".to_string(),
        functions,
        structs: vec![],
        classes: vec![],
        constants: vec![],
        globals: vec![],
        imports: vec![],
    }
}

#[test]
fn wasi_lowering_of_a_module() {
    let add = GaiaFunction {
        name: "add".to_string(),
        signature: GaiaSignature { params: vec![GaiaType::I32, GaiaType::F64], return_type: GaiaType::I64 },
        blocks: vec![GaiaBlock {
            label: "entry".to_string(),
            instructions: vec![
                core_instr(CoreInstruction::LoadArg(0, GaiaType::I32)),
                core_instr(CoreInstruction::PushConstant(GaiaConstant::I32(7))),
                core_instr(CoreInstruction::Add(GaiaType::I32)),
                core_instr(CoreInstruction::PushConstant(GaiaConstant::F32 { bits: 0x3fc00000, text: "1.5".to_string() })),
                core_instr(CoreInstruction::Cmp(CmpCondition::Ge, GaiaType::I32)),
                core_instr(CoreInstruction::Load(GaiaType::Bool)),
                core_instr(CoreInstruction::PushConstant(GaiaConstant::Bool(true))),
            ],
            terminator: GaiaTerminator::Return,
        }],
        is_external: false,
    };
    let stop = GaiaFunction {
        name: "stop".to_string(),
        signature: GaiaSignature { params: vec![], return_type: GaiaType::Void },
        blocks: vec![GaiaBlock { label: "b".to_string(), instructions: vec![], terminator: GaiaTerminator::Halt }],
        is_external: false,
    };
    let p = compile_program(&module(vec![add, stop]));
    assert_eq!(p.imports.len(), 1);
    assert_eq!(p.imports[0].module, "wasi_snapshot_preview1");
    assert_eq!(p.imports[0].field, "fd_write");
    assert_eq!(p.function_types.len(), 3);
    assert_eq!(p.function_types[0].params, vec![WasmValueType::I32; 4]);
    assert_eq!(p.function_types[1].params, vec![WasmValueType::I32, WasmValueType::F64]);
    assert_eq!(p.function_types[1].results, vec![WasmValueType::I64]);
    assert!(p.function_types[2].results.is_empty());
    assert_eq!(p.functions[0].type_index, 1);
    assert_eq!(
        p.functions[0].body,
        vec![
            WasiInstruction::LocalGet { local_index: 0 },
            WasiInstruction::I32Const { value: 7 },
            WasiInstruction::I32Add,
            WasiInstruction::F32Const { bits: 0x3fc00000 },
            WasiInstruction::I32GeS,
            WasiInstruction::Return,
            WasiInstruction::End,
        ]
    );
    assert_eq!(
        p.functions[1].body,
        vec![WasiInstruction::I32Const { value: 0 }, WasiInstruction::Call { function_index: 0 }, WasiInstruction::End]
    );
    assert_eq!(p.exports.len(), 1);
    assert_eq!(p.exports[0].name, "main");
    assert_eq!(p.exports[0].function_index, 2);
}

#[test]
fn wasi_lowering_without_functions() {
    let p = compile_program(&module(vec![]));
    assert!(p.functions.is_empty());
    assert!(p.exports.is_empty());
    assert_eq!(p.function_types.len(), 1);
}
