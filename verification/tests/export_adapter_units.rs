use gaia_assembler::export_adapters::{
    ExportAdapter, IlExportAdapter, JvmExportAdapter, PeExportAdapter, WasiExportAdapter,
};
use gaia_assembler::ir::{GaiaConstant, GaiaFunction, GaiaInstruction, GaiaProgram, GaiaType};

#[test]
fn test_il_export_adapter_creation() {
    let adapter = IlExportAdapter::new();
    assert_eq!(adapter.adapter_name(), "IL Export Adapter");
}

#[test]
fn test_gaia_load_constant_export() {
    let adapter = IlExportAdapter::new();
    let gaia_instruction = GaiaInstruction::LoadConstant(GaiaConstant::Integer32(42));
    let result = adapter.export_instruction(&gaia_instruction);
    assert!(result.is_ok());
    let il_instruction = result.unwrap();
    assert_eq!(il_instruction.opcode, "ldc.i4");
    assert_eq!(il_instruction.operands, vec!["42"]);
}

#[test]
fn test_gaia_string_constant_export() {
    let adapter = IlExportAdapter::new();
    let gaia_instruction = GaiaInstruction::LoadConstant(GaiaConstant::String("Hello".to_string()));
    let result = adapter.export_instruction(&gaia_instruction);
    assert!(result.is_ok());
    let il_instruction = result.unwrap();
    assert_eq!(il_instruction.opcode, "ldstr");
    assert_eq!(il_instruction.operands, vec!["\"Hello\""]);
}

#[test]
fn test_gaia_call_export() {
    let adapter = IlExportAdapter::new();
    let gaia_instruction = GaiaInstruction::Call("System.Console::WriteLine".to_string());
    let result = adapter.export_instruction(&gaia_instruction);
    assert!(result.is_ok());
    let il_instruction = result.unwrap();
    assert_eq!(il_instruction.opcode, "call");
    assert_eq!(il_instruction.operands, vec!["System.Console::WriteLine"]);
}

#[test]
fn test_simple_program_export() {
    let adapter = IlExportAdapter::new();
    let gaia_program = GaiaProgram {
        name: "TestProgram".to_string(),
        functions: vec![GaiaFunction {
            name: "Main".to_string(),
            parameters: vec![],
            return_type: None,
            locals: vec![GaiaType::Integer32],
            instructions: vec![
                GaiaInstruction::LoadConstant(GaiaConstant::Integer32(42)),
                GaiaInstruction::StoreLocal(0),
                GaiaInstruction::Return,
            ],
        }],
        constants: vec![],
    };
    let result = adapter.export_program(&gaia_program);
    assert!(result.is_ok());
    let il_instructions = result.unwrap();
    assert!(!il_instructions.is_empty());
    assert!(il_instructions
        .iter()
        .any(|inst| inst.opcode == ".assembly" && inst.operands.contains(&"TestProgram".to_string())));
    assert!(il_instructions.iter().any(|inst| inst.opcode == ".method" && inst.operands.contains(&"Main".to_string())));
}

#[test]
fn test_jvm_export_adapter_creation() {
    let adapter = JvmExportAdapter::new();
    assert_eq!(adapter.adapter_name(), "JVM Export Adapter");
}

#[test]
fn mod_test_gaia_load_constant_export() {
    let adapter = JvmExportAdapter::new();
    let gaia_instruction = GaiaInstruction::LoadConstant(GaiaConstant::Integer32(0));
    let result = adapter.export_instruction(&gaia_instruction);
    assert!(result.is_ok());
    let jvm_instruction = result.unwrap();
    assert_eq!(jvm_instruction.opcode, 0x03);
    assert!(jvm_instruction.operands.is_empty());
}

#[test]
fn test_gaia_bipush_export() {
    let adapter = JvmExportAdapter::new();
    let gaia_instruction = GaiaInstruction::LoadConstant(GaiaConstant::Integer32(42));
    let result = adapter.export_instruction(&gaia_instruction);
    assert!(result.is_ok());
    let jvm_instruction = result.unwrap();
    assert_eq!(jvm_instruction.opcode, 0x10);
    assert_eq!(jvm_instruction.operands, vec![42]);
}

#[test]
fn test_gaia_load_local_export() {
    let adapter = JvmExportAdapter::new();
    let gaia_instruction = GaiaInstruction::LoadLocal(0);
    let result = adapter.export_instruction(&gaia_instruction);
    assert!(result.is_ok());
    let jvm_instruction = result.unwrap();
    assert_eq!(jvm_instruction.opcode, 0x1A);
    assert!(jvm_instruction.operands.is_empty());
}

#[test]
fn test_gaia_add_export() {
    let adapter = JvmExportAdapter::new();
    let gaia_instruction = GaiaInstruction::Add;
    let result = adapter.export_instruction(&gaia_instruction);
    assert!(result.is_ok());
    let jvm_instruction = result.unwrap();
    assert_eq!(jvm_instruction.opcode, 0x60);
    assert!(jvm_instruction.operands.is_empty());
}

#[test]
fn mod_test_simple_program_export() {
    let adapter = JvmExportAdapter::new();
    let gaia_program = GaiaProgram {
        name: "TestProgram".to_string(),
        functions: vec![GaiaFunction {
            name: "main".to_string(),
            parameters: vec![],
            return_type: None,
            locals: vec![GaiaType::Integer32],
            instructions: vec![
                GaiaInstruction::LoadConstant(GaiaConstant::Integer32(42)),
                GaiaInstruction::StoreLocal(0),
                GaiaInstruction::Return,
            ],
        }],
        constants: vec![],
    };
    let result = adapter.export_program(&gaia_program);
    assert!(result.is_ok());
    let jvm_instructions = result.unwrap();
    assert_eq!(jvm_instructions.len(), 3);
    assert_eq!(jvm_instructions[0].opcode, 0x10);
    assert_eq!(jvm_instructions[0].operands, vec![42]);
    assert_eq!(jvm_instructions[1].opcode, 0x4C);
    assert_eq!(jvm_instructions[2].opcode, 0xB1);
}

#[test]
fn test_pe_export_adapter_creation() {
    let adapter = PeExportAdapter::new();
    assert_eq!(adapter.adapter_name(), "PE Export Adapter");
}

#[test]
fn pe_test_gaia_load_constant_export() {
    let adapter = PeExportAdapter::new();
    let gaia_instruction = GaiaInstruction::LoadConstant(GaiaConstant::Integer32(42));
    let result = adapter.export_instruction(&gaia_instruction);
    assert!(result.is_ok());
    let pe_instruction = result.unwrap();
    assert_eq!(pe_instruction.opcode, "mov");
    assert_eq!(pe_instruction.operands, vec!["eax", "42"]);
}

#[test]
fn mod_test_gaia_call_export() {
    let adapter = PeExportAdapter::new();
    let gaia_instruction = GaiaInstruction::Call("printf".to_string());
    let result = adapter.export_instruction(&gaia_instruction);
    assert!(result.is_ok());
    let pe_instruction = result.unwrap();
    assert_eq!(pe_instruction.opcode, "call");
    assert_eq!(pe_instruction.operands, vec!["printf"]);
}

#[test]
fn pe_test_simple_program_export() {
    let adapter = PeExportAdapter::new();
    let gaia_program = GaiaProgram {
        name: "test".to_string(),
        functions: vec![GaiaFunction {
            name: "main".to_string(),
            parameters: vec![],
            return_type: None,
            locals: vec![],
            instructions: vec![GaiaInstruction::LoadConstant(GaiaConstant::Integer32(42)), GaiaInstruction::Return],
        }],
        constants: vec![],
    };
    let result = adapter.export_program(&gaia_program);
    assert!(result.is_ok());
    let pe_instructions = result.unwrap();
    assert!(!pe_instructions.is_empty());
    assert!(pe_instructions.iter().any(|inst| inst.opcode == "label" && inst.operands.contains(&"main".to_string())));
}

#[test]
fn test_wasi_export_adapter_creation() {
    let adapter = WasiExportAdapter::new();
    assert_eq!(adapter.adapter_name(), "WASI Export Adapter");
}

#[test]
fn wasi_test_gaia_load_constant_export() {
    let adapter = WasiExportAdapter::new();
    let gaia_instruction = GaiaInstruction::LoadConstant(GaiaConstant::Integer32(42));
    let result = adapter.export_instruction(&gaia_instruction);
    assert!(result.is_ok());
    let wasi_instruction = result.unwrap();
    assert_eq!(wasi_instruction.opcode, 0x41);
    assert_eq!(wasi_instruction.operands, vec![42, 0, 0, 0]);
}

#[test]
fn mod_test_gaia_load_local_export() {
    let adapter = WasiExportAdapter::new();
    let gaia_instruction = GaiaInstruction::LoadLocal(0);
    let result = adapter.export_instruction(&gaia_instruction);
    assert!(result.is_ok());
    let wasi_instruction = result.unwrap();
    assert_eq!(wasi_instruction.opcode, 0x20);
    assert_eq!(wasi_instruction.operands, vec![0]);
}

#[test]
fn mod_test_gaia_add_export() {
    let adapter = WasiExportAdapter::new();
    let gaia_instruction = GaiaInstruction::Add;
    let result = adapter.export_instruction(&gaia_instruction);
    assert!(result.is_ok());
    let wasi_instruction = result.unwrap();
    assert_eq!(wasi_instruction.opcode, 0x6A);
    assert!(wasi_instruction.operands.is_empty());
}

#[test]
fn wasi_test_gaia_call_export() {
    let adapter = WasiExportAdapter::new();
    let gaia_instruction = GaiaInstruction::Call("test_function".to_string());
    let result = adapter.export_instruction(&gaia_instruction);
    assert!(result.is_ok());
    let wasi_instruction = result.unwrap();
    assert_eq!(wasi_instruction.opcode, 0x10);
    assert_eq!(wasi_instruction.operands, vec![0]);
    assert!(wasi_instruction.metadata.is_some());
}

#[test]
fn wasi_test_simple_program_export() {
    let adapter = WasiExportAdapter::new();
    let gaia_program = GaiaProgram {
        name: "TestProgram".to_string(),
        functions: vec![GaiaFunction {
            name: "_start".to_string(),
            parameters: vec![],
            return_type: Some(GaiaType::Integer32),
            locals: vec![GaiaType::Integer32],
            instructions: vec![
                GaiaInstruction::LoadConstant(GaiaConstant::Integer32(42)),
                GaiaInstruction::StoreLocal(0),
                GaiaInstruction::LoadLocal(0),
                GaiaInstruction::Return,
            ],
        }],
        constants: vec![],
    };
    let result = adapter.export_program(&gaia_program);
    assert!(result.is_ok());
    let wasi_instructions = result.unwrap();
    assert_eq!(wasi_instructions.len(), 4);
    assert_eq!(wasi_instructions[0].opcode, 0x41);
    assert_eq!(wasi_instructions[0].operands, vec![42, 0, 0, 0]);
    assert_eq!(wasi_instructions[1].opcode, 0x21);
    assert_eq!(wasi_instructions[1].operands, vec![0]);
    assert_eq!(wasi_instructions[2].opcode, 0x20);
    assert_eq!(wasi_instructions[2].operands, vec![0]);
    assert_eq!(wasi_instructions[3].opcode, 0x0F);
}

#[test]
fn test_leb128_encoding() {
    let adapter = WasiExportAdapter::new();
    assert_eq!(adapter.encode_leb128_u32(0), vec![0]);
    assert_eq!(adapter.encode_leb128_u32(127), vec![127]);
    assert_eq!(adapter.encode_leb128_u32(128), vec![0x80, 0x01]);
    assert_eq!(adapter.encode_leb128_u32(300), vec![0xAC, 0x02]);
}
