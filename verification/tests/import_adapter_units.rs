use gaia_assembler::import_adapters::{
    ImportAdapter, IlImportAdapter, IlInstruction, JvmImportAdapter, JvmInstruction, PeImportAdapter,
    PeInstruction, WasiImportAdapter, WasiInstruction,
};
use gaia_assembler::ir::{GaiaConstant, GaiaInstruction};

#[test]
fn test_il_import_adapter_creation() {
    let adapter = IlImportAdapter::new();
    assert_eq!(adapter.adapter_name(), "IL Import Adapter");
}

#[test]
fn test_il_ldc_i4_instruction_import() {
    let adapter = IlImportAdapter::new();
    let il_instruction = IlInstruction { opcode: "ldc.i4".to_string(), operands: vec!["42".to_string()], metadata: None };
    let result = adapter.import_instruction(&il_instruction);
    assert!(result.is_ok());
    if let Ok(GaiaInstruction::LoadConstant(GaiaConstant::Integer32(value))) = result {
        assert_eq!(value, 42);
    }
    else {
        panic!("Expected LoadConstant instruction");
    }
}

#[test]
fn test_il_ldstr_instruction_import() {
    let adapter = IlImportAdapter::new();
    let il_instruction =
        IlInstruction { opcode: "ldstr".to_string(), operands: vec!["Hello, World!".to_string()], metadata: None };
    let result = adapter.import_instruction(&il_instruction);
    assert!(result.is_ok());
    if let Ok(GaiaInstruction::LoadConstant(GaiaConstant::String(value))) = result {
        assert_eq!(value, "Hello, World!");
    }
    else {
        panic!("Expected LoadConstant instruction");
    }
}

#[test]
fn test_il_call_instruction_import() {
    let adapter = IlImportAdapter::new();
    let il_instruction = IlInstruction {
        opcode: "call".to_string(),
        operands: vec!["System.Console::WriteLine".to_string()],
        metadata: None,
    };
    let result = adapter.import_instruction(&il_instruction);
    assert!(result.is_ok());
    if let Ok(GaiaInstruction::Call(function_name)) = result {
        assert_eq!(function_name, "System.Console::WriteLine");
    }
    else {
        panic!("Expected Call instruction");
    }
}

#[test]
fn test_jvm_import_adapter_creation() {
    let adapter = JvmImportAdapter::new();
    assert_eq!(adapter.adapter_name(), "JVM Import Adapter");
}

#[test]
fn test_jvm_iconst_0_import() {
    let adapter = JvmImportAdapter::new();
    let jvm_instruction = JvmInstruction { opcode: 0x03, operands: vec![], metadata: None };
    let result = adapter.import_instruction(&jvm_instruction);
    assert!(result.is_ok());
    match result.unwrap() {
        GaiaInstruction::LoadConstant(GaiaConstant::Integer32(value)) => {
            assert_eq!(value, 0);
        }
        _ => panic!("Expected LoadConstant(Integer32(0))"),
    }
}

#[test]
fn test_jvm_bipush_import() {
    let adapter = JvmImportAdapter::new();
    let jvm_instruction = JvmInstruction { opcode: 0x10, operands: vec![42], metadata: None };
    let result = adapter.import_instruction(&jvm_instruction);
    assert!(result.is_ok());
    match result.unwrap() {
        GaiaInstruction::LoadConstant(GaiaConstant::Integer32(value)) => {
            assert_eq!(value, 42);
        }
        _ => panic!("Expected LoadConstant(Integer32(42))"),
    }
}

#[test]
fn test_jvm_iload_0_import() {
    let adapter = JvmImportAdapter::new();
    let jvm_instruction = JvmInstruction { opcode: 0x15, operands: vec![], metadata: None };
    let result = adapter.import_instruction(&jvm_instruction);
    assert!(result.is_ok());
    match result.unwrap() {
        GaiaInstruction::LoadLocal(index) => {
            assert_eq!(index, 0);
        }
        _ => panic!("Expected LoadLocal(0)"),
    }
}

#[test]
fn test_jvm_iadd_import() {
    let adapter = JvmImportAdapter::new();
    let jvm_instruction = JvmInstruction { opcode: 0x60, operands: vec![], metadata: None };
    let result = adapter.import_instruction(&jvm_instruction);
    assert!(result.is_ok());
    match result.unwrap() {
        GaiaInstruction::Add => {}
        _ => panic!("Expected Add"),
    }
}

#[test]
fn mod_test_simple_program_import() {
    let adapter = JvmImportAdapter::new();
    let jvm_instructions = vec![
        JvmInstruction { opcode: 0x03, operands: vec![], metadata: None },
        JvmInstruction { opcode: 0x3B, operands: vec![], metadata: None },
        JvmInstruction { opcode: 0xB1, operands: vec![], metadata: None },
    ];
    let result = adapter.import_program(&jvm_instructions);
    assert!(result.is_ok());
    let gaia_program = result.unwrap();
    assert_eq!(gaia_program.name, "ImportedJvmProgram");
    assert_eq!(gaia_program.functions.len(), 1);
    assert_eq!(gaia_program.functions[0].instructions.len(), 3);
}

#[test]
fn test_pe_import_adapter_creation() {
    let adapter = PeImportAdapter::new();
    assert_eq!(adapter.adapter_name(), "PE Import Adapter");
}

#[test]
fn test_pe_mov_instruction_import() {
    let adapter = PeImportAdapter::new();
    let pe_instruction = PeInstruction { opcode: "mov".to_string(), operands: vec!["eax".to_string(), "42".to_string()] };
    let result = adapter.import_instruction(&pe_instruction);
    assert!(result.is_ok());
    if let Ok(GaiaInstruction::LoadConstant(GaiaConstant::Integer32(value))) = result {
        assert_eq!(value, 42);
    }
    else {
        panic!("Expected LoadConstant instruction");
    }
}

#[test]
fn test_pe_call_instruction_import() {
    let adapter = PeImportAdapter::new();
    let pe_instruction = PeInstruction { opcode: "call".to_string(), operands: vec!["printf".to_string()] };
    let result = adapter.import_instruction(&pe_instruction);
    assert!(result.is_ok());
    if let Ok(GaiaInstruction::Call(function_name)) = result {
        assert_eq!(function_name, "printf");
    }
    else {
        panic!("Expected Call instruction");
    }
}

#[test]
fn test_wasi_import_adapter_creation() {
    let adapter = WasiImportAdapter::new();
    assert_eq!(adapter.adapter_name(), "WASI Import Adapter");
}

#[test]
fn test_wasi_i32_const_import() {
    let adapter = WasiImportAdapter::new();
    let wasi_instruction = WasiInstruction { opcode: 0x41, operands: vec![42, 0, 0, 0], metadata: None };
    let result = adapter.import_instruction(&wasi_instruction);
    assert!(result.is_ok());
    match result.unwrap() {
        GaiaInstruction::LoadConstant(GaiaConstant::Integer32(value)) => {
            assert_eq!(value, 42);
        }
        _ => panic!("Expected LoadConstant(Integer32(42))"),
    }
}

#[test]
fn test_wasi_local_get_import() {
    let adapter = WasiImportAdapter::new();
    let wasi_instruction = WasiInstruction { opcode: 0x20, operands: vec![0], metadata: None };
    let result = adapter.import_instruction(&wasi_instruction);
    assert!(result.is_ok());
    match result.unwrap() {
        GaiaInstruction::LoadLocal(index) => {
            assert_eq!(index, 0);
        }
        _ => panic!("Expected LoadLocal(0)"),
    }
}

#[test]
fn test_wasi_i32_add_import() {
    let adapter = WasiImportAdapter::new();
    let wasi_instruction = WasiInstruction { opcode: 0x6A, operands: vec![], metadata: None };
    let result = adapter.import_instruction(&wasi_instruction);
    assert!(result.is_ok());
    match result.unwrap() {
        GaiaInstruction::Add => {}
        _ => panic!("Expected Add"),
    }
}

#[test]
fn test_wasi_call_import() {
    let adapter = WasiImportAdapter::new();
    let wasi_instruction = WasiInstruction { opcode: 0x10, operands: vec![5], metadata: None };
    let result = adapter.import_instruction(&wasi_instruction);
    assert!(result.is_ok());
    match result.unwrap() {
        GaiaInstruction::Call(function_name) => {
            assert_eq!(function_name, "function_5");
        }
        _ => panic!("Expected Call(function_5)"),
    }
}

#[test]
fn wasi_test_simple_program_import() {
    let adapter = WasiImportAdapter::new();
    let wasi_instructions = vec![
        WasiInstruction { opcode: 0x41, operands: vec![42, 0, 0, 0], metadata: None },
        WasiInstruction { opcode: 0x21, operands: vec![0], metadata: None },
        WasiInstruction { opcode: 0x0F, operands: vec![], metadata: None },
    ];
    let result = adapter.import_program(&wasi_instructions);
    assert!(result.is_ok());
    let gaia_program = result.unwrap();
    assert_eq!(gaia_program.name, "ImportedWasiProgram");
    assert_eq!(gaia_program.functions.len(), 1);
    assert_eq!(gaia_program.functions[0].name, "_start");
    assert_eq!(gaia_program.functions[0].instructions.len(), 3);
}
