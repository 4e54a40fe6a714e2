use gaia_assembler::import_adapters::{
    ImportAdapter, IlImportAdapter, IlInstruction, JvmImportAdapter, JvmInstruction, PeImportAdapter,
    PeInstruction, WasiImportAdapter, WasiInstruction,
};
use gaia_assembler::ir::{GaiaConstant, GaiaInstruction};

fn pe(opcode: &str, operands: &[&str]) -> PeInstruction {
    PeInstruction { opcode: opcode.to_string(), operands: operands.iter().map(|s| s.to_string()).collect() }
}

#[test]
fn test_pe_import_adapter() {
    let adapter = PeImportAdapter::new();
    assert_eq!(adapter.adapter_name(), "PE Import Adapter");

    let pe_instruction = pe("mov", &["eax", "42"]);

    let result = adapter.import_instruction(&pe_instruction);
    assert!(result.is_ok());

    let gaia_instruction = result.unwrap();
    match gaia_instruction {
        GaiaInstruction::LoadConstant(GaiaConstant::Integer32(value)) => {
            assert_eq!(value, 42);
        }
        _ => panic!("Expected LoadConstant instruction"),
    }
}

#[test]
fn test_il_import_adapter() {
    let adapter = IlImportAdapter::new();
    assert_eq!(adapter.adapter_name(), "IL Import Adapter");

    let il_instruction = IlInstruction { opcode: "ldloc.0".to_string(), operands: vec![], metadata: None };
    let result = adapter.import_instruction(&il_instruction);
    assert!(result.is_ok());

    let gaia_instruction = result.unwrap();
    match gaia_instruction {
        GaiaInstruction::LoadLocal(index) => {
            assert_eq!(index, 0);
        }
        _ => panic!("Expected LoadLocal instruction"),
    }
}

#[test]
fn test_jvm_import_adapter() {
    let adapter = JvmImportAdapter::new();
    assert_eq!(adapter.adapter_name(), "JVM Import Adapter");

    let jvm_instruction = JvmInstruction { opcode: 0x10, operands: vec![42], metadata: None };
    let result = adapter.import_instruction(&jvm_instruction);
    assert!(result.is_ok());

    let gaia_instruction = result.unwrap();
    match gaia_instruction {
        GaiaInstruction::LoadConstant(GaiaConstant::Integer32(value)) => {
            assert_eq!(value, 42);
        }
        _ => panic!("Expected LoadConstant instruction"),
    }
}

#[test]
fn test_wasi_import_adapter() {
    let adapter = WasiImportAdapter::new();
    assert_eq!(adapter.adapter_name(), "WASI Import Adapter");

    let wasi_instruction = WasiInstruction { opcode: 0x41, operands: vec![42, 0, 0, 0], metadata: None };

    let result = adapter.import_instruction(&wasi_instruction);
    assert!(result.is_ok());

    let gaia_instruction = result.unwrap();
    match gaia_instruction {
        GaiaInstruction::LoadConstant(GaiaConstant::Integer32(value)) => {
            assert_eq!(value, 42);
        }
        _ => panic!("Expected LoadConstant instruction"),
    }
}

#[test]
fn test_unsupported_instruction_handling() {
    let adapter = WasiImportAdapter::new();

    let unsupported_instruction = WasiInstruction { opcode: 0xFF, operands: vec![], metadata: None };

    let result = adapter.import_instruction(&unsupported_instruction);
    assert!(result.is_ok());

    let gaia_instruction = result.unwrap();
    match gaia_instruction {
        GaiaInstruction::Comment(msg) => {
            assert!(msg.contains("Unsupported"));
        }
        _ => panic!("Expected Comment instruction for unsupported opcode"),
    }
}

#[test]
fn test_program_import() {
    let adapter = PeImportAdapter::new();

    let pe_program = vec![pe("mov", &["eax", "42"]), pe("ret", &[])];

    let result = adapter.import_program(&pe_program);
    assert!(result.is_ok());

    let gaia_program = result.unwrap();
    assert_eq!(gaia_program.functions.len(), 1);
    assert_eq!(gaia_program.functions[0].name, "main");
    assert_eq!(gaia_program.functions[0].instructions.len(), 2);
}
