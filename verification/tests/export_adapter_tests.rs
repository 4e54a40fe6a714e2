use gaia_assembler::export_adapters::{
    ExportAdapter, JvmExportAdapter, PeExportAdapter, WasiExportAdapter,
};
use gaia_assembler::import_adapters::{ImportAdapter, PeImportAdapter};
use gaia_assembler::ir::{GaiaConstant, GaiaInstruction};

#[test]
fn test_pe_export_adapter() {
    let adapter = PeExportAdapter::new();
    assert_eq!(adapter.adapter_name(), "PE Export Adapter");

    let gaia_instruction = GaiaInstruction::LoadConstant(GaiaConstant::Integer32(42));
    let result = adapter.export_instruction(&gaia_instruction);
    assert!(result.is_ok());

    let pe_instruction = result.unwrap();
    assert!(format!("{:?}", pe_instruction).contains("42"));
}

#[test]
fn test_jvm_export_adapter() {
    let adapter = JvmExportAdapter::new();
    assert_eq!(adapter.adapter_name(), "JVM Export Adapter");

    let gaia_instruction = GaiaInstruction::LoadConstant(GaiaConstant::Integer32(42));
    let result = adapter.export_instruction(&gaia_instruction);
    assert!(result.is_ok());

    let jvm_instruction = result.unwrap();
    assert!(format!("{:?}", jvm_instruction).contains("42"));
}

#[test]
fn test_wasi_export_adapter() {
    let adapter = WasiExportAdapter::new();
    assert_eq!(adapter.adapter_name(), "WASI Export Adapter");

    let gaia_instruction = GaiaInstruction::LoadConstant(GaiaConstant::Integer32(42));
    let result = adapter.export_instruction(&gaia_instruction);
    assert!(result.is_ok());

    let wasi_instruction = result.unwrap();
    assert_eq!(wasi_instruction.opcode, 0x41);
    assert_eq!(wasi_instruction.operands, vec![42, 0, 0, 0]);
}

#[test]
fn test_unsupported_instruction_export() {
    let adapter = PeExportAdapter::new();

    let gaia_instruction = GaiaInstruction::Comment("Test comment".to_string());
    let result = adapter.export_instruction(&gaia_instruction);

    match result {
        Ok(_) => {}
        Err(err) => {
            assert!(
                format!("{:?}", err).contains("not supported")
                    || format!("{:?}", err).contains("NotImplemented")
            );
        }
    }
}

#[test]
fn test_round_trip_conversion() {
    let original_instruction = GaiaInstruction::LoadConstant(GaiaConstant::Integer32(42));

    let pe_adapter = PeExportAdapter::new();
    let pe_instruction = pe_adapter.export_instruction(&original_instruction).unwrap();

    let import_adapter = PeImportAdapter::new();
    let imported_instruction = import_adapter.import_instruction(&pe_instruction).unwrap();

    match (&original_instruction, &imported_instruction) {
        (
            GaiaInstruction::LoadConstant(GaiaConstant::Integer32(orig)),
            GaiaInstruction::LoadConstant(GaiaConstant::Integer32(imported)),
        ) => {
            assert_eq!(orig, imported);
        }
        _ => panic!("Round-trip conversion failed"),
    }
}

#[test]
fn leb128_of_u32_takes_one_to_five_bytes() {
    let adapter = WasiExportAdapter::new();
    assert_eq!(adapter.encode_leb128_u32(0), vec![0]);
    assert_eq!(adapter.encode_leb128_u32(127).len(), 1);
    assert_eq!(adapter.encode_leb128_u32(128).len(), 2);
    assert_eq!(adapter.encode_leb128_u32((1 << 28) - 1).len(), 4);
    assert_eq!(adapter.encode_leb128_u32(1 << 28).len(), 5);
    assert_eq!(adapter.encode_leb128_u32(u32::MAX), vec![0xFF, 0xFF, 0xFF, 0xFF, 0x0F]);
}
