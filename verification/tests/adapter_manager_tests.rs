use gaia_assembler::adapter_manager::{AdapterManager, ExportAdapter, ImportAdapter};
use gaia_assembler::adapters::{AdapterConfig, AdapterMetadata};
use gaia_assembler::error::GaiaError;
use gaia_assembler::instruction::GaiaInstruction;
use gaia_assembler::program::GaiaModule;
use gaia_assembler::target::{AbiCompatible, ApiCompatible, Architecture, CompilationTarget};

struct Exporter {
    meta: AdapterMetadata,
    fail_cleanup: bool,
}

impl ExportAdapter for Exporter {
    fn metadata(&self) -> &AdapterMetadata {
        &self.meta
    }
    fn configure(&mut self, _config: AdapterConfig) -> Result<(), GaiaError> {
        Ok(())
    }
    fn export_instruction(&self, _instruction: &GaiaInstruction) -> Result<Vec<u8>, GaiaError> {
        Ok(vec![1])
    }
    fn export_program(&self, _program: &GaiaModule) -> Result<Vec<u8>, GaiaError> {
        Ok(vec![])
    }
    fn supports_instruction(&self, _instruction: &GaiaInstruction) -> bool {
        true
    }
    fn file_extension(&self) -> &str {
        "bin"
    }
    fn cleanup(&mut self) -> Result<(), GaiaError> {
        if self.fail_cleanup {
            Err(GaiaError::Custom { message: "busy".to_string() })
        } else {
            Ok(())
        }
    }
}

struct Importer;

impl ImportAdapter for Importer {
    fn metadata(&self) -> &AdapterMetadata {
        unreachable!()
    }
    fn configure(&mut self, _config: AdapterConfig) -> Result<(), GaiaError> {
        Ok(())
    }
    fn import_instruction(&self, _data: &[u8]) -> Result<GaiaInstruction, GaiaError> {
        Err(GaiaError::Custom { message: "none".to_string() })
    }
    fn import_program(&self, _data: &[u8]) -> Result<GaiaModule, GaiaError> {
        Err(GaiaError::Custom { message: "none".to_string() })
    }
    fn validate_format(&self, data: &[u8]) -> bool {
        !data.is_empty()
    }
    fn supported_extensions(&self) -> Vec<&'static str> {
        vec!["bin"]
    }
    fn cleanup(&mut self) -> Result<(), GaiaError> {
        Ok(())
    }
}

fn target() -> CompilationTarget {
    CompilationTarget { build: Architecture::X86_64, host: AbiCompatible::ELF, target: ApiCompatible::Linux }
}

fn exporter(name: &str, fail_cleanup: bool) -> Box<dyn ExportAdapter> {
    Box::new(Exporter {
        meta: AdapterMetadata {
            name: name.to_string(),
            version: "1".to_string(),
            compilation_target: target(),
            description: String::new(),
            supported_instructions: vec![],
        },
        fail_cleanup,
    })
}

#[test]
fn test_adapter_manager_creation() {
    let manager: AdapterManager<dyn ExportAdapter, dyn ImportAdapter> = AdapterManager::new();
    assert!(manager.get_export_adapter(&target()).is_err());
    assert!(manager.get_import_adapter(&target()).is_err());
}

#[test]
fn adapter_registered_once_per_target() {
    let mut manager: AdapterManager<dyn ExportAdapter, dyn ImportAdapter> = AdapterManager::default();
    assert!(manager.register_export_adapter(target(), exporter("first", false)).is_ok());
    assert_eq!(manager.get_export_adapter(&target()).unwrap().metadata().name, "first");
    match manager.register_export_adapter(target(), exporter("second", false)) {
        Err(GaiaError::AdapterError { adapter, message, source }) => {
            assert_eq!(message, "导出适配器已存在");
            assert_eq!(adapter, format!("{:?}", target()));
            assert!(source.is_none());
        }
        _ => panic!("expected a refusal"),
    }
    assert_eq!(manager.get_export_adapter(&target()).unwrap().metadata().name, "first");
    assert!(manager.register_import_adapter(target(), Box::new(Importer)).is_ok());
    assert!(manager.get_import_adapter(&target()).unwrap().validate_format(&[1]));
    match manager.get_export_adapter(&CompilationTarget { build: Architecture::CLR, host: AbiCompatible::PE, target: ApiCompatible::WASI }) {
        Err(GaiaError::AdapterError { message, .. }) => assert_eq!(message, "导出适配器未找到"),
        _ => panic!("expected not found"),
    }
}

#[test]
fn cleanup_reports_the_failing_adapter() {
    let mut manager: AdapterManager<dyn ExportAdapter, dyn ImportAdapter> = AdapterManager::new();
    assert!(manager.cleanup_all().is_ok());
    manager.register_export_adapter(target(), exporter("x", true)).unwrap();
    match manager.cleanup_all() {
        Err(GaiaError::AdapterError { adapter, message, source }) => {
            assert_eq!(message, "清理导出适配器失败");
            assert_eq!(adapter, format!("{:?}", target()));
            assert!(matches!(source.as_deref(), Some(GaiaError::Custom { .. })));
        }
        _ => panic!("expected a clean-up error"),
    }
    assert!(manager.get_export_adapter(&target()).is_ok());
}

#[test]
fn adapters_changed_in_place() {
    let mut manager: AdapterManager<dyn ExportAdapter, dyn ImportAdapter> = AdapterManager::new();
    manager.register_export_adapter(target(), exporter("x", true)).unwrap();
    let config = AdapterConfig {
        name: "x".to_string(),
        compilation_target: target(),
        parameters: gaia_assembler::config::StringMap::new(),
        enabled: true,
    };
    assert!(manager.get_export_adapter_mut(&target()).unwrap().configure(config).is_ok());
    assert_eq!(manager.get_export_adapter_mut(&target()).unwrap().file_extension(), "bin");
    assert!(manager.get_import_adapter_mut(&target()).is_err());
    manager.register_import_adapter(target(), Box::new(Importer)).unwrap();
    assert_eq!(manager.get_import_adapter_mut(&target()).unwrap().supported_extensions(), vec!["bin"]);
}

#[test]
fn supported_targets_sorted_by_debug_text() {
    let mut manager: AdapterManager<dyn ExportAdapter, dyn ImportAdapter> = AdapterManager::new();
    let wasm = CompilationTarget { build: Architecture::WASM32, host: AbiCompatible::WebAssemblyTextFormat, target: ApiCompatible::WASI };
    let clr = CompilationTarget { build: Architecture::CLR, host: AbiCompatible::MicrosoftIntermediateLanguage, target: ApiCompatible::ClrRuntime(4) };
    manager.register_export_adapter(wasm.clone(), exporter("w", false)).unwrap();
    manager.register_export_adapter(target(), exporter("x", false)).unwrap();
    manager.register_import_adapter(wasm.clone(), Box::new(Importer)).unwrap();
    manager.register_import_adapter(clr.clone(), Box::new(Importer)).unwrap();
    let listed: Vec<String> = manager.list_supported_targets().iter().map(|t| format!("{:?}", t)).collect();
    let mut expected = vec![format!("{:?}", clr), format!("{:?}", wasm), format!("{:?}", target())];
    expected.sort();
    assert_eq!(listed, expected);
}
