use gaia_assembler::adapters::FunctionMapper;
use gaia_assembler::config::{
    AdapterConfigEntry, ConfigManager, FunctionMapping, GaiaSettings, GlobalConfig, PlatformConfig, StringMap,
};
use gaia_assembler::target::{AbiCompatible, ApiCompatible, Architecture, CompilationTarget};

fn x64() -> CompilationTarget {
    CompilationTarget { build: Architecture::X86_64, host: AbiCompatible::PE, target: ApiCompatible::MicrosoftVisualC }
}

#[test]
fn test_config_manager_creation() {
    let config_manager = ConfigManager::new();
    let config = config_manager.config();
    assert_eq!(config.version, "1.0.0");
    assert!(!config.platforms.is_empty(), "应该有默认平台配置");
    assert!(!config.function_mappings.is_empty(), "应该有默认函数映射");
}

#[test]
fn test_platform_config_management() {
    let mut config_manager = ConfigManager::new();
    let target = x64();
    let platform_config = config_manager.get_platform_config(&target);
    assert!(platform_config.is_some(), "应该能获取到默认平台配置");
    let new_platform = PlatformConfig {
        target: target.clone(),
        description: Some("测试平台".to_string()),
        supported_architectures: vec!["x86_64".to_string()],
        default_extension: ".test".to_string(),
        parameters: StringMap::new(),
    };
    config_manager.add_platform_config(target.clone(), new_platform);
    let retrieved_config = config_manager.get_platform_config(&target);
    assert!(retrieved_config.is_some());
    assert_eq!(retrieved_config.unwrap().default_extension, ".test");
}

#[test]
fn test_adapter_config_management() {
    let mut config_manager = ConfigManager::new();
    let adapter_config = AdapterConfigEntry {
        name: "test_adapter".to_string(),
        adapter_type: "test".to_string(),
        compilation_target: x64(),
        enabled: true,
        parameters: StringMap::new(),
    };
    config_manager.add_adapter_config(adapter_config);
    let retrieved_adapter = config_manager.get_adapter_config("test_adapter");
    assert!(retrieved_adapter.is_some());
    assert_eq!(retrieved_adapter.unwrap().adapter_type, "test");
}

#[test]
fn test_function_mapping_management() {
    let mut config_manager = ConfigManager::new();
    let function_mapping = FunctionMapping {
        common_name: "test_function".to_string(),
        platform_mappings: {
            let mut mappings = StringMap::new();
            mappings.insert("jvm".to_string(), "testFunction".to_string());
            mappings.insert("msil_read".to_string(), "TestFunction".to_string());
            mappings
        },
        description: Some("测试函数映射".to_string()),
    };
    config_manager.add_function_mapping(function_mapping);
    let jvm_mapping = config_manager.get_function_mapping("test_function", "jvm");
    assert_eq!(jvm_mapping, Some("testFunction"));
    let msil_mapping = config_manager.get_function_mapping("test_function", "msil_read");
    assert_eq!(msil_mapping, Some("TestFunction"));
    let unknown_mapping = config_manager.get_function_mapping("test_function", "unknown");
    assert_eq!(unknown_mapping, None);
}

#[test]
fn test_global_settings_management() {
    let mut config_manager = ConfigManager::new();
    config_manager.set_global_setting("debug_mode".to_string(), "true".to_string());
    config_manager.set_global_setting("optimization_level".to_string(), "2".to_string());
    assert_eq!(config_manager.get_global_setting("debug_mode"), Some("true"));
    assert_eq!(config_manager.get_global_setting("optimization_level"), Some("2"));
    assert_eq!(config_manager.get_global_setting("nonexistent"), None);
}

#[test]
fn test_config_validation() {
    let config_manager = ConfigManager::new();
    let validation_result = config_manager.validate();
    match validation_result {
        Ok(()) => println!("配置验证通过"),
        Err(e) => println!("配置验证失败: {:?}", e),
    }
}

#[test]
fn test_default_config_content() {
    let config_manager = ConfigManager::new();
    let config = config_manager.config();
    assert!(!config.platforms.is_empty(), "应该有默认平台配置");
    assert!(!config.function_mappings.is_empty(), "应该有默认函数映射");
    assert!(!config.global.default_output_dir.is_empty(), "应该有默认输出目录");
    println!("默认配置包含 {} 个平台", config.platforms.len());
    println!("默认配置包含 {} 个函数映射", config.function_mappings.len());
    println!("默认配置包含 {} 个适配器", config.adapters.len());
}

#[test]
fn global_setting_overwrite_keeps_last_value() {
    let mut m = ConfigManager::new();
    m.set_global_setting("k".to_string(), "1".to_string());
    m.set_global_setting("other".to_string(), "x".to_string());
    m.set_global_setting("k".to_string(), "2".to_string());
    assert_eq!(m.get_global_setting("k"), Some("2"));
    assert_eq!(m.get_global_setting("other"), Some("x"));
}

#[test]
fn default_settings_values() {
    let s = GaiaSettings::default();
    assert_eq!(s.version, "1.0.0");
    assert_eq!(s.global.default_output_dir, "./target");
    assert!(!s.global.debug_mode);
    assert_eq!(s.platforms.len(), 2);
    assert_eq!(s.platforms[0].1.description.as_deref(), Some("Windows x64 Native"));
    assert_eq!(s.platforms[1].1.description.as_deref(), Some(".NET CLR v4.0"));
    assert_eq!(s.platforms[1].1.supported_architectures, vec!["msil".to_string()]);
    assert_eq!(s.function_mappings.len(), 5);
    assert_eq!(s.function_mappings[0].common_name, "__builtin_print");
    assert_eq!(s.function_mappings[0].platform_mappings.get("WASI").map(|v| v.as_str()), Some("wasi_print"));
    assert_eq!(s.function_mappings[2].platform_mappings.get("JVM").map(|v| v.as_str()), Some("System.gc"));
    assert_eq!(s.function_mappings[3].common_name, "__builtin_println");
    assert_eq!(s.function_mappings[4].common_name, "__builtin_read");
    let keys: Vec<&str> = (0..s.function_mappings[1].platform_mappings.len())
        .map(|i| s.function_mappings[1].platform_mappings.entry_at(i).0.as_str())
        .collect();
    assert_eq!(keys, vec!["PE", "IL", "JVM", "WASI"]);
    assert!(s.adapters.is_empty());
    let g = GlobalConfig::default();
    assert_eq!(g.default_output_dir, "./target");
}

#[test]
fn default_mapper_applies_settings_over_builtins() {
    let mapper = FunctionMapper::new();
    let jvm = gaia_assembler::target::jvm_target();
    let il = gaia_assembler::target::il_target();
    let pe = gaia_assembler::target::pe_target();
    let wasi = gaia_assembler::target::wasi_target();
    assert_eq!(mapper.map_function(&jvm, "malloc"), Some("java.nio.ByteBuffer.allocateDirect"));
    assert_eq!(mapper.map_function(&il, "print"), Some("void [mscorlib]System.Console::WriteLine(string)"));
    assert_eq!(mapper.map_function(&il, "console.log"), Some("void [mscorlib]System.Console::WriteLine(string)"));
    assert_eq!(mapper.map_function(&pe, "print"), Some("printf"));
    assert_eq!(mapper.map_function(&pe, "console.read"), Some("gets_s"));
    assert_eq!(mapper.map_function(&wasi, "console.write"), Some("wasi_print"));
    assert_eq!(mapper.map_function(&wasi, "custom_function"), None);
}

#[test]
fn mapper_lowercase_platform_names_are_uppercased() {
    let mut settings = GaiaSettings::default();
    let mut entries = StringMap::new();
    entries.insert("jvm".to_string(), "myPrint".to_string());
    entries.insert("mystery".to_string(), "nothing".to_string());
    settings.function_mappings.push(FunctionMapping {
        common_name: "__builtin_print".to_string(),
        platform_mappings: entries,
        description: None,
    });
    let mapper = FunctionMapper::from_settings(&settings);
    let jvm = gaia_assembler::target::jvm_target();
    assert_eq!(mapper.map_function(&jvm, "__builtin_print"), Some("myPrint"));
    assert_eq!(mapper.map_function(&jvm, "print"), Some("myPrint"));
    assert_eq!(mapper.map_function(&jvm, "console.write"), Some("myPrint"));
}

#[test]
fn test_backend_mappings() {
    let mut mapper = FunctionMapper::new();
    let target = CompilationTarget {
        build: Architecture::CLR,
        host: AbiCompatible::MicrosoftIntermediateLanguage,
        target: ApiCompatible::ClrRuntime(4),
    };
    mapper.add_mapping(&target, "print", "Console.WriteLine");
    mapper.add_mapping(&target, "malloc", "Marshal.AllocHGlobal");
    let mapped = mapper.map_function(&target, "print");
    assert_eq!(mapped, Some("Console.WriteLine"));
}

#[test]
fn mapper_read_after_write_on_new_target() {
    let mut mapper = FunctionMapper::empty();
    let t = CompilationTarget { build: Architecture::RISCV64, host: AbiCompatible::ELF, target: ApiCompatible::Linux };
    assert_eq!(mapper.map_function(&t, "f"), None);
    mapper.add_mapping(&t, "f", "g");
    mapper.add_mapping(&t, "f", "h");
    assert_eq!(mapper.map_function(&t, "f"), Some("h"));
    assert_eq!(mapper.map_function(&x64(), "f"), None);
}

#[test]
fn earlier_entries_shadow_later_ones() {
    let mut config_manager = ConfigManager::new();
    let adapter = |kind: &str| AdapterConfigEntry {
        name: "dup".to_string(),
        adapter_type: kind.to_string(),
        compilation_target: x64(),
        enabled: true,
        parameters: StringMap::new(),
    };
    config_manager.add_adapter_config(adapter("first"));
    config_manager.add_adapter_config(adapter("second"));
    assert_eq!(config_manager.get_adapter_config("dup").unwrap().adapter_type, "first");
    assert!(config_manager.get_adapter_config("other").is_none());
    let mut mappings = StringMap::new();
    mappings.insert("PE".to_string(), "my_malloc".to_string());
    config_manager.add_function_mapping(FunctionMapping {
        common_name: "malloc".to_string(),
        platform_mappings: mappings,
        description: None,
    });
    assert_eq!(config_manager.get_function_mapping("malloc", "PE"), Some("HeapAlloc"));
}
