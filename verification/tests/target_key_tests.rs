use gaia_assembler::target::{AbiCompatible, ApiCompatible, Architecture, CompilationTarget};
use gaia_assembler::target_key::{parse_target, target_to_key};

#[test]
fn target_key_text() {
    let t = CompilationTarget { build: Architecture::CLR, host: AbiCompatible::MicrosoftIntermediateLanguage, target: ApiCompatible::ClrRuntime(4) };
    assert_eq!(target_to_key(&t), "CLR-MicrosoftIntermediateLanguage-ClrRuntime4");
    let x = CompilationTarget { build: Architecture::X86_64, host: AbiCompatible::PE, target: ApiCompatible::MicrosoftVisualC };
    assert_eq!(target_to_key(&x), "X86_64-PE-MicrosoftVisualC");
}

#[test]
fn target_key_round_trip() {
    let targets = vec![
        CompilationTarget { build: Architecture::JVM, host: AbiCompatible::JavaAssembly, target: ApiCompatible::JvmRuntime(8) },
        CompilationTarget { build: Architecture::Other("arm".to_string()), host: AbiCompatible::ELF, target: ApiCompatible::Linux },
        CompilationTarget { build: Architecture::WASM64, host: AbiCompatible::WebAssemblyTextFormat, target: ApiCompatible::WASI },
    ];
    for t in targets {
        let back = parse_target(&target_to_key(&t)).unwrap();
        assert_eq!(target_to_key(&back), target_to_key(&t));
        assert_eq!(back.host, t.host);
        assert_eq!(back.target, t.target);
    }
}

#[test]
fn target_key_errors() {
    assert_eq!(parse_target("X86_64-PE").unwrap_err(), "Invalid compilation target string: X86_64-PE");
    assert_eq!(parse_target("X86_64-PE-Windows").unwrap_err(), "Invalid compilation target string: X86_64-PE-Windows");
    assert_eq!(parse_target("CLR-PE-ClrRuntimeX").unwrap_err(), "Invalid compilation target string: CLR-PE-ClrRuntimeX");
    match parse_target("sparc-ELF-Unknown").unwrap().build {
        Architecture::Other(s) => assert_eq!(s, "sparc"),
        _ => panic!("expected another architecture"),
    }
}
