use gaia_assembler::assembler::{compile_to_platform, select_backend, BackendKind, CompiledArtifact, GaiaAssembler};
use gaia_assembler::backends::{ClrArtifact, ClrBackend, JvmBackend, WasiBackend};
use gaia_assembler::error::GaiaError;
use gaia_assembler::program::{GaiaBlock, GaiaFunction, GaiaModule, GaiaTerminator};
use gaia_assembler::target::{AbiCompatible, ApiCompatible, Architecture, CompilationTarget};
use gaia_assembler::types::{GaiaSignature, GaiaType};

fn target(build: Architecture, host: AbiCompatible, api: ApiCompatible) -> CompilationTarget {
    CompilationTarget { build, host, target: api }
}

fn simple_program() -> GaiaModule {
    GaiaModule {
        name: "simple_test".to_string(),
        functions: vec![GaiaFunction {
            name: "main".to_string(),
            signature: GaiaSignature { params: vec![], return_type: GaiaType::Void },
            blocks: vec![GaiaBlock { label: "entry".to_string(), instructions: vec![], terminator: GaiaTerminator::Return }],
            is_external: false,
        }],
        structs: vec![],
        classes: vec![],
        constants: vec![],
        globals: vec![],
        imports: vec![],
    }
}

#[test]
fn test_backend_compatibility() {
    let target = target(Architecture::X86_64, AbiCompatible::PE, ApiCompatible::MicrosoftVisualC);
    let scores = [
        ("JVM", JvmBackend::default().match_score(&target)),
        ("MSIL", ClrBackend::default().match_score(&target)),
        ("WASI", WasiBackend::default().match_score(&target)),
    ];
    for (name, score) in scores {
        let score = score as f64;
        assert!(score >= 0.0 && score <= 1.0, "backend {} score {} out of range", name, score);
    }
}

#[test]
fn backends_in_dispatch_order() {
    assert_eq!(
        GaiaAssembler::new().backends(),
        vec![BackendKind::Clr, BackendKind::Jvm, BackendKind::Pe, BackendKind::Wasi]
    );
}

#[test]
fn select_backend_by_host_first() {
    assert_eq!(select_backend(&target(Architecture::CLR, AbiCompatible::MicrosoftIntermediateLanguage, ApiCompatible::ClrRuntime(4))), Some(0));
    assert_eq!(select_backend(&target(Architecture::JVM, AbiCompatible::Unknown, ApiCompatible::JvmRuntime(8))), Some(1));
    assert_eq!(select_backend(&target(Architecture::X86_64, AbiCompatible::PE, ApiCompatible::MicrosoftVisualC)), Some(2));
    assert_eq!(select_backend(&target(Architecture::WASM32, AbiCompatible::WebAssemblyTextFormat, ApiCompatible::WASI)), Some(3));
    // an unknown host is the JVM backend's primary host, whatever the build
    assert_eq!(select_backend(&target(Architecture::WASM32, AbiCompatible::Unknown, ApiCompatible::WASI)), Some(1));
}

#[test]
fn select_backend_by_score_then_none() {
    // no primary host is Java assembly; the JVM backend scores it 5
    assert_eq!(select_backend(&target(Architecture::JVM, AbiCompatible::JavaAssembly, ApiCompatible::JvmRuntime(8))), Some(1));
    // nothing supports ELF
    assert_eq!(select_backend(&target(Architecture::X86_64, AbiCompatible::ELF, ApiCompatible::Linux)), None);
}

#[test]
fn compile_dispatches_to_the_backend() {
    let program = simple_program();
    let a = GaiaAssembler::new();
    match a.compile(&program, &target(Architecture::JVM, AbiCompatible::Unknown, ApiCompatible::JvmRuntime(8))) {
        Ok(CompiledArtifact::Jvm(p)) => assert_eq!(p.name, "simple_test"),
        _ => panic!("expected a class"),
    }
    match a.compile(&program, &target(Architecture::CLR, AbiCompatible::MicrosoftIntermediateLanguage, ApiCompatible::ClrRuntime(4))) {
        Ok(CompiledArtifact::Clr(ClrArtifact::IlText(t))) => {
            assert!(String::from_utf8(t).unwrap().starts_with(".assembly simple_test {}\n"))
        }
        _ => panic!("expected IL text"),
    }
    match a.compile(&program, &target(Architecture::X86_64, AbiCompatible::PE, ApiCompatible::MicrosoftVisualC)) {
        Ok(CompiledArtifact::Pe { image, imports }) => {
            assert_eq!(image.call_exit_pos, 18);
            let names: Vec<String> = imports.iter().map(|g| g.dll_name.clone()).collect();
            assert_eq!(names, vec!["nyar_runtime.dll".to_string(), "kernel32.dll".to_string()]);
        }
        _ => panic!("expected native code"),
    }
    match a.compile(&program, &target(Architecture::WASM32, AbiCompatible::WebAssemblyTextFormat, ApiCompatible::WASI)) {
        Ok(CompiledArtifact::Wasi(p)) => assert_eq!(p.functions.len(), 1),
        _ => panic!("expected a WebAssembly program"),
    }
}

#[test]
fn compile_unsupported_target() {
    let t = target(Architecture::X86_64, AbiCompatible::ELF, ApiCompatible::Linux);
    match compile_to_platform(&simple_program(), t) {
        Err(GaiaError::UnsupportedTarget { target }) => assert_eq!(target.host, AbiCompatible::ELF),
        _ => panic!("expected an unsupported target"),
    }
}
