use gaia_assembler::assembler::{compile_to_platform, primary_target_of, score_of, BackendKind, CompiledArtifact, GaiaAssembler};
use gaia_assembler::backends::ClrArtifact;
use gaia_assembler::error::GaiaError;
use gaia_assembler::instruction::{CoreInstruction, GaiaInstruction};
use gaia_assembler::program::{GaiaBlock, GaiaConstant, GaiaFunction, GaiaGlobal, GaiaModule, GaiaTerminator};
use gaia_assembler::target::{AbiCompatible, ApiCompatible, Architecture, CompilationTarget};
use gaia_assembler::types::{GaiaSignature, GaiaType};

fn function(name: &str, params: Vec<GaiaType>, ret: GaiaType, instructions: Vec<GaiaInstruction>) -> GaiaFunction {
    GaiaFunction {
        name: name.to_string(),
        signature: GaiaSignature { params, return_type: ret },
        blocks: vec![GaiaBlock { label: "entry".to_string(), instructions, terminator: GaiaTerminator::Return }],
        is_external: false,
    }
}

fn module(name: &str, functions: Vec<GaiaFunction>, globals: Vec<GaiaGlobal>) -> GaiaModule {
    GaiaModule { name: name.to_string(), functions, structs: vec![], classes: vec![], constants: vec![], globals, imports: vec![] }
}

fn core_instr(c: CoreInstruction) -> GaiaInstruction {
    GaiaInstruction::Core(c)
}

fn create_test_program() -> GaiaModule {
    module("test_program", vec![function("main", vec![], GaiaType::Void, vec![])], vec![])
}

fn create_hello_world_program() -> GaiaModule {
    module(
        "hello_world",
        vec![function(
            "main",
            vec![],
            GaiaType::Void,
            vec![
                core_instr(CoreInstruction::PushConstant(GaiaConstant::String("Hello, World!".to_string()))),
                core_instr(CoreInstruction::Call("print".to_string(), 1)),
            ],
        )],
        vec![],
    )
}

fn create_multi_function_program() -> GaiaModule {
    module(
        "multi_function",
        vec![
            function("main", vec![], GaiaType::Void, vec![core_instr(CoreInstruction::Call("helper".to_string(), 0))]),
            function("helper", vec![], GaiaType::I32, vec![core_instr(CoreInstruction::PushConstant(GaiaConstant::I32(42)))]),
        ],
        vec![],
    )
}

fn create_program_with_globals() -> GaiaModule {
    module(
        "with_globals",
        vec![function("main", vec![], GaiaType::Void, vec![])],
        vec![GaiaGlobal { name: "counter".to_string(), ty: GaiaType::I32, initial_value: Some(GaiaConstant::I32(0)) }],
    )
}

fn create_complex_test_program() -> GaiaModule {
    module(
        "complex_test_program",
        vec![
            function(
                "main",
                vec![],
                GaiaType::Void,
                vec![
                    core_instr(CoreInstruction::PushConstant(GaiaConstant::I32(42))),
                    core_instr(CoreInstruction::StoreLocal(0, GaiaType::I32)),
                    core_instr(CoreInstruction::LoadLocal(0, GaiaType::I32)),
                ],
            ),
            function("helper", vec![GaiaType::I32, GaiaType::I32], GaiaType::I32, vec![]),
        ],
        vec![],
    )
}

fn empty_program() -> GaiaModule {
    module("empty", vec![], vec![])
}

fn x64_pe() -> CompilationTarget {
    CompilationTarget { build: Architecture::X86_64, host: AbiCompatible::PE, target: ApiCompatible::MicrosoftVisualC }
}

/// What an artifact holds, counted in its own units (bytes of code or text,
/// methods, functions).
fn size(a: &CompiledArtifact) -> usize {
    match a {
        CompiledArtifact::Clr(ClrArtifact::IlText(t)) => t.len(),
        CompiledArtifact::Clr(ClrArtifact::Assembly(p)) => p.global_methods.len() + p.types.len(),
        CompiledArtifact::Jvm(p) => p.methods.len(),
        CompiledArtifact::Pe { image, .. } => image.code.len(),
        CompiledArtifact::Wasi(p) => p.functions.len() + p.imports.len(),
    }
}

fn find_backend(part: &str) -> BackendKind {
    GaiaAssembler::new()
        .backends()
        .into_iter()
        .find(|b| b.name().to_lowercase().contains(part))
        .expect("backend")
}

#[test]
fn test_basic_compilation() {
    let compiler = GaiaAssembler::new();
    match compiler.compile(&create_hello_world_program(), &x64_pe()) {
        Ok(a) => assert!(size(&a) > 0),
        Err(_) => {}
    }
}

#[test]
fn test_multi_function_compilation() {
    let compiler = GaiaAssembler::new();
    match compiler.compile(&create_multi_function_program(), &x64_pe()) {
        Ok(a) => assert!(size(&a) > 0),
        Err(_) => {}
    }
}

#[test]
fn test_global_variables_compilation() {
    let compiler = GaiaAssembler::new();
    match compiler.compile(&create_program_with_globals(), &x64_pe()) {
        Ok(a) => assert!(size(&a) > 0),
        Err(_) => {}
    }
}

#[test]
fn test_compile_to_all_platforms() {
    let compiler = GaiaAssembler::new();
    let program = create_test_program();
    let mut results = Vec::new();
    for backend in compiler.backends() {
        let target = primary_target_of(backend);
        match compiler.compile(&program, &target) {
            Ok(a) => results.push((target, a)),
            Err(_) => {}
        }
    }
    for (_, a) in results {
        assert!(size(&a) > 0);
    }
}

#[test]
fn test_best_backend_selection() {
    let compiler = GaiaAssembler::new();
    let target = x64_pe();
    let mut best_score = 0;
    let mut best_backend_name = String::new();
    for backend in compiler.backends() {
        let score = score_of(backend, &target);
        if score > best_score {
            best_score = score;
            best_backend_name = backend.name().to_string();
        }
    }
    assert!(best_score > 0);
    assert_eq!(best_backend_name, "PE");
}

#[test]
fn test_compiler_error_handling() {
    let compiler = GaiaAssembler::new();
    match compiler.compile(&empty_program(), &x64_pe()) {
        Ok(_) => {}
        Err(_) => {}
    }
}

#[test]
fn test_convenience_functions() {
    let program = create_test_program();
    match compile_to_platform(&program, x64_pe()) {
        Ok(a) => assert!(size(&a) > 0),
        Err(_) => {}
    }
    let compiler = GaiaAssembler::new();
    let mut results = Vec::new();
    for backend in compiler.backends() {
        let target = primary_target_of(backend);
        if let Ok(a) = compiler.compile(&program, &target) {
            results.push((target, a));
        }
    }
    assert_eq!(results.len(), 4);
}

#[test]
fn integration_tests_test_compiler_creation() {
    let compiler = GaiaAssembler::new();
    let backends = compiler.backends();
    assert_eq!(backends.len(), 4);
    let backend_names: Vec<String> = backends.iter().map(|b| b.name().to_string()).collect();
    assert!(backend_names.contains(&"JVM".to_string()));
    assert!(backend_names.contains(&"MSIL".to_string()));
    assert!(backend_names.contains(&"PE".to_string()));
    assert!(backend_names.contains(&"WASI".to_string()));
}

#[test]
fn test_compilation_targets() {
    let compiler = GaiaAssembler::new();
    for target in [x64_pe()] {
        let scores: Vec<i32> = compiler.backends().iter().map(|b| score_of(*b, &target)).collect();
        let max_score = scores.iter().fold(0, |a, &b| a.max(b));
        assert!(max_score > 0);
    }
}

#[test]
fn test_simple_program_compilation() {
    let compiler = GaiaAssembler::new();
    let target = CompilationTarget {
        build: Architecture::CLR,
        host: AbiCompatible::MicrosoftIntermediateLanguage,
        target: ApiCompatible::ClrRuntime(4),
    };
    match compiler.compile(&create_test_program(), &target) {
        Ok(a) => assert!(size(&a) > 0),
        Err(_) => {}
    }
}

#[test]
fn test_compile_all_platforms() {
    let compiler = GaiaAssembler::new();
    let program = create_test_program();
    let mut results = Vec::new();
    for backend in compiler.backends() {
        let target = primary_target_of(backend);
        if let Ok(a) = compiler.compile(&program, &target) {
            results.push((target, a));
        }
    }
    assert!(!results.is_empty());
    for (_, a) in results {
        assert!(size(&a) > 0);
    }
}

#[test]
fn test_end_to_end_compilation() {
    let compiler = GaiaAssembler::new();
    let target = CompilationTarget { build: Architecture::X86_64, host: AbiCompatible::Unknown, target: ApiCompatible::Unknown };
    match compiler.compile(&create_test_program(), &target) {
        Ok(a) => assert!(size(&a) > 0),
        Err(_) => {}
    }
}

#[test]
fn test_error_handling() {
    let compiler = GaiaAssembler::new();
    match compiler.compile(&empty_program(), &x64_pe()) {
        Ok(_) => {}
        Err(_) => {}
    }
}

#[test]
fn test_backend_selection() {
    let compiler = GaiaAssembler::new();
    let program = create_test_program();
    let targets = vec![
        x64_pe(),
        CompilationTarget { build: Architecture::JVM, host: AbiCompatible::JavaAssembly, target: ApiCompatible::JvmRuntime(8) },
        CompilationTarget {
            build: Architecture::CLR,
            host: AbiCompatible::MicrosoftIntermediateLanguage,
            target: ApiCompatible::ClrRuntime(4),
        },
        CompilationTarget { build: Architecture::WASM32, host: AbiCompatible::WebAssemblyTextFormat, target: ApiCompatible::WASI },
    ];
    for target in targets {
        match compiler.compile(&program, &target) {
            Ok(_) => {}
            Err(_) => {}
        }
    }
}

#[test]
fn test_complex_program_compilation() {
    let compiler = GaiaAssembler::new();
    let target = CompilationTarget { build: Architecture::X86_64, host: AbiCompatible::Unknown, target: ApiCompatible::Unknown };
    match compiler.compile(&create_complex_test_program(), &target) {
        Ok(a) => assert!(size(&a) > 0),
        Err(_) => {}
    }
}

fn backend_test(part: &str, target: CompilationTarget) {
    let program = create_test_program();
    let backend = find_backend(part);
    let score = score_of(backend, &target);
    if score > 0 {
        match GaiaAssembler::new().compile(&program, &target) {
            Ok(_) => {}
            Err(_) => {}
        }
    }
}

#[test]
fn test_jvm_backend() {
    backend_test(
        "jvm",
        CompilationTarget { build: Architecture::JVM, host: AbiCompatible::JavaAssembly, target: ApiCompatible::JvmRuntime(8) },
    );
}

#[test]
fn test_msil_backend() {
    backend_test(
        "msil",
        CompilationTarget {
            build: Architecture::CLR,
            host: AbiCompatible::MicrosoftIntermediateLanguage,
            target: ApiCompatible::ClrRuntime(4),
        },
    );
}

#[test]
fn test_pe_backend() {
    backend_test("pe", x64_pe());
}

#[test]
fn test_wasi_backend() {
    backend_test(
        "wasi",
        CompilationTarget { build: Architecture::WASM32, host: AbiCompatible::WebAssemblyTextFormat, target: ApiCompatible::WASI },
    );
}

#[test]
fn test_backend_error_handling() {
    let compiler = GaiaAssembler::new();
    let invalid_program = empty_program();
    for backend in compiler.backends() {
        match compiler.compile(&invalid_program, &primary_target_of(backend)) {
            Ok(_) => {}
            Err(_) => {}
        }
    }
}

#[test]
fn test_backend_performance() {
    let compiler = GaiaAssembler::new();
    let program = create_complex_test_program();
    let target = x64_pe();
    for backend in compiler.backends() {
        if score_of(backend, &target) > 0 {
            let start = std::time::Instant::now();
            let _ = compiler.compile(&program, &target);
            let _ = start.elapsed();
        }
    }
}

#[test]
fn test_backend_compilation() {
    let program = create_test_program();
    let compiler = GaiaAssembler::new();
    for backend in compiler.backends() {
        match compiler.compile(&program, &primary_target_of(backend)) {
            Ok(a) => assert!(size(&a) > 0),
            Err(_) => {}
        }
    }
}

#[test]
fn unsupported_target_is_refused() {
    let t = CompilationTarget { build: Architecture::NvSass, host: AbiCompatible::PTX, target: ApiCompatible::Unknown };
    assert!(matches!(GaiaAssembler::new().compile(&create_test_program(), &t), Err(GaiaError::UnsupportedTarget { .. })));
}
