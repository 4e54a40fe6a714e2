use gaia_assembler::adapters::FunctionMapper;
use gaia_assembler::target::{AbiCompatible, ApiCompatible, Architecture, CompilationTarget};

fn il() -> CompilationTarget {
    CompilationTarget { build: Architecture::CLR, host: AbiCompatible::MicrosoftIntermediateLanguage, target: ApiCompatible::ClrRuntime(4) }
}

fn jvm() -> CompilationTarget {
    CompilationTarget { build: Architecture::JVM, host: AbiCompatible::JavaAssembly, target: ApiCompatible::JvmRuntime(8) }
}

fn pe() -> CompilationTarget {
    CompilationTarget { build: Architecture::X86_64, host: AbiCompatible::PE, target: ApiCompatible::MicrosoftVisualC }
}

fn wasi() -> CompilationTarget {
    CompilationTarget { build: Architecture::WASM32, host: AbiCompatible::WebAssemblyTextFormat, target: ApiCompatible::WASI }
}

/// The mapped name, or the name itself where nothing is mapped.
fn map<'a>(mapper: &'a FunctionMapper, name: &'a str, target: &CompilationTarget) -> &'a str {
    mapper.map_function(target, name).unwrap_or(name)
}

#[test]
fn test_builtin_print_mapping() {
    let mapper = FunctionMapper::new();
    assert_eq!(map(&mapper, "__builtin_print", &il()), "void [mscorlib]System.Console::WriteLine(string)");
    assert_eq!(map(&mapper, "__builtin_print", &jvm()), "java.lang.System.out.println");
    assert_eq!(map(&mapper, "__builtin_print", &pe()), "printf");
    assert_eq!(map(&mapper, "__builtin_print", &wasi()), "wasi_print");
}

#[test]
fn test_memory_allocation_mapping() {
    let mapper = FunctionMapper::new();
    assert_eq!(map(&mapper, "malloc", &il()), "System.Runtime.InteropServices.Marshal.AllocHGlobal");
    assert_eq!(map(&mapper, "malloc", &jvm()), "java.nio.ByteBuffer.allocateDirect");
    assert_eq!(map(&mapper, "malloc", &pe()), "HeapAlloc");
    assert_eq!(map(&mapper, "malloc", &wasi()), "malloc");
}

#[test]
fn test_unmapped_function() {
    let mapper = FunctionMapper::new();
    assert_eq!(map(&mapper, "custom_function", &il()), "custom_function");
    assert_eq!(map(&mapper, "user_defined_func", &jvm()), "user_defined_func");
}

#[test]
fn test_additional_builtin_functions() {
    let mapper = FunctionMapper::new();
    assert_eq!(map(&mapper, "__builtin_println", &pe()), "puts");
    assert_eq!(map(&mapper, "__builtin_read", &jvm()), "java.util.Scanner.nextLine");
}
