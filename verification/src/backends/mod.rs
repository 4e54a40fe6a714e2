//! Backends: compilers from the tiered representation to each platform.
//! Each backend has a name, a primary target, and a score saying how well
//! it fits a requested target (a whole number; higher is better, negative
//! means unsuitable).
use vstd::prelude::*;
use crate::config::GaiaConfig;
use crate::error::GaiaError;
use crate::program::GaiaModule;
use crate::text::{owned, push_str};
use crate::target_key::{abi_name, abi_text};
use crate::target::{AbiCompatible, ApiCompatible, Architecture, ArchitectureView, CompilationTarget, TargetView};

pub mod clr;
pub mod gpu;
pub mod jvm;
pub mod msil;
pub mod pe;
pub mod wasi;
pub mod x86;
pub mod x86_link;
pub mod x86_model;
pub mod int_ops;
pub mod jvm_model;
pub mod il_model;
pub mod wasi_model;
pub use self::gpu::{GcnBackend, SassBackend};

verus! {

/// The files a backend produces, by name, and its diagnostics.
#[derive(Debug)]
pub struct GeneratedFiles {
    pub files: Vec<(String, Vec<u8>)>,
    pub diagnostics: Vec<GaiaError>,
}

/// No files and no diagnostics.
pub open spec fn nothing_generated(g: GeneratedFiles) -> bool {
    g.files@.len() == 0 && g.diagnostics@.len() == 0
}

fn no_files() -> (r: GeneratedFiles)
    ensures
        nothing_generated(r),
{
    GeneratedFiles { files: Vec::new(), diagnostics: Vec::new() }
}

/// The ELF backend; code generation for it is not written yet.
#[derive(Debug, Default)]
pub struct ElfBackend {}

impl ElfBackend {
    pub fn name(&self) -> (r: &'static str)
        ensures
            r@ == "ELF"@,
    {
        "ELF"
    }

    pub fn primary_target(&self) -> (r: CompilationTarget)
        ensures
            r@ == (TargetView { build: ArchitectureView::X86_64, host: AbiCompatible::ELF, target: ApiCompatible::Linux }),
    {
        CompilationTarget { build: Architecture::X86_64, host: AbiCompatible::ELF, target: ApiCompatible::Linux }
    }

    /// 80 for the ELF host, 0 otherwise.
    pub fn match_score(&self, target: &CompilationTarget) -> (r: i32)
        ensures
            r == (if target.host == AbiCompatible::ELF { 80i32 } else { 0i32 }),
    {
        if target.host == AbiCompatible::ELF {
            return 80;
        }
        0
    }

    /// Generates nothing yet: no files and no diagnostics.
    pub fn generate(&self, program: &GaiaModule, config: &GaiaConfig) -> (r: Result<GeneratedFiles, GaiaError>)
        ensures
            r matches Ok(g) && nothing_generated(g),
    {
        Ok(no_files())
    }
}

/// The LLVM backend; code generation for it is not written yet.
#[derive(Debug, Default)]
pub struct LlvmBackend {}

impl LlvmBackend {
    pub fn name(&self) -> (r: &'static str)
        ensures
            r@ == "LLVM"@,
    {
        "LLVM"
    }

    pub fn primary_target(&self) -> (r: CompilationTarget)
        ensures
            r@ == (TargetView { build: ArchitectureView::Unknown, host: AbiCompatible::LlvmIr, target: ApiCompatible::Unknown }),
    {
        CompilationTarget { build: Architecture::Unknown, host: AbiCompatible::LlvmIr, target: ApiCompatible::Unknown }
    }

    /// 80 for the LlvmIr host, 0 otherwise.
    pub fn match_score(&self, target: &CompilationTarget) -> (r: i32)
        ensures
            r == (if target.host == AbiCompatible::LlvmIr { 80i32 } else { 0i32 }),
    {
        if target.host == AbiCompatible::LlvmIr {
            return 80;
        }
        0
    }

    /// Generates nothing yet: no files and no diagnostics.
    pub fn generate(&self, program: &GaiaModule, config: &GaiaConfig) -> (r: Result<GeneratedFiles, GaiaError>)
        ensures
            r matches Ok(g) && nothing_generated(g),
    {
        Ok(no_files())
    }
}

/// The Lua backend; code generation for it is not written yet.
#[derive(Debug, Default)]
pub struct LuaBackend {}

impl LuaBackend {
    pub fn name(&self) -> (r: &'static str)
        ensures
            r@ == "Lua"@,
    {
        "Lua"
    }

    pub fn primary_target(&self) -> (r: CompilationTarget)
        ensures
            r@ == (TargetView { build: ArchitectureView::Unknown, host: AbiCompatible::LuaBytecode, target: ApiCompatible::Unknown }),
    {
        CompilationTarget { build: Architecture::Unknown, host: AbiCompatible::LuaBytecode, target: ApiCompatible::Unknown }
    }

    /// 80 for the LuaBytecode host, 0 otherwise.
    pub fn match_score(&self, target: &CompilationTarget) -> (r: i32)
        ensures
            r == (if target.host == AbiCompatible::LuaBytecode { 80i32 } else { 0i32 }),
    {
        if target.host == AbiCompatible::LuaBytecode {
            return 80;
        }
        0
    }

    /// Generates nothing yet: no files and no diagnostics.
    pub fn generate(&self, program: &GaiaModule, config: &GaiaConfig) -> (r: Result<GeneratedFiles, GaiaError>)
        ensures
            r matches Ok(g) && nothing_generated(g),
    {
        Ok(no_files())
    }
}

/// The Mach-O backend; code generation for it is not written yet.
#[derive(Debug, Default)]
pub struct MachoBackend {}

impl MachoBackend {
    pub fn name(&self) -> (r: &'static str)
        ensures
            r@ == "Mach-O"@,
    {
        "Mach-O"
    }

    pub fn primary_target(&self) -> (r: CompilationTarget)
        ensures
            r@ == (TargetView { build: ArchitectureView::X86_64, host: AbiCompatible::MachO, target: ApiCompatible::Apple }),
    {
        CompilationTarget { build: Architecture::X86_64, host: AbiCompatible::MachO, target: ApiCompatible::Apple }
    }

    /// 80 for the MachO host, 0 otherwise.
    pub fn match_score(&self, target: &CompilationTarget) -> (r: i32)
        ensures
            r == (if target.host == AbiCompatible::MachO { 80i32 } else { 0i32 }),
    {
        if target.host == AbiCompatible::MachO {
            return 80;
        }
        0
    }

    /// Generates nothing yet: no files and no diagnostics.
    pub fn generate(&self, program: &GaiaModule, config: &GaiaConfig) -> (r: Result<GeneratedFiles, GaiaError>)
        ensures
            r matches Ok(g) && nothing_generated(g),
    {
        Ok(no_files())
    }
}

/// The MSL backend; code generation for it is not written yet.
#[derive(Debug, Default)]
pub struct MslBackend {}

impl MslBackend {
    pub fn name(&self) -> (r: &'static str)
        ensures
            r@ == "MSL"@,
    {
        "MSL"
    }

    pub fn primary_target(&self) -> (r: CompilationTarget)
        ensures
            r@ == (TargetView { build: ArchitectureView::Unknown, host: AbiCompatible::MSL, target: ApiCompatible::Metal }),
    {
        CompilationTarget { build: Architecture::Unknown, host: AbiCompatible::MSL, target: ApiCompatible::Metal }
    }

    /// 80 for the MSL host, 0 otherwise.
    pub fn match_score(&self, target: &CompilationTarget) -> (r: i32)
        ensures
            r == (if target.host == AbiCompatible::MSL { 80i32 } else { 0i32 }),
    {
        if target.host == AbiCompatible::MSL {
            return 80;
        }
        0
    }

    /// Generates nothing yet: no files and no diagnostics.
    pub fn generate(&self, program: &GaiaModule, config: &GaiaConfig) -> (r: Result<GeneratedFiles, GaiaError>)
        ensures
            r matches Ok(g) && nothing_generated(g),
    {
        Ok(no_files())
    }
}

/// The Python backend; code generation for it is not written yet.
#[derive(Debug, Default)]
pub struct PythonBackend {}

impl PythonBackend {
    pub fn name(&self) -> (r: &'static str)
        ensures
            r@ == "Python"@,
    {
        "Python"
    }

    pub fn primary_target(&self) -> (r: CompilationTarget)
        ensures
            r@ == (TargetView { build: ArchitectureView::Unknown, host: AbiCompatible::PythonBytecode, target: ApiCompatible::Unknown }),
    {
        CompilationTarget { build: Architecture::Unknown, host: AbiCompatible::PythonBytecode, target: ApiCompatible::Unknown }
    }

    /// 90 for the PythonBytecode host, 0 otherwise.
    pub fn match_score(&self, target: &CompilationTarget) -> (r: i32)
        ensures
            r == (if target.host == AbiCompatible::PythonBytecode { 90i32 } else { 0i32 }),
    {
        if target.host == AbiCompatible::PythonBytecode {
            return 90;
        }
        0
    }

    /// Generates nothing yet: no files and no diagnostics.
    pub fn generate(&self, program: &GaiaModule, config: &GaiaConfig) -> (r: Result<GeneratedFiles, GaiaError>)
        ensures
            r matches Ok(g) && nothing_generated(g),
    {
        Ok(no_files())
    }
}

/// The SPIR-V backend; code generation for it is not written yet.
#[derive(Debug, Default)]
pub struct SpirvBackend {}

impl SpirvBackend {
    pub fn name(&self) -> (r: &'static str)
        ensures
            r@ == "SPIR-V"@,
    {
        "SPIR-V"
    }

    pub fn primary_target(&self) -> (r: CompilationTarget)
        ensures
            r@ == (TargetView { build: ArchitectureView::Unknown, host: AbiCompatible::SPIRV, target: ApiCompatible::Unknown }),
    {
        CompilationTarget { build: Architecture::Unknown, host: AbiCompatible::SPIRV, target: ApiCompatible::Unknown }
    }

    /// 95 for the SPIRV host, 0 otherwise.
    pub fn match_score(&self, target: &CompilationTarget) -> (r: i32)
        ensures
            r == (if target.host == AbiCompatible::SPIRV { 95i32 } else { 0i32 }),
    {
        if target.host == AbiCompatible::SPIRV {
            return 95;
        }
        0
    }

    /// Generates nothing yet: no files and no diagnostics.
    pub fn generate(&self, program: &GaiaModule, config: &GaiaConfig) -> (r: Result<GeneratedFiles, GaiaError>)
        ensures
            r matches Ok(g) && nothing_generated(g),
    {
        Ok(no_files())
    }
}

/// What lowering a module to a class gives for a host, with mapping table
/// `tb`: the first lowering error, else the class for an unknown host, the
/// disabled-output error for Java assembly, and an error naming any other
/// host.
pub open spec fn jvm_class_result(
    r: Result<jvm::JvmProgram, GaiaError>,
    program: GaiaModule,
    host: AbiCompatible,
    tb: crate::adapters::MappingTable,
) -> bool {
    let ft = jvm::module_field_types(program);
    match jvm::first_error(jvm::all_functions(program), tb, ft) {
        Some(e) => jvm::result_is(r, |p: jvm::JvmProgram| seq![], e),
        None => match host {
            AbiCompatible::Unknown => r matches Ok(p) && jvm::jvm_program_of(p, program, tb, ft),
            AbiCompatible::JavaAssembly => r matches Err(GaiaError::Custom { message }) && message@
                == "JASM output is currently disabled"@,
            h => r matches Err(GaiaError::Custom { message }) && message@ == "Unsupported host ABI: "@ + abi_name(h),
        },
    }
}

/// The JVM backend.
#[derive(Debug, Default)]
pub struct JvmBackend {}

impl JvmBackend {
    pub fn name(&self) -> (r: &'static str)
        ensures
            r@ == "JVM"@,
    {
        "JVM"
    }

    pub fn primary_target(&self) -> (r: CompilationTarget)
        ensures
            r@ == (TargetView { build: ArchitectureView::JVM, host: AbiCompatible::Unknown, target: ApiCompatible::JvmRuntime(8) }),
    {
        CompilationTarget { build: Architecture::JVM, host: AbiCompatible::Unknown, target: ApiCompatible::JvmRuntime(8) }
    }

    /// On the JVM: 80 for class files (unknown host), 5 for JVM assembly;
    /// 0 (not supported) otherwise.
    pub fn match_score(&self, target: &CompilationTarget) -> (r: i32)
        ensures
            r == (if target.build is JVM {
                if target.host == AbiCompatible::Unknown {
                    80i32
                } else if target.host == AbiCompatible::JavaAssembly {
                    5i32
                } else {
                    0i32
                }
            } else {
                0i32
            }),
    {
        match target.build {
            Architecture::JVM => match target.host {
                AbiCompatible::Unknown => 80,
                AbiCompatible::JavaAssembly => 5,
                _ => 0,
            },
            _ => 0,
        }
    }

    /// The JVM class of a module, with the default configuration.
    pub fn generate_program(program: &GaiaModule) -> (r: Result<jvm::JvmProgram, GaiaError>)
        ensures
            ({
                let tb = crate::adapters::default_mapper_table();
                let ft = jvm::module_field_types(*program);
                match jvm::first_error(jvm::all_functions(*program), tb, ft) {
                    Some(e) => jvm::result_is(r, |p: jvm::JvmProgram| seq![], e),
                    None => r matches Ok(p) && jvm::jvm_program_of(p, *program, tb, ft),
                }
            }),
    {
        let default_config = GaiaConfig::default();
        proof {
            crate::adapters::lemma_default_table(default_config.setting);
        }
        jvm::convert_gaia_to_jvm(program, &default_config)
    }

    /// The class a module compiles to for the configured target's host: the
    /// module is lowered first, as `convert_gaia_to_jvm` does with the
    /// configured mappings, and its error comes first; an unknown host takes
    /// the class (for a class file), Java assembly output is disabled, and
    /// other hosts are refused by name.
    pub fn generate_class(&self, program: &GaiaModule, config: &GaiaConfig) -> (r: Result<jvm::JvmProgram, GaiaError>)
        ensures
            jvm_class_result(
                r,
                *program,
                config.target.host,
                crate::adapters::apply_mappings(crate::adapters::default_table(), config.setting.function_mappings@),
            ),
    {
        proof {
            jvm::lemma_first_error_not_ops(
                jvm::all_functions(*program),
                crate::adapters::apply_mappings(crate::adapters::default_table(), config.setting.function_mappings@),
                jvm::module_field_types(*program),
            );
        }
        let p = match jvm::convert_gaia_to_jvm(program, config) {
            Ok(p) => p,
            Err(e) => {
                return Err(e);
            },
        };
        match config.target.host {
            AbiCompatible::Unknown => Ok(p),
            AbiCompatible::JavaAssembly => Err(GaiaError::custom_error("JASM output is currently disabled")),
            h => {
                let mut message = owned("Unsupported host ABI: ");
                push_str(&mut message, abi_text(h));
                Err(GaiaError::Custom { message })
            },
        }
    }
}

/// The WASI backend.
#[derive(Debug, Default)]
pub struct WasiBackend {}

impl WasiBackend {
    pub fn name(&self) -> (r: &'static str)
        ensures
            r@ == "WASI"@,
    {
        "WASI"
    }

    pub fn primary_target(&self) -> (r: CompilationTarget)
        ensures
            r@ == (TargetView { build: ArchitectureView::WASM32, host: AbiCompatible::WebAssemblyTextFormat, target: ApiCompatible::WASI }),
    {
        CompilationTarget { build: Architecture::WASM32, host: AbiCompatible::WebAssemblyTextFormat, target: ApiCompatible::WASI }
    }

    /// 10 for WebAssembly text; for an unknown host, 5 on WASM32; 0 (not
    /// supported) otherwise.
    pub fn match_score(&self, target: &CompilationTarget) -> (r: i32)
        ensures
            r == (if target.host == AbiCompatible::WebAssemblyTextFormat {
                10i32
            } else if target.host == AbiCompatible::Unknown {
                if target.build is WASM32 {
                    5i32
                } else if target.build is WASM64 {
                    0i32
                } else {
                    0i32
                }
            } else {
                0i32
            }),
    {
        match target.host {
            AbiCompatible::WebAssemblyTextFormat => 10,
            AbiCompatible::Unknown => match target.build {
                Architecture::WASM32 => 5,
                Architecture::WASM64 => 0,
                _ => 0,
            },
            _ => 0,
        }
    }
}

/// The native x86-64 backend.
#[derive(Debug, Default)]
pub struct X86Backend {}

impl X86Backend {
    pub fn name(&self) -> (r: &'static str)
        ensures
            r@ == "Native x86_64"@,
    {
        "Native x86_64"
    }

    pub fn primary_target(&self) -> (r: CompilationTarget)
        ensures
            r@ == (TargetView { build: ArchitectureView::X86_64, host: AbiCompatible::PE, target: ApiCompatible::MicrosoftVisualC }),
    {
        CompilationTarget { build: Architecture::X86_64, host: AbiCompatible::PE, target: ApiCompatible::MicrosoftVisualC }
    }

    /// 100 for x86-64 PE with the Microsoft C API, 80 for other x86-64 PE
    /// targets, 0 otherwise.
    pub fn match_score(&self, target: &CompilationTarget) -> (r: i32)
        ensures
            r == (if target.build is X86_64 && target.host == AbiCompatible::PE {
                if target.target == ApiCompatible::MicrosoftVisualC {
                    100i32
                } else {
                    80i32
                }
            } else {
                0i32
            }),
    {
        let is_x64 = match target.build {
            Architecture::X86_64 => true,
            _ => false,
        };
        if is_x64 && target.host == AbiCompatible::PE {
            if target.target == ApiCompatible::MicrosoftVisualC {
                return 100;
            }
            return 80;
        }
        0
    }
}

/// The CLR (MSIL) backend.
#[derive(Debug, Default)]
pub struct ClrBackend {}

impl ClrBackend {
    pub fn name(&self) -> (r: &'static str)
        ensures
            r@ == "MSIL"@,
    {
        "MSIL"
    }

    pub fn primary_target(&self) -> (r: CompilationTarget)
        ensures
            r@ == (TargetView { build: ArchitectureView::CLR, host: AbiCompatible::MicrosoftIntermediateLanguage, target: ApiCompatible::ClrRuntime(4) }),
    {
        CompilationTarget { build: Architecture::CLR, host: AbiCompatible::MicrosoftIntermediateLanguage, target: ApiCompatible::ClrRuntime(4) }
    }

    /// On the CLR: 30 for assemblies (unknown host) and for MSIL text; 0 (not
    /// supported) otherwise.
    pub fn match_score(&self, target: &CompilationTarget) -> (r: i32)
        ensures
            r == (if target.build is CLR && (target.host == AbiCompatible::Unknown || target.host
                == AbiCompatible::MicrosoftIntermediateLanguage) {
                30i32
            } else {
                0i32
            }),
    {
        match target.build {
            Architecture::CLR => match target.host {
                AbiCompatible::Unknown => 30,
                AbiCompatible::MicrosoftIntermediateLanguage => 30,
                _ => 0,
            },
            _ => 0,
        }
    }
}


/// What the CLR backend makes of a module: the assembly that a DLL writer
/// turns into bytes, or intermediate-language text.
#[derive(Debug)]
pub enum ClrArtifact {
    Assembly(clr::ClrProgram),
    IlText(Vec<u8>),
}

/// The assembly of a result, other artifacts left unsaid.
pub open spec fn assembly_of(r: Result<ClrArtifact, GaiaError>) -> Result<clr::ClrProgram, GaiaError> {
    match r {
        Ok(ClrArtifact::Assembly(p)) => Ok(p),
        Ok(ClrArtifact::IlText(_)) => arbitrary(),
        Err(e) => Err(e),
    }
}

/// The text of a result, other artifacts left unsaid.
pub open spec fn il_text_of(r: Result<ClrArtifact, GaiaError>) -> Result<Vec<u8>, GaiaError> {
    match r {
        Ok(ClrArtifact::IlText(b)) => Ok(b),
        Ok(ClrArtifact::Assembly(_)) => arbitrary(),
        Err(e) => Err(e),
    }
}

/// What the CLR backend gives for a host, with mapping table `tb`: the
/// assembly for an unknown host, the text for MSIL, an error otherwise.
pub open spec fn clr_artifact_result(
    r: Result<ClrArtifact, GaiaError>,
    program: GaiaModule,
    host: AbiCompatible,
    tb: crate::adapters::MappingTable,
) -> bool {
    match host {
        AbiCompatible::Unknown => !(r matches Ok(ClrArtifact::IlText(_))) && clr::clr_output(assembly_of(r), program, tb),
        AbiCompatible::MicrosoftIntermediateLanguage => !(r matches Ok(ClrArtifact::Assembly(_))) && msil::msil_output(
            il_text_of(r),
            program,
            tb,
        ),
        _ => r matches Err(GaiaError::InvalidData { message }) && message@ == "Unsupported host ABI for CLR backend"@,
    }
}

impl ClrBackend {
    /// The artifact for the configured target's host, with the configured
    /// mappings: the assembly for an unknown host, the text for MSIL, and
    /// an error for any other host.
    pub fn generate_artifact(&self, program: &GaiaModule, config: &GaiaConfig) -> (r: Result<ClrArtifact, GaiaError>)
        ensures
            clr_artifact_result(
                r,
                *program,
                config.target.host,
                crate::adapters::apply_mappings(crate::adapters::default_table(), config.setting.function_mappings@),
            ),
    {
        match config.target.host {
            AbiCompatible::Unknown => match clr::convert_to_clr_program(program, Some(&config.setting)) {
                Ok(p) => Ok(ClrArtifact::Assembly(p)),
                Err(e) => Err(e),
            },
            AbiCompatible::MicrosoftIntermediateLanguage => match ClrBackend::generate_with_settings(
                program,
                &config.setting,
            ) {
                Ok(b) => Ok(ClrArtifact::IlText(b)),
                Err(e) => Err(e),
            },
            _ => Err(GaiaError::InvalidData { message: owned("Unsupported host ABI for CLR backend") }),
        }
    }
}

/// The .NET PE backend: it wraps intermediate-language text in a minimal
/// executable image.
#[derive(Debug, Default)]
pub struct PEBackend {}

impl PEBackend {
    pub fn name() -> (r: &'static str)
        ensures
            r@ == "PE"@,
    {
        "PE"
    }

    pub fn file_extension() -> (r: &'static str)
        ensures
            r@ == "exe"@,
    {
        "exe"
    }
}

} // verus!
