//! The backend dispatcher: it picks the backend for a compilation target
//! and hands the module to that backend's generator.
use vstd::prelude::*;
use crate::adapters::{default_mapper_table, lemma_default_table};
use crate::backends::wasi::{compile_program, wasi_program_of, WasiProgram};
use crate::backends::x86::{alloca_count, block_instrs, x86_code_result, X86Image};
use crate::backends::x86_link::{call_symbols, group_views, import_plan, import_plan_spec, import_views, ImportGroup};
use crate::backends::{
    clr_artifact_result, jvm, jvm_class_result, ClrArtifact, ClrBackend, JvmBackend, PEBackend, WasiBackend, X86Backend,
};
use crate::config::{GaiaConfig, GaiaSettings};
use crate::error::GaiaError;
use crate::program::GaiaModule;
use crate::target::{copy_target, AbiCompatible, ApiCompatible, CompilationTarget, TargetView};

verus! {

/// The backends the dispatcher knows, in the order it tries them: CLR, JVM,
/// the native PE executable (x86-64), and WASI.
#[derive(Debug, Clone, Copy, PartialEq, Eq, Structural)]
pub enum BackendKind {
    Clr,
    Jvm,
    Pe,
    Wasi,
}

/// A backend's name.
pub open spec fn kind_name(k: BackendKind) -> Seq<char> {
    match k {
        BackendKind::Clr => "MSIL"@,
        BackendKind::Jvm => "JVM"@,
        BackendKind::Pe => "PE"@,
        BackendKind::Wasi => "WASI"@,
    }
}

impl BackendKind {
    /// The backend's name: MSIL, JVM, PE or WASI.
    pub fn name(&self) -> (r: &'static str)
        ensures
            r@ == kind_name(*self),
    {
        match self {
            BackendKind::Clr => ClrBackend {}.name(),
            BackendKind::Jvm => JvmBackend {}.name(),
            BackendKind::Pe => PEBackend::name(),
            BackendKind::Wasi => WasiBackend {}.name(),
        }
    }
}

/// The backend at a position of the dispatch order.
pub open spec fn kind_at(i: int) -> BackendKind {
    if i == 0 {
        BackendKind::Clr
    } else if i == 1 {
        BackendKind::Jvm
    } else if i == 2 {
        BackendKind::Pe
    } else {
        BackendKind::Wasi
    }
}

/// The host of a backend's primary target.
pub open spec fn primary_host(k: BackendKind) -> AbiCompatible {
    match k {
        BackendKind::Clr => AbiCompatible::MicrosoftIntermediateLanguage,
        BackendKind::Jvm => AbiCompatible::Unknown,
        BackendKind::Pe => AbiCompatible::PE,
        BackendKind::Wasi => AbiCompatible::WebAssemblyTextFormat,
    }
}

/// A backend's score for a target, from 0 (not supported) to 100.
pub open spec fn kind_score(k: BackendKind, t: TargetView) -> int {
    match k {
        BackendKind::Clr => if t.build is CLR && (t.host == AbiCompatible::Unknown || t.host
            == AbiCompatible::MicrosoftIntermediateLanguage) {
            30
        } else {
            0
        },
        BackendKind::Jvm => if t.build is JVM && t.host == AbiCompatible::Unknown {
            80
        } else if t.build is JVM && t.host == AbiCompatible::JavaAssembly {
            5
        } else {
            0
        },
        BackendKind::Pe => if t.build is X86_64 && t.host == AbiCompatible::PE {
            if t.target == ApiCompatible::MicrosoftVisualC {
                100
            } else {
                80
            }
        } else {
            0
        },
        BackendKind::Wasi => if t.host == AbiCompatible::WebAssemblyTextFormat {
            10
        } else if t.host == AbiCompatible::Unknown && t.build is WASM32 {
            5
        } else {
            0
        },
    }
}

/// The first of the first `n` backends whose primary host is the target's.
pub open spec fn host_match(t: TargetView, n: int) -> Option<int>
    decreases n,
{
    if n <= 0 {
        None
    } else {
        match host_match(t, n - 1) {
            Some(i) => Some(i),
            None => if primary_host(kind_at(n - 1)) == t.host {
                Some(n - 1)
            } else {
                None
            },
        }
    }
}

/// The first of the first `n` backends with the highest score above 0, as
/// (position, score); (-1, 0) when no score is above 0.
pub open spec fn best_score(t: TargetView, n: int) -> (int, int)
    decreases n,
{
    if n <= 0 {
        (-1, 0)
    } else {
        let (b, s) = best_score(t, n - 1);
        let x = kind_score(kind_at(n - 1), t);
        if x > s {
            (n - 1, x)
        } else {
            (b, s)
        }
    }
}

/// The backend chosen for a target: the first whose primary host is the
/// target's host; else the first with the highest score, if that is above
/// 0; else none.
pub open spec fn selected_backend(t: TargetView) -> Option<int> {
    match host_match(t, 4) {
        Some(i) => Some(i),
        None => {
            let (b, s) = best_score(t, 4);
            if b >= 0 {
                Some(b)
            } else {
                None
            }
        },
    }
}

proof fn lemma_host_match_stays(t: TargetView, i: int, n: int)
    requires
        0 <= i <= n,
        host_match(t, i) is Some,
    ensures
        host_match(t, n) == host_match(t, i),
    decreases n - i,
{
    if n > i {
        lemma_host_match_stays(t, i, n - 1);
    }
}

fn kind_of(i: usize) -> (k: BackendKind)
    requires
        i < 4,
    ensures
        k == kind_at(i as int),
{
    if i == 0 {
        BackendKind::Clr
    } else if i == 1 {
        BackendKind::Jvm
    } else if i == 2 {
        BackendKind::Pe
    } else {
        BackendKind::Wasi
    }
}

/// The primary target of a backend, from the backend itself.
pub fn primary_target_of(k: BackendKind) -> (r: CompilationTarget)
    ensures
        r.host == primary_host(k),
{
    match k {
        BackendKind::Clr => ClrBackend {}.primary_target(),
        BackendKind::Jvm => JvmBackend {}.primary_target(),
        BackendKind::Pe => X86Backend {}.primary_target(),
        BackendKind::Wasi => WasiBackend {}.primary_target(),
    }
}

/// A backend's score for a target, from the backend itself.
pub fn score_of(k: BackendKind, target: &CompilationTarget) -> (r: i32)
    ensures
        r == kind_score(k, target@),
{
    match k {
        BackendKind::Clr => ClrBackend {}.match_score(target),
        BackendKind::Jvm => JvmBackend {}.match_score(target),
        BackendKind::Pe => X86Backend {}.match_score(target),
        BackendKind::Wasi => WasiBackend {}.match_score(target),
    }
}

/// The position, in the dispatch order, of the backend for a target, or
/// `None` when no backend supports it.
pub fn select_backend(target: &CompilationTarget) -> (r: Option<usize>)
    ensures
        match r {
            Some(i) => i < 4 && selected_backend(target@) == Some(i as int),
            None => selected_backend(target@) is None,
        },
{
    let mut i: usize = 0;
    while i < 4
        invariant
            i <= 4,
            host_match(target@, i as int) is None,
        decreases 4 - i,
    {
        if primary_target_of(kind_of(i)).host == target.host {
            proof {
                assert(host_match(target@, i + 1) == Some(i as int));
                lemma_host_match_stays(target@, i + 1, 4);
            }
            return Some(i);
        }
        i = i + 1;
    }
    let mut best: i64 = -1;
    let mut best_s: i32 = 0;
    let mut j: usize = 0;
    while j < 4
        invariant
            j <= 4,
            host_match(target@, 4) is None,
            best_score(target@, j as int) == (best as int, best_s as int),
            -1 <= best < j,
        decreases 4 - j,
    {
        let x = score_of(kind_of(j), target);
        if x > best_s {
            best = j as i64;
            best_s = x;
        }
        j = j + 1;
    }
    if best >= 0 {
        Some(best as usize)
    } else {
        None
    }
}

/// What a backend made of a module: the CLR artifact, the JVM class, the
/// native code with its import table, or the WebAssembly program.
#[derive(Debug)]
pub enum CompiledArtifact {
    Clr(ClrArtifact),
    Jvm(jvm::JvmProgram),
    Pe { image: X86Image, imports: Vec<ImportGroup> },
    Wasi(WasiProgram),
}

pub open spec fn clr_part(r: Result<CompiledArtifact, GaiaError>) -> Result<ClrArtifact, GaiaError> {
    match r {
        Ok(CompiledArtifact::Clr(a)) => Ok(a),
        Ok(_) => arbitrary(),
        Err(e) => Err(e),
    }
}

pub open spec fn jvm_part(r: Result<CompiledArtifact, GaiaError>) -> Result<jvm::JvmProgram, GaiaError> {
    match r {
        Ok(CompiledArtifact::Jvm(p)) => Ok(p),
        Ok(_) => arbitrary(),
        Err(e) => Err(e),
    }
}

pub open spec fn pe_part(r: Result<CompiledArtifact, GaiaError>) -> Result<X86Image, GaiaError> {
    match r {
        Ok(CompiledArtifact::Pe { image, imports }) => Ok(image),
        Ok(_) => arbitrary(),
        Err(e) => Err(e),
    }
}

/// What compiling a module for a target gives: the unsupported-target error
/// when no backend is selected, else the selected backend's output with the
/// default mapper's table.
pub open spec fn compile_result(r: Result<CompiledArtifact, GaiaError>, program: GaiaModule, target: TargetView) -> bool {
    let tb = default_mapper_table();
    match selected_backend(target) {
        None => r matches Err(GaiaError::UnsupportedTarget { target: t }) && t@ == target,
        Some(i) => if i == 0 {
            !(r matches Ok(a) && !(a is Clr)) && clr_artifact_result(clr_part(r), program, target.host, tb)
        } else if i == 1 {
            !(r matches Ok(a) && !(a is Jvm)) && jvm_class_result(jvm_part(r), program, target.host, tb)
        } else if i == 2 {
            &&& !(r matches Ok(a) && !(a is Pe))
            &&& x86_code_result(pe_part(r), program)
            &&& r matches Ok(CompiledArtifact::Pe { image, imports }) ==> group_views(imports@) == import_plan_spec(
                import_views(program.imports@),
                call_symbols(image.external_call_positions@),
            )
        } else {
            r matches Ok(CompiledArtifact::Wasi(p)) && wasi_program_of(p, program)
        },
    }
}

/// The assembler: dispatches a module to the backend for a target.
#[derive(Debug)]
pub struct GaiaAssembler {}

impl GaiaAssembler {
    /// An assembler with all its backends.
    pub fn new() -> (r: GaiaAssembler) {
        GaiaAssembler {}
    }

    /// The backends, in dispatch order.
    pub fn backends(&self) -> (r: Vec<BackendKind>)
        ensures
            r@ == seq![BackendKind::Clr, BackendKind::Jvm, BackendKind::Pe, BackendKind::Wasi],
    {
        let mut v: Vec<BackendKind> = Vec::new();
        v.push(BackendKind::Clr);
        v.push(BackendKind::Jvm);
        v.push(BackendKind::Pe);
        v.push(BackendKind::Wasi);
        v
    }

    /// Compiles a module for a target with the default settings and the
    /// selected backend (see `compile_result`).
    pub fn compile(&self, program: &GaiaModule, target: &CompilationTarget) -> (r: Result<CompiledArtifact, GaiaError>)
        requires
            forall|f: int|
                0 <= f < program.functions@.len() ==> alloca_count(block_instrs(#[trigger] program.functions@[f].blocks@)) * 8
                    + 79 <= usize::MAX,
        ensures
            compile_result(r, *program, target@),
    {
        let config = GaiaConfig { setting: GaiaSettings::default(), target: copy_target(target) };
        let ghost s = config.setting;
        let r = match select_backend(target) {
            None => Err(GaiaError::UnsupportedTarget { target: copy_target(target) }),
            Some(i) => {
                if i == 0 {
                    let b = ClrBackend {};
                    match b.generate_artifact(program, &config) {
                        Ok(a) => Ok(CompiledArtifact::Clr(a)),
                        Err(e) => Err(e),
                    }
                } else if i == 1 {
                    let b = JvmBackend {};
                    match b.generate_class(program, &config) {
                        Ok(p) => Ok(CompiledArtifact::Jvm(p)),
                        Err(e) => Err(e),
                    }
                } else if i == 2 {
                    let b = X86Backend {};
                    match b.generate_code(program) {
                        Ok(image) => {
                            let imports = import_plan(&program.imports, &image.external_call_positions);
                            Ok(CompiledArtifact::Pe { image, imports })
                        },
                        Err(e) => Err(e),
                    }
                } else {
                    Ok(CompiledArtifact::Wasi(compile_program(program)))
                }
            },
        };
        proof {
            lemma_default_table(s);
        }
        assert(compile_result(r, *program, target@));
        r
    }
}

/// Compiles a module for a target (see `GaiaAssembler::compile`).
pub fn compile_to_platform(program: &GaiaModule, target: CompilationTarget) -> (r: Result<CompiledArtifact, GaiaError>)
    requires
        forall|f: int|
            0 <= f < program.functions@.len() ==> alloca_count(block_instrs(#[trigger] program.functions@[f].blocks@)) * 8
                + 79 <= usize::MAX,
    ensures
        compile_result(r, *program, target@),
{
    let compiler = GaiaAssembler::new();
    compiler.compile(program, &target)
}

} // verus!
