//! The GPU backends (AMD GCN and NVIDIA SASS): kernels lowered from the
//! functions of a module. A convolution becomes a dot-product (GCN) or an
//! integer matrix multiply-accumulate (SASS), other instructions a no-op,
//! and a returning block ends the program.
use vstd::prelude::*;
use crate::instruction::{DomainInstruction, GaiaInstruction};
use crate::program::{GaiaBlock, GaiaFunction, GaiaModule, GaiaTerminator};
use crate::target::{AbiCompatible, ApiCompatible, Architecture, ArchitectureView, CompilationTarget, TargetView};
use crate::text::{copy_string, str_eq};

verus! {

/// A GCN register.
#[derive(Debug, Clone, Copy, PartialEq, Eq, Structural)]
pub enum GcnReg {
    VGPR(u32),
    SGPR(u32),
}

/// The GCN instructions the lowering writes.
#[derive(Debug, Clone, Copy, PartialEq, Eq, Structural)]
pub enum GcnInstruction {
    SNop(u16),
    SEndPgm,
    VDot2F32F16 { dst: GcnReg, src0: GcnReg, src1: GcnReg },
}

/// A GCN kernel: its name and instructions.
#[derive(Debug)]
pub struct GcnKernel {
    pub name: String,
    pub instructions: Vec<GcnInstruction>,
}

/// A GCN program: its name and kernels.
#[derive(Debug)]
pub struct GcnProgram {
    pub name: String,
    pub kernels: Vec<GcnKernel>,
}

/// A SASS register.
#[derive(Debug, Clone, Copy, PartialEq, Eq, Structural)]
pub enum SassReg {
    R(u32),
    P(u32),
}

/// The SASS instructions the lowering writes.
#[derive(Debug, Clone, Copy, PartialEq, Eq, Structural)]
pub enum SassInstruction {
    Nop,
    Exit,
    Imma { dst: SassReg, src0: SassReg, src1: SassReg, src2: SassReg },
}

/// A SASS kernel: its name and instructions.
#[derive(Debug)]
pub struct SassKernel {
    pub name: String,
    pub instructions: Vec<SassInstruction>,
}

/// A SASS program: its name and kernels.
#[derive(Debug)]
pub struct SassProgram {
    pub name: String,
    pub kernels: Vec<SassKernel>,
}

/// What an instruction becomes on a GPU: a convolution, nothing (another
/// neural operator), or a no-op (any other instruction).
pub enum GpuStep {
    Convolution,
    Nothing,
    NoOp,
}

pub open spec fn gpu_step(i: GaiaInstruction) -> GpuStep {
    match i {
        GaiaInstruction::Domain(DomainInstruction::Neural(node)) => if node.op@ == "Convolution"@ {
            GpuStep::Convolution
        } else {
            GpuStep::Nothing
        },
        _ => GpuStep::NoOp,
    }
}

pub open spec fn gcn_dot() -> GcnInstruction {
    GcnInstruction::VDot2F32F16 { dst: GcnReg::VGPR(0), src0: GcnReg::VGPR(1), src1: GcnReg::VGPR(2) }
}

pub open spec fn sass_imma() -> SassInstruction {
    SassInstruction::Imma { dst: SassReg::R(0), src0: SassReg::R(1), src1: SassReg::R(2), src2: SassReg::R(0) }
}

/// The GCN instructions of instructions.
pub open spec fn gcn_instrs(is: Seq<GaiaInstruction>) -> Seq<GcnInstruction>
    decreases is.len(),
{
    if is.len() == 0 {
        seq![]
    } else {
        gcn_instrs(is.drop_last()) + match gpu_step(is.last()) {
            GpuStep::Convolution => seq![gcn_dot()],
            GpuStep::Nothing => seq![],
            GpuStep::NoOp => seq![GcnInstruction::SNop(0)],
        }
    }
}

/// The GCN instructions of blocks: each block's instructions, then the end
/// of the program where the block returns.
pub open spec fn gcn_blocks(bs: Seq<GaiaBlock>) -> Seq<GcnInstruction>
    decreases bs.len(),
{
    if bs.len() == 0 {
        seq![]
    } else {
        gcn_blocks(bs.drop_last()) + gcn_instrs(bs.last().instructions@) + if bs.last().terminator is Return {
            seq![GcnInstruction::SEndPgm]
        } else {
            seq![]
        }
    }
}

/// The SASS instructions of instructions.
pub open spec fn sass_instrs(is: Seq<GaiaInstruction>) -> Seq<SassInstruction>
    decreases is.len(),
{
    if is.len() == 0 {
        seq![]
    } else {
        sass_instrs(is.drop_last()) + match gpu_step(is.last()) {
            GpuStep::Convolution => seq![sass_imma()],
            GpuStep::Nothing => seq![],
            GpuStep::NoOp => seq![SassInstruction::Nop],
        }
    }
}

/// The SASS instructions of blocks.
pub open spec fn sass_blocks(bs: Seq<GaiaBlock>) -> Seq<SassInstruction>
    decreases bs.len(),
{
    if bs.len() == 0 {
        seq![]
    } else {
        sass_blocks(bs.drop_last()) + sass_instrs(bs.last().instructions@) + if bs.last().terminator is Return {
            seq![SassInstruction::Exit]
        } else {
            seq![]
        }
    }
}

fn step_of(i: &GaiaInstruction) -> (r: GpuStep)
    ensures
        r == gpu_step(*i),
{
    match i {
        GaiaInstruction::Domain(DomainInstruction::Neural(node)) => if str_eq(node.op.as_str(), "Convolution") {
            GpuStep::Convolution
        } else {
            GpuStep::Nothing
        },
        _ => GpuStep::NoOp,
    }
}

fn gcn_function(f: &GaiaFunction) -> (r: Vec<GcnInstruction>)
    ensures
        r@ == gcn_blocks(f.blocks@),
{
    let mut out: Vec<GcnInstruction> = Vec::new();
    let bs = &f.blocks;
    let mut b: usize = 0;
    assert(bs@.take(0) =~= seq![]);
    while b < bs.len()
        invariant
            b <= bs@.len(),
            bs == &f.blocks,
            out@ == gcn_blocks(bs@.take(b as int)),
        decreases bs.len() - b,
    {
        proof {
            assert(bs@.take(b + 1).drop_last() =~= bs@.take(b as int));
        }
        let is = &bs[b].instructions;
        let ghost base = out@;
        let mut k: usize = 0;
        assert(is@.take(0) =~= seq![]);
        while k < is.len()
            invariant
                k <= is@.len(),
                out@ == base + gcn_instrs(is@.take(k as int)),
            decreases is.len() - k,
        {
            proof {
                assert(is@.take(k + 1).drop_last() =~= is@.take(k as int));
            }
            match step_of(&is[k]) {
                GpuStep::Convolution => {
                    out.push(GcnInstruction::VDot2F32F16 { dst: GcnReg::VGPR(0), src0: GcnReg::VGPR(1), src1: GcnReg::VGPR(2) });
                },
                GpuStep::Nothing => {},
                GpuStep::NoOp => {
                    out.push(GcnInstruction::SNop(0));
                },
            }
            k = k + 1;
            assert(out@ =~= base + gcn_instrs(is@.take(k as int)));
        }
        assert(is@.take(k as int) =~= is@);
        match &bs[b].terminator {
            GaiaTerminator::Return => {
                out.push(GcnInstruction::SEndPgm);
            },
            _ => {},
        }
        b = b + 1;
        assert(out@ =~= gcn_blocks(bs@.take(b as int)));
    }
    assert(bs@.take(b as int) =~= bs@);
    out
}

fn sass_function(f: &GaiaFunction) -> (r: Vec<SassInstruction>)
    ensures
        r@ == sass_blocks(f.blocks@),
{
    let mut out: Vec<SassInstruction> = Vec::new();
    let bs = &f.blocks;
    let mut b: usize = 0;
    assert(bs@.take(0) =~= seq![]);
    while b < bs.len()
        invariant
            b <= bs@.len(),
            bs == &f.blocks,
            out@ == sass_blocks(bs@.take(b as int)),
        decreases bs.len() - b,
    {
        proof {
            assert(bs@.take(b + 1).drop_last() =~= bs@.take(b as int));
        }
        let is = &bs[b].instructions;
        let ghost base = out@;
        let mut k: usize = 0;
        assert(is@.take(0) =~= seq![]);
        while k < is.len()
            invariant
                k <= is@.len(),
                out@ == base + sass_instrs(is@.take(k as int)),
            decreases is.len() - k,
        {
            proof {
                assert(is@.take(k + 1).drop_last() =~= is@.take(k as int));
            }
            match step_of(&is[k]) {
                GpuStep::Convolution => {
                    out.push(
                        SassInstruction::Imma { dst: SassReg::R(0), src0: SassReg::R(1), src1: SassReg::R(2), src2: SassReg::R(0) },
                    );
                },
                GpuStep::Nothing => {},
                GpuStep::NoOp => {
                    out.push(SassInstruction::Nop);
                },
            }
            k = k + 1;
            assert(out@ =~= base + sass_instrs(is@.take(k as int)));
        }
        assert(is@.take(k as int) =~= is@);
        match &bs[b].terminator {
            GaiaTerminator::Return => {
                out.push(SassInstruction::Exit);
            },
            _ => {},
        }
        b = b + 1;
        assert(out@ =~= sass_blocks(bs@.take(b as int)));
    }
    assert(bs@.take(b as int) =~= bs@);
    out
}

/// The GCN program of a module: one kernel per function, by its name.
pub fn convert_gaia_to_gcn(module: &GaiaModule) -> (r: GcnProgram)
    ensures
        r.name@ == module.name@,
        r.kernels@.len() == module.functions@.len(),
        forall|i: int|
            0 <= i < module.functions@.len() ==> (#[trigger] r.kernels@[i]).name@ == module.functions@[i].name@
                && r.kernels@[i].instructions@ == gcn_blocks(module.functions@[i].blocks@),
{
    let mut kernels: Vec<GcnKernel> = Vec::new();
    let mut i: usize = 0;
    while i < module.functions.len()
        invariant
            i <= module.functions@.len(),
            kernels@.len() == i,
            forall|j: int|
                0 <= j < i ==> (#[trigger] kernels@[j]).name@ == module.functions@[j].name@
                    && kernels@[j].instructions@ == gcn_blocks(module.functions@[j].blocks@),
        decreases module.functions.len() - i,
    {
        let f = &module.functions[i];
        kernels.push(GcnKernel { name: copy_string(&f.name), instructions: gcn_function(f) });
        i = i + 1;
    }
    GcnProgram { name: copy_string(&module.name), kernels }
}

/// The SASS program of a module: one kernel per function, by its name.
pub fn convert_gaia_to_sass(module: &GaiaModule) -> (r: SassProgram)
    ensures
        r.name@ == module.name@,
        r.kernels@.len() == module.functions@.len(),
        forall|i: int|
            0 <= i < module.functions@.len() ==> (#[trigger] r.kernels@[i]).name@ == module.functions@[i].name@
                && r.kernels@[i].instructions@ == sass_blocks(module.functions@[i].blocks@),
{
    let mut kernels: Vec<SassKernel> = Vec::new();
    let mut i: usize = 0;
    while i < module.functions.len()
        invariant
            i <= module.functions@.len(),
            kernels@.len() == i,
            forall|j: int|
                0 <= j < i ==> (#[trigger] kernels@[j]).name@ == module.functions@[j].name@
                    && kernels@[j].instructions@ == sass_blocks(module.functions@[j].blocks@),
        decreases module.functions.len() - i,
    {
        let f = &module.functions[i];
        kernels.push(SassKernel { name: copy_string(&f.name), instructions: sass_function(f) });
        i = i + 1;
    }
    SassProgram { name: copy_string(&module.name), kernels }
}

/// The AMD GCN backend.
#[derive(Debug, Default)]
pub struct GcnBackend {}

impl GcnBackend {
    pub fn new() -> (r: GcnBackend) {
        GcnBackend {}
    }

    pub fn name(&self) -> (r: &'static str)
        ensures
            r@ == "AMD GCN"@,
    {
        "AMD GCN"
    }

    pub fn primary_target(&self) -> (r: CompilationTarget)
        ensures
            r@ == (TargetView { build: ArchitectureView::RISCV64, host: AbiCompatible::GCN, target: ApiCompatible::Unknown }),
    {
        CompilationTarget { build: Architecture::RISCV64, host: AbiCompatible::GCN, target: ApiCompatible::Unknown }
    }

    /// 50 for the RISCV64 build, 0 otherwise.
    pub fn match_score(&self, target: &CompilationTarget) -> (r: i32)
        ensures
            r == (if target.build is RISCV64 { 50i32 } else { 0i32 }),
    {
        match target.build {
            Architecture::RISCV64 => 50,
            _ => 0,
        }
    }
}

/// The NVIDIA SASS backend.
#[derive(Debug, Default)]
pub struct SassBackend {}

impl SassBackend {
    pub fn new() -> (r: SassBackend) {
        SassBackend {}
    }

    pub fn name(&self) -> (r: &'static str)
        ensures
            r@ == "NVIDIA SASS"@,
    {
        "NVIDIA SASS"
    }

    pub fn primary_target(&self) -> (r: CompilationTarget)
        ensures
            r@ == (TargetView { build: ArchitectureView::NvSass, host: AbiCompatible::PTX, target: ApiCompatible::Unknown }),
    {
        CompilationTarget { build: Architecture::NvSass, host: AbiCompatible::PTX, target: ApiCompatible::Unknown }
    }

    /// 100 for the NvSass build, 0 otherwise.
    pub fn match_score(&self, target: &CompilationTarget) -> (r: i32)
        ensures
            r == (if target.build is NvSass { 100i32 } else { 0i32 }),
    {
        match target.build {
            Architecture::NvSass => 100,
            _ => 0,
        }
    }
}

} // verus!
