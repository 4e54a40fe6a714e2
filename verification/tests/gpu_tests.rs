use gaia_assembler::backends::gpu::{
    convert_gaia_to_gcn, convert_gaia_to_sass, GcnInstruction, GcnReg, SassInstruction, SassReg,
};
use gaia_assembler::backends::{GcnBackend, SassBackend};
use gaia_assembler::instruction::{CoreInstruction, DomainInstruction, GaiaInstruction, NeuralNode};
use gaia_assembler::program::{GaiaBlock, GaiaFunction, GaiaModule, GaiaTerminator};
use gaia_assembler::target::{AbiCompatible, ApiCompatible, Architecture, CompilationTarget};
use gaia_assembler::types::{GaiaSignature, GaiaType};

fn neural(op: &str) -> GaiaInstruction {
    GaiaInstruction::Domain(DomainInstruction::Neural(NeuralNode { op: op.to_string() }))
}

fn kernel_module() -> GaiaModule {
    GaiaModule {
        name: "k".to_string(),
        functions: vec![GaiaFunction {
            name: "conv".to_string(),
            signature: GaiaSignature { params: vec![], return_type: GaiaType::Void },
            blocks: vec![
                GaiaBlock {
                    label: "a".to_string(),
                    instructions: vec![neural("Convolution"), neural("Relu"), GaiaInstruction::Core(CoreInstruction::Pop)],
                    terminator: GaiaTerminator::Jump("b".to_string()),
                },
                GaiaBlock { label: "b".to_string(), instructions: vec![], terminator: GaiaTerminator::Return },
            ],
            is_external: false,
        }],
        structs: vec![],
        classes: vec![],
        constants: vec![],
        globals: vec![],
        imports: vec![],
    }
}

#[test]
fn gcn_kernels() {
    let p = convert_gaia_to_gcn(&kernel_module());
    assert_eq!(p.name, "k");
    assert_eq!(p.kernels.len(), 1);
    assert_eq!(p.kernels[0].name, "conv");
    assert_eq!(
        p.kernels[0].instructions,
        vec![
            GcnInstruction::VDot2F32F16 { dst: GcnReg::VGPR(0), src0: GcnReg::VGPR(1), src1: GcnReg::VGPR(2) },
            GcnInstruction::SNop(0),
            GcnInstruction::SEndPgm,
        ]
    );
}

#[test]
fn sass_kernels() {
    let p = convert_gaia_to_sass(&kernel_module());
    assert_eq!(p.kernels[0].name, "conv");
    assert_eq!(
        p.kernels[0].instructions,
        vec![
            SassInstruction::Imma { dst: SassReg::R(0), src0: SassReg::R(1), src1: SassReg::R(2), src2: SassReg::R(0) },
            SassInstruction::Nop,
            SassInstruction::Exit,
        ]
    );
}

#[test]
fn gpu_backend_scores() {
    let riscv = CompilationTarget { build: Architecture::RISCV64, host: AbiCompatible::GCN, target: ApiCompatible::Unknown };
    let sass = CompilationTarget { build: Architecture::NvSass, host: AbiCompatible::PTX, target: ApiCompatible::Unknown };
    assert_eq!(GcnBackend::new().name(), "AMD GCN");
    assert_eq!(SassBackend::new().name(), "NVIDIA SASS");
    assert_eq!(GcnBackend::new().match_score(&riscv), 50);
    assert_eq!(GcnBackend::new().match_score(&sass), 0);
    assert_eq!(SassBackend::new().match_score(&sass), 100);
    assert_eq!(SassBackend::new().match_score(&riscv), 0);
}
