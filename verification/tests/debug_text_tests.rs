use gaia_assembler::debug_text::{
    constant_debug, core_debug_text, domain_debug_text, managed_debug_text, sig_debug, target_debug_text, type_debug,
};
use gaia_assembler::instruction::{CastKind, CmpCondition, CoreInstruction, DomainInstruction, ManagedInstruction, NeuralNode};
use gaia_assembler::program::GaiaConstant;
use gaia_assembler::target::{AbiCompatible, ApiCompatible, Architecture, CompilationTarget};
use gaia_assembler::types::{AddressSpace, GaiaSignature, GaiaType};

fn nested_type() -> GaiaType {
    GaiaType::Tensor(
        Box::new(GaiaType::Pointer(Box::new(GaiaType::Class("a\"b\\c".to_string())), AddressSpace::Shared)),
        vec![-1, 3],
    )
}

fn sig() -> GaiaSignature {
    GaiaSignature {
        params: vec![GaiaType::I32, GaiaType::FunctionPtr(Box::new(GaiaSignature { params: vec![], return_type: GaiaType::Void }))],
        return_type: nested_type(),
    }
}

#[test]
fn target_text_is_derived_debug() {
    for t in [
        CompilationTarget { build: Architecture::X86_64, host: AbiCompatible::PE, target: ApiCompatible::MicrosoftVisualC },
        CompilationTarget { build: Architecture::CLR, host: AbiCompatible::Unknown, target: ApiCompatible::ClrRuntime(4) },
        CompilationTarget { build: Architecture::Other("é\n\"x".to_string()), host: AbiCompatible::SPIRV, target: ApiCompatible::JvmRuntime(17) },
    ] {
        assert_eq!(target_debug_text(&t), format!("{:?}", t));
    }
}

#[test]
fn type_and_signature_text_is_derived_debug() {
    let t = nested_type();
    assert_eq!(type_debug(&t), format!("{:?}", t));
    let s = sig();
    assert_eq!(sig_debug(&s), format!("{:?}", s));
    assert_eq!(sig_debug(&s), "GaiaSignature { params: [I32, FunctionPtr(GaiaSignature { params: [], return_type: Void })], return_type: Tensor(Pointer(Class(\"a\\\"b\\\\c\"), Shared), [-1, 3]) }");
}

#[test]
fn constant_text_is_derived_debug() {
    for c in [
        GaiaConstant::I8(-5),
        GaiaConstant::U64(u64::MAX),
        GaiaConstant::F32 { bits: 0x3F80_0000, text: "1".to_string() },
        GaiaConstant::Blob(vec![0, 255]),
        GaiaConstant::Array(vec![GaiaConstant::Null, GaiaConstant::String("\t".to_string()), GaiaConstant::Array(vec![])]),
    ] {
        assert_eq!(constant_debug(&c), format!("{:?}", c));
    }
}

#[test]
fn instruction_text_is_derived_debug() {
    let core = [
        CoreInstruction::Alloca(GaiaType::I64, 3),
        CoreInstruction::Gep { base_type: GaiaType::U8, indices: vec![1, 2] },
        CoreInstruction::Cmp(CmpCondition::Le, GaiaType::F64),
        CoreInstruction::Cast { from: GaiaType::I32, to: GaiaType::F32, kind: CastKind::SiToFp },
        CoreInstruction::PushConstant(GaiaConstant::Bool(true)),
        CoreInstruction::Call("f".to_string(), 2),
        CoreInstruction::StructGet { struct_name: "S".to_string(), field_index: 1, is_signed: false },
        CoreInstruction::Ret,
    ];
    for i in core {
        assert_eq!(core_debug_text(&i), format!("{:?}", i));
    }
    let managed = [
        ManagedInstruction::CallMethod {
            target: "T".to_string(),
            method: "m".to_string(),
            signature: sig(),
            is_virtual: true,
            call_site_id: Some(7),
        },
        ManagedInstruction::CallStatic { target: "T".to_string(), method: "m".to_string(), signature: sig() },
        ManagedInstruction::Initiate(0),
        ManagedInstruction::Finalize,
    ];
    for i in managed {
        assert_eq!(managed_debug_text(&i), format!("{:?}", i));
    }
    let domain = [
        DomainInstruction::Neural(NeuralNode { op: "Relu".to_string() }),
        DomainInstruction::MatMul { a_shape: vec![2, 3], b_shape: vec![3], transpose_a: false, transpose_b: true },
        DomainInstruction::Conv2D { stride: [1, 2], padding: [0, 0], dilation: [1, 1], groups: 4 },
        DomainInstruction::ElementWise(GaiaType::F16, "add".to_string()),
        DomainInstruction::Barrier,
    ];
    for i in domain {
        assert_eq!(domain_debug_text(&i), format!("{:?}", i));
    }
}
