//! Native x86-64 code generation for a stack machine: each function gets
//! a frame, each instruction a fixed byte pattern, and calls, string
//! references and jumps leave 32-bit holes that are recorded for patching.
use vstd::prelude::*;
use vstd::string::StrSliceExecFns;
use vstd::utf8::encode_utf8;
use crate::bytes::{le_bytes_of, le_bytes_u};
use crate::error::GaiaError;
use crate::instruction::{CmpCondition, CoreInstruction, DomainInstruction, GaiaInstruction, ManagedInstruction, NeuralNode};
use crate::program::{GaiaBlock, GaiaConstant, GaiaFunction, GaiaModule, GaiaTerminator};
use crate::textmap::TextMap;
use crate::types::GaiaType;
use crate::text::{owned, push_str, str_eq, string_views};
use crate::debug_text::{core_debug, core_debug_text, domain_debug, domain_debug_text, managed_debug, managed_debug_text};

verus! {

/// The 4 little-endian bytes of `v` taken modulo 2^32.
pub open spec fn le32(v: int) -> Seq<u8> {
    le_bytes_u(v % 0x1_0000_0000, 4)
}

/// The 8 little-endian bytes of `v` taken modulo 2^64.
pub open spec fn le64(v: int) -> Seq<u8> {
    le_bytes_u(v % 0x1_0000_0000_0000_0000, 8)
}

fn le32_of(v: i128) -> (r: Vec<u8>)
    requires
        -0x1_0000_0000 <= v,
    ensures
        r@ == le32(v as int),
{
    if v >= 0 {
        let u: u128 = (v as u128) % 0x1_0000_0000;
        le_bytes_of(u, 4)
    } else {
        let u: u128 = (v + 0x1_0000_0000) as u128;
        assert((v as int) % 0x1_0000_0000 == v + 0x1_0000_0000);
        le_bytes_of(u, 4)
    }
}

fn le64_of(v: i64) -> (r: Vec<u8>)
    ensures
        r@ == le64(v as int),
{
    if v >= 0 {
        le_bytes_of(v as u128, 8)
    } else {
        let u: u128 = (v as i128 + 0x1_0000_0000_0000_0000) as u128;
        assert((v as int) % 0x1_0000_0000_0000_0000 == v + 0x1_0000_0000_0000_0000);
        le_bytes_of(u, 8)
    }
}

/// What code generation has produced so far: the code, the calls of
/// outside functions and of functions of the module (name, position of
/// the call), the string references (position of the hole, offset of the
/// string), the jumps (position of the hole, label) and the labels
/// (position).
pub ghost struct EmitState {
    pub code: Seq<u8>,
    pub outside_calls: Seq<(Seq<char>, nat)>,
    pub inside_calls: Seq<(Seq<char>, nat)>,
    pub strs: Seq<(nat, nat)>,
    pub jumps: Seq<(nat, Seq<char>)>,
    pub labels: Map<Seq<char>, nat>,
}

/// Bytes appended.
pub open spec fn put(st: EmitState, b: Seq<u8>) -> EmitState {
    EmitState { code: st.code + b, ..st }
}

/// A call of an outside function through the import table: `call [rip+0]`.
pub open spec fn put_ext(st: EmitState, name: Seq<char>) -> EmitState {
    EmitState {
        code: st.code + seq![0xFFu8, 0x15u8, 0u8, 0u8, 0u8, 0u8],
        outside_calls: st.outside_calls.push((name, st.code.len())),
        ..st
    }
}

/// A call of a function of the module: `call rel32` with a hole.
pub open spec fn put_int(st: EmitState, name: Seq<char>) -> EmitState {
    EmitState {
        code: st.code + seq![0xE8u8, 0u8, 0u8, 0u8, 0u8],
        inside_calls: st.inside_calls.push((name, st.code.len())),
        ..st
    }
}

/// A 32-bit hole for the address of a string.
pub open spec fn put_str(st: EmitState, offset: nat) -> EmitState {
    EmitState { code: st.code + seq![0u8, 0u8, 0u8, 0u8], strs: st.strs.push((st.code.len(), offset)), ..st }
}

/// A 32-bit hole for a jump to a label.
pub open spec fn put_jump(st: EmitState, label: Seq<char>) -> EmitState {
    EmitState { code: st.code + seq![0u8, 0u8, 0u8, 0u8], jumps: st.jumps.push((st.code.len(), label)), ..st }
}

/// A label at the current position.
pub open spec fn put_label(st: EmitState, label: Seq<char>) -> EmitState {
    EmitState { labels: st.labels.insert(label, st.code.len()), ..st }
}

/// `sub rsp, 32`.
pub open spec fn reserve_shadow() -> Seq<u8> {
    seq![0x48u8, 0x83u8, 0xECu8, 0x20u8]
}

/// `add rsp, 32`.
pub open spec fn release_shadow() -> Seq<u8> {
    seq![0x48u8, 0x83u8, 0xC4u8, 0x20u8]
}

/// A call of a runtime function with shadow space around it, then `tail`.
pub open spec fn runtime_call(st: EmitState, name: Seq<char>, tail: Seq<u8>) -> EmitState {
    put(put_ext(put(st, reserve_shadow()), name), release_shadow() + tail)
}

/// Popping the arguments of a call into RCX, RDX, R8 and R9 (last first).
pub open spec fn pop_args(argc: int) -> Seq<u8> {
    (if argc >= 4 { seq![0x41u8, 0x59u8] } else { seq![] }) + (if argc >= 3 {
        seq![0x41u8, 0x58u8]
    } else {
        seq![]
    }) + (if argc >= 2 { seq![0x5Au8] } else { seq![] }) + (if argc >= 1 { seq![0x59u8] } else { seq![] })
}

/// `set<cc> al` for a comparison.
pub open spec fn setcc(c: CmpCondition) -> Seq<u8> {
    match c {
        CmpCondition::Eq => seq![0x0Fu8, 0x94u8, 0xC0u8],
        CmpCondition::Ne => seq![0x0Fu8, 0x95u8, 0xC0u8],
        CmpCondition::Lt => seq![0x0Fu8, 0x9Cu8, 0xC0u8],
        CmpCondition::Le => seq![0x0Fu8, 0x9Eu8, 0xC0u8],
        CmpCondition::Gt => seq![0x0Fu8, 0x9Fu8, 0xC0u8],
        CmpCondition::Ge => seq![0x0Fu8, 0x9Du8, 0xC0u8],
    }
}

/// The displacement byte of local slot `idx`: `-(idx + 1) * 8`, cut to 8 bits.
pub open spec fn local_disp(idx: u32) -> u8 {
    ((-(8 * (idx + 1))) % 256) as u8
}

/// The displacement byte of stack argument `idx` (from the fifth on):
/// `48 + (idx - 4) * 8`, cut to 8 bits.
pub open spec fn arg_disp(idx: u32) -> u8 {
    ((48 + (idx - 4) * 8) % 256) as u8
}

/// Whether every string an instruction refers to has an offset.
pub open spec fn strings_known(i: GaiaInstruction, table: Map<Seq<char>, usize>) -> bool {
    match i {
        GaiaInstruction::Core(CoreInstruction::PushConstant(GaiaConstant::String(s))) => table.dom().contains(s@),
        GaiaInstruction::Core(CoreInstruction::New(s)) => table.dom().contains(s@),
        GaiaInstruction::Core(CoreInstruction::StoreField(_, s)) => table.dom().contains(s@),
        GaiaInstruction::Core(CoreInstruction::LoadField(_, s)) => table.dom().contains(s@),
        GaiaInstruction::Managed(ManagedInstruction::CallMethod { method, .. }) => table.dom().contains(method@),
        _ => true,
    }
}

/// The code of a core instruction, or the message of the error.
pub open spec fn x86_core(
    st: EmitState,
    ci: CoreInstruction,
    table: Map<Seq<char>, usize>,
    internal: Set<Seq<char>>,
) -> Result<EmitState, Seq<char>> {
    match ci {
        CoreInstruction::PushConstant(c) => match c {
            GaiaConstant::I8(v) => Ok(put(st, seq![0x6Au8, v as u8])),
            GaiaConstant::I16(v) => Ok(put(st, seq![0x68u8] + le32(v as int))),
            GaiaConstant::I32(v) => Ok(put(st, seq![0x68u8] + le32(v as int))),
            GaiaConstant::I64(v) => Ok(put(st, seq![0x48u8, 0xB8u8] + le64(v as int) + seq![0x50u8])),
            GaiaConstant::String(s) => Ok(
                put(put_str(put(st, seq![0x48u8, 0x8Du8, 0x05u8]), table[s@] as nat), seq![0x50u8]),
            ),
            _ => Err("Unsupported constant type for x86 backend"@),
        },
        CoreInstruction::Pop => Ok(put(st, seq![0x58u8])),
        CoreInstruction::Dup => Ok(put(st, seq![0x48u8, 0x8Bu8, 0x04u8, 0x24u8, 0x50u8])),
        CoreInstruction::Add(_) => Ok(put(st, seq![0x5Bu8, 0x58u8, 0x48u8, 0x01u8, 0xD8u8, 0x50u8])),
        CoreInstruction::Sub(_) => Ok(put(st, seq![0x5Bu8, 0x58u8, 0x48u8, 0x29u8, 0xD8u8, 0x50u8])),
        CoreInstruction::Mul(_) => Ok(put(st, seq![0x5Bu8, 0x58u8, 0x48u8, 0x0Fu8, 0xAFu8, 0xC3u8, 0x50u8])),
        CoreInstruction::Div(_) => Ok(
            put(st, seq![0x5Bu8, 0x58u8, 0x48u8, 0x99u8, 0x48u8, 0xF7u8, 0xFBu8, 0x50u8]),
        ),
        CoreInstruction::Rem(_) => Ok(
            put(st, seq![0x5Bu8, 0x58u8, 0x48u8, 0x99u8, 0x48u8, 0xF7u8, 0xFBu8, 0x52u8]),
        ),
        CoreInstruction::Neg(_) => Ok(put(st, seq![0x58u8, 0x48u8, 0xF7u8, 0xD8u8, 0x50u8])),
        CoreInstruction::Not(t) => Ok(
            put(
                st,
                seq![0x58u8] + (match t {
                    GaiaType::Bool => seq![0x48u8, 0x83u8, 0xF0u8, 0x01u8],
                    _ => seq![0x48u8, 0xF7u8, 0xD0u8],
                }) + seq![0x50u8],
            ),
        ),
        CoreInstruction::Shl(_) => Ok(put(st, seq![0x59u8, 0x58u8, 0x48u8, 0xD3u8, 0xE0u8, 0x50u8])),
        CoreInstruction::Shr(_) => Ok(put(st, seq![0x59u8, 0x58u8, 0x48u8, 0xD3u8, 0xE8u8, 0x50u8])),
        CoreInstruction::And(_) => Ok(put(st, seq![0x5Bu8, 0x58u8, 0x48u8, 0x21u8, 0xD8u8, 0x50u8])),
        CoreInstruction::Or(_) => Ok(put(st, seq![0x5Bu8, 0x58u8, 0x48u8, 0x09u8, 0xD8u8, 0x50u8])),
        CoreInstruction::Xor(_) => Ok(put(st, seq![0x5Bu8, 0x58u8, 0x48u8, 0x31u8, 0xD8u8, 0x50u8])),
        CoreInstruction::LoadArg(idx, _) => Ok(
            put(
                st,
                if idx == 0 {
                    seq![0x51u8]
                } else if idx == 1 {
                    seq![0x52u8]
                } else if idx == 2 {
                    seq![0x41u8, 0x50u8]
                } else if idx == 3 {
                    seq![0x41u8, 0x51u8]
                } else {
                    seq![0x48u8, 0x8Bu8, 0x45u8, arg_disp(idx), 0x50u8]
                },
            ),
        ),
        CoreInstruction::StoreLocal(idx, _) => Ok(put(st, seq![0x58u8, 0x48u8, 0x89u8, 0x45u8, local_disp(idx)])),
        CoreInstruction::LoadLocal(idx, _) => Ok(put(st, seq![0x48u8, 0x8Bu8, 0x45u8, local_disp(idx), 0x50u8])),
        CoreInstruction::Alloca(_, _) => Ok(st),
        CoreInstruction::Label(name) => Ok(put_label(st, name@)),
        CoreInstruction::Br(t) => Ok(put_jump(put(st, seq![0xE9u8]), t@)),
        CoreInstruction::BrTrue(t) => Ok(put_jump(put(st, seq![0x58u8, 0x48u8, 0x85u8, 0xC0u8, 0x0Fu8, 0x85u8]), t@)),
        CoreInstruction::BrFalse(t) => Ok(put_jump(put(st, seq![0x58u8, 0x48u8, 0x85u8, 0xC0u8, 0x0Fu8, 0x84u8]), t@)),
        CoreInstruction::Cmp(c, _) => Ok(
            put(
                st,
                seq![0x5Bu8, 0x58u8, 0x48u8, 0x39u8, 0xD8u8] + setcc(c) + seq![0x48u8, 0x0Fu8, 0xB6u8, 0xC0u8, 0x50u8],
            ),
        ),
        CoreInstruction::Call(name, argc) => {
            let s1 = put(st, pop_args(argc as int));
            let s2 = if internal.contains(name@) {
                put_int(s1, name@)
            } else {
                put_ext(s1, name@)
            };
            Ok(put(s2, seq![0x50u8]))
        },
        CoreInstruction::CallIndirect(argc) => Ok(put(st, pop_args(argc as int) + seq![0x58u8, 0xFFu8, 0xD0u8, 0x50u8])),
        CoreInstruction::New(t) => Ok(
            runtime_call(
                put_str(put(st, seq![0x48u8, 0x8Du8, 0x0Du8]), table[t@] as nat),
                "nyar_new_object"@,
                seq![0x50u8],
            ),
        ),
        CoreInstruction::StoreField(_, f) => Ok(
            runtime_call(
                put_str(put(st, seq![0x41u8, 0x58u8, 0x59u8, 0x48u8, 0x8Du8, 0x15u8]), table[f@] as nat),
                "nyar_object_set"@,
                seq![],
            ),
        ),
        CoreInstruction::LoadField(_, f) => Ok(
            runtime_call(
                put_str(put(st, seq![0x59u8, 0x48u8, 0x8Du8, 0x15u8]), table[f@] as nat),
                "nyar_object_get"@,
                seq![0x50u8],
            ),
        ),
        CoreInstruction::NewArray(_, on_stack) => Ok(
            runtime_call(
                put(st, if on_stack { seq![0x59u8] } else { seq![0x48u8, 0x31u8, 0xC9u8] }),
                "nyar_new_array"@,
                seq![0x50u8],
            ),
        ),
        CoreInstruction::StoreElement(_) => Ok(
            runtime_call(put(st, seq![0x41u8, 0x58u8, 0x5Au8, 0x59u8]), "nyar_array_set"@, seq![]),
        ),
        CoreInstruction::LoadElement(_) => Ok(
            runtime_call(put(st, seq![0x5Au8, 0x59u8]), "nyar_array_get"@, seq![0x50u8]),
        ),
        CoreInstruction::ArrayLength => Ok(runtime_call(put(st, seq![0x59u8]), "nyar_array_len"@, seq![0x50u8])),
        CoreInstruction::ArrayPush => Ok(
            runtime_call(put(st, seq![0x5Au8, 0x59u8]), "nyar_array_push"@, seq![0x31u8, 0xC0u8, 0x50u8]),
        ),
        _ => Err("Unsupported core instruction: "@ + core_debug(ci)),
    }
}

/// The code of a managed instruction, or the message of the error. A
/// method call goes through the runtime's inline-cache entry with the VM
/// and cache from the saved arguments, the call-site id (or -1), the
/// receiver, the method name and the argument count.
pub open spec fn x86_managed(st: EmitState, mi: ManagedInstruction, table: Map<Seq<char>, usize>) -> Result<EmitState, Seq<char>> {
    match mi {
        ManagedInstruction::CallMethod { target, method, signature, is_virtual, call_site_id } => {
            let argc = (signature.params@.len() % 0x1_0000_0000) as int;
            let head = seq![0x48u8, 0x83u8, 0xECu8, 0x30u8, 0x48u8, 0x8Bu8, 0x4Du8, 0x10u8, 0x48u8, 0x8Bu8, 0x55u8, 0x18u8, 0x49u8, 0xC7u8, 0xC0u8]
                + (match call_site_id {
                    Some(id) => le32(id as int),
                    None => seq![0xFFu8, 0xFFu8, 0xFFu8, 0xFFu8],
                }) + seq![0x4Cu8, 0x8Bu8, 0x8Cu8, 0x24u8] + le32(48 + argc * 8) + seq![0x48u8, 0x8Du8, 0x05u8];
            let s1 = put_str(put(st, head), table[method@] as nat);
            let s2 = put(s1, seq![0x48u8, 0x89u8, 0x44u8, 0x24u8, 0x20u8, 0x48u8, 0xC7u8, 0x44u8, 0x24u8, 0x28u8] + le32(argc));
            let s3 = put_ext(s2, "nyar_managed_call_method"@);
            Ok(put(s3, seq![0x48u8, 0x83u8, 0xC4u8, 0x30u8, 0x48u8, 0x81u8, 0xC4u8] + le32((argc + 1) * 8) + seq![0x50u8]))
        },
        _ => Err("Unsupported managed instruction: "@ + managed_debug(mi)),
    }
}

/// Whether a neural operator is a matrix product.
pub open spec fn is_matmul(n: NeuralNode) -> bool {
    n.op@ == "MatMul"@
}

/// The code of a domain instruction: a matrix product calls `gaia_matmul`,
/// other neural operators give nothing, the rest is an error.
pub open spec fn x86_domain(st: EmitState, di: DomainInstruction) -> Result<EmitState, Seq<char>> {
    match di {
        DomainInstruction::Neural(n) => Ok(if is_matmul(n) { put_ext(st, "gaia_matmul"@) } else { st }),
        _ => Err("Unsupported domain instruction: "@ + domain_debug(di)),
    }
}

/// The code of an instruction.
pub open spec fn x86_instr(
    st: EmitState,
    i: GaiaInstruction,
    table: Map<Seq<char>, usize>,
    internal: Set<Seq<char>>,
) -> Result<EmitState, Seq<char>> {
    match i {
        GaiaInstruction::Core(c) => x86_core(st, c, table, internal),
        GaiaInstruction::Managed(m) => x86_managed(st, m, table),
        GaiaInstruction::Domain(d) => x86_domain(st, d),
    }
}

/// The code so far starts with `c0`, and every jump hole lies after `c0`,
/// inside the code, apart from every other hole.
pub open spec fn holes_ok(st: EmitState, c0: Seq<u8>) -> bool {
    &&& c0.len() <= st.code.len()
    &&& st.code.subrange(0, c0.len() as int) == c0
    &&& forall|k: int|
        0 <= k < st.jumps.len() ==> c0.len() <= #[trigger] st.jumps[k].0 && st.jumps[k].0 + 4 <= st.code.len()
    &&& forall|j: int, k: int|
        0 <= j < k < st.jumps.len() ==> #[trigger] st.jumps[j].0 + 4 <= #[trigger] st.jumps[k].0
}

pub broadcast proof fn lemma_put_holes(st: EmitState, b: Seq<u8>, c0: Seq<u8>)
    requires
        holes_ok(st, c0),
    ensures
        #[trigger] holes_ok(put(st, b), c0),
{
    assert((st.code + b).subrange(0, c0.len() as int) =~= st.code.subrange(0, c0.len() as int));
}

pub broadcast proof fn lemma_put_ext_holes(st: EmitState, n: Seq<char>, c0: Seq<u8>)
    requires
        holes_ok(st, c0),
    ensures
        #[trigger] holes_ok(put_ext(st, n), c0),
{
    assert(put_ext(st, n).code.subrange(0, c0.len() as int) =~= st.code.subrange(0, c0.len() as int));
}

pub broadcast proof fn lemma_put_int_holes(st: EmitState, n: Seq<char>, c0: Seq<u8>)
    requires
        holes_ok(st, c0),
    ensures
        #[trigger] holes_ok(put_int(st, n), c0),
{
    assert(put_int(st, n).code.subrange(0, c0.len() as int) =~= st.code.subrange(0, c0.len() as int));
}

pub broadcast proof fn lemma_put_str_holes(st: EmitState, o: nat, c0: Seq<u8>)
    requires
        holes_ok(st, c0),
    ensures
        #[trigger] holes_ok(put_str(st, o), c0),
{
    assert(put_str(st, o).code.subrange(0, c0.len() as int) =~= st.code.subrange(0, c0.len() as int));
}

pub broadcast proof fn lemma_put_jump_holes(st: EmitState, l: Seq<char>, c0: Seq<u8>)
    requires
        holes_ok(st, c0),
    ensures
        #[trigger] holes_ok(put_jump(st, l), c0),
{
    let s2 = put_jump(st, l);
    assert(s2.code.subrange(0, c0.len() as int) =~= st.code.subrange(0, c0.len() as int));
    assert forall|k: int| 0 <= k < s2.jumps.len() implies c0.len() <= #[trigger] s2.jumps[k].0 && s2.jumps[k].0 + 4
        <= s2.code.len() by {
        if k < st.jumps.len() {
            assert(s2.jumps[k] == st.jumps[k]);
        }
    }
    assert forall|j: int, k: int| 0 <= j < k < s2.jumps.len() implies #[trigger] s2.jumps[j].0 + 4
        <= #[trigger] s2.jumps[k].0 by {
        assert(s2.jumps[j] == st.jumps[j]);
        if k < st.jumps.len() {
            assert(s2.jumps[k] == st.jumps[k]);
        }
    }
}

pub broadcast proof fn lemma_put_label_holes(st: EmitState, l: Seq<char>, c0: Seq<u8>)
    requires
        holes_ok(st, c0),
    ensures
        #[trigger] holes_ok(put_label(st, l), c0),
{
}

pub broadcast group group_holes {
    lemma_put_holes,
    lemma_put_ext_holes,
    lemma_put_int_holes,
    lemma_put_str_holes,
    lemma_put_jump_holes,
    lemma_put_label_holes,
}

proof fn lemma_instr_holes(st: EmitState, i: GaiaInstruction, table: Map<Seq<char>, usize>, internal: Set<Seq<char>>, c0: Seq<u8>)
    requires
        holes_ok(st, c0),
        x86_instr(st, i, table, internal) is Ok,
    ensures
        holes_ok(x86_instr(st, i, table, internal)->Ok_0, c0),
{
    broadcast use group_holes;
}

/// The code that ends a block: a jump, a test and two jumps, or the
/// epilogue; calls and halts add nothing.
pub open spec fn x86_terminator(st: EmitState, t: GaiaTerminator) -> EmitState {
    match t {
        GaiaTerminator::Jump(l) => put_jump(put(st, seq![0xE9u8]), l@),
        GaiaTerminator::Branch { true_label, false_label } => put_jump(
            put(put_jump(put(st, seq![0x58u8, 0x48u8, 0x85u8, 0xC0u8, 0x0Fu8, 0x85u8]), true_label@), seq![0xE9u8]),
            false_label@,
        ),
        GaiaTerminator::Return => put(st, seq![0x48u8, 0x89u8, 0xECu8, 0x5Du8, 0xC3u8]),
        _ => st,
    }
}

/// Code generation in progress.
pub struct Emitter {
    code: Vec<u8>,
    external_calls: Vec<(String, usize)>,
    internal_calls: Vec<(String, usize)>,
    string_patches: Vec<(usize, usize)>,
    jumps: Vec<(usize, String)>,
    labels: TextMap<usize>,
}

pub open spec fn named_positions(v: Seq<(String, usize)>) -> Seq<(Seq<char>, nat)> {
    v.map_values(|p: (String, usize)| (p.0@, p.1 as nat))
}

pub open spec fn patch_view(v: Seq<(usize, usize)>) -> Seq<(nat, nat)> {
    v.map_values(|p: (usize, usize)| (p.0 as nat, p.1 as nat))
}

pub open spec fn jump_view(v: Seq<(usize, String)>) -> Seq<(nat, Seq<char>)> {
    v.map_values(|p: (usize, String)| (p.0 as nat, p.1@))
}

pub open spec fn label_view(m: Map<Seq<char>, usize>) -> Map<Seq<char>, nat> {
    m.map_values(|p: usize| p as nat)
}

impl Emitter {
    pub closed spec fn state(self) -> EmitState {
        EmitState {
            code: self.code@,
            outside_calls: named_positions(self.external_calls@),
            inside_calls: named_positions(self.internal_calls@),
            strs: patch_view(self.string_patches@),
            jumps: jump_view(self.jumps@),
            labels: label_view(self.labels.as_map()),
        }
    }

    fn bytes(&mut self, b: &[u8])
        ensures
            final(self).state() == put(old(self).state(), b@),
            final(self).code@.len() == old(self).code@.len() + b@.len(),
    {
        let mut i: usize = 0;
        while i < b.len()
            invariant
                i <= b@.len(),
                self.code@ == old(self).code@ + b@.take(i as int),
                self.external_calls == old(self).external_calls,
                self.internal_calls == old(self).internal_calls,
                self.string_patches == old(self).string_patches,
                self.jumps == old(self).jumps,
                self.labels == old(self).labels,
            decreases b.len() - i,
        {
            self.code.push(b[i]);
            i = i + 1;
            assert(self.code@ =~= old(self).code@ + b@.take(i as int));
        }
        assert(b@.take(i as int) =~= b@);
    }

    fn ext_call(&mut self, name: &str)
        ensures
            final(self).state() == put_ext(old(self).state(), name@),
            final(self).code@.len() == old(self).code@.len() + 6,
    {
        let pos = self.code.len();
        self.external_calls.push((owned(name), pos));
        let hole: [u8; 6] = [0xFF, 0x15, 0, 0, 0, 0];
        self.bytes(&hole);
        proof {
            assert(named_positions(self.external_calls@) =~= named_positions(old(self).external_calls@).push(
                (name@, pos as nat),
            ));
            assert(hole@ =~= seq![0xFFu8, 0x15u8, 0u8, 0u8, 0u8, 0u8]);
        }
    }

    fn int_call(&mut self, name: &str)
        ensures
            final(self).state() == put_int(old(self).state(), name@),
            final(self).code@.len() == old(self).code@.len() + 5,
    {
        let pos = self.code.len();
        self.internal_calls.push((owned(name), pos));
        let hole: [u8; 5] = [0xE8, 0, 0, 0, 0];
        self.bytes(&hole);
        proof {
            assert(named_positions(self.internal_calls@) =~= named_positions(old(self).internal_calls@).push(
                (name@, pos as nat),
            ));
            assert(hole@ =~= seq![0xE8u8, 0u8, 0u8, 0u8, 0u8]);
        }
    }

    fn str_ref(&mut self, offset: usize)
        ensures
            final(self).state() == put_str(old(self).state(), offset as nat),
            final(self).code@.len() == old(self).code@.len() + 4,
    {
        let pos = self.code.len();
        self.string_patches.push((pos, offset));
        let hole: [u8; 4] = [0, 0, 0, 0];
        self.bytes(&hole);
        proof {
            assert(patch_view(self.string_patches@) =~= patch_view(old(self).string_patches@).push(
                (pos as nat, offset as nat),
            ));
            assert(hole@ =~= seq![0u8, 0u8, 0u8, 0u8]);
        }
    }

    fn jump(&mut self, label: &str)
        ensures
            final(self).state() == put_jump(old(self).state(), label@),
            final(self).code@.len() == old(self).code@.len() + 4,
    {
        let pos = self.code.len();
        self.jumps.push((pos, owned(label)));
        let hole: [u8; 4] = [0, 0, 0, 0];
        self.bytes(&hole);
        proof {
            assert(jump_view(self.jumps@) =~= jump_view(old(self).jumps@).push((pos as nat, label@)));
            assert(hole@ =~= seq![0u8, 0u8, 0u8, 0u8]);
        }
    }

    fn label(&mut self, name: &str)
        ensures
            final(self).state() == put_label(old(self).state(), name@),
            final(self).code@ == old(self).code@,
    {
        let pos = self.code.len();
        self.labels.insert(owned(name), pos);
        assert(label_view(self.labels.as_map()) =~= label_view(old(self).labels.as_map()).insert(
            name@,
            pos as nat,
        ));
    }
}

/// The names of the functions of the module.
pub open spec fn name_set(v: Seq<String>) -> Set<Seq<char>> {
    string_views(v).to_set()
}

fn is_internal(internal: &Vec<String>, name: &str) -> (r: bool)
    ensures
        r == name_set(internal@).contains(name@),
{
    let mut i: usize = 0;
    while i < internal.len()
        invariant
            i <= internal@.len(),
            forall|j: int| 0 <= j < i ==> (#[trigger] internal@[j])@ != name@,
        decreases internal.len() - i,
    {
        if str_eq(internal[i].as_str(), name) {
            proof {
                assert(string_views(internal@)[i as int] == name@);
            }
            return true;
        }
        i = i + 1;
    }
    proof {
        if string_views(internal@).to_set().contains(name@) {
            let k = choose|k: int| 0 <= k < string_views(internal@).len() && string_views(internal@)[k] == name@;
            assert(internal@[k]@ == name@);
        }
    }
    false
}

fn unsupported(prefix: &str, detail: String) -> (r: GaiaError)
    ensures
        r matches GaiaError::Custom { message } && message@ == prefix@ + detail@,
{
    let mut m = owned(prefix);
    push_str(&mut m, detail.as_str());
    GaiaError::Custom { message: m }
}

/// Whether emitting gave the expected state or error.
pub open spec fn emitted(
    r: Result<(), GaiaError>,
    after: EmitState,
    before: EmitState,
    expected: Result<EmitState, Seq<char>>,
) -> bool {
    match expected {
        Ok(s) => r is Ok && after == s,
        Err(m) => r matches Err(GaiaError::Custom { message }) && message@ == m && after == before,
    }
}

impl Emitter {
    fn string_ref(&mut self, table: &TextMap<usize>, s: &String)
        requires
            table.as_map().dom().contains(s@),
        ensures
            final(self).state() == put_str(old(self).state(), table.as_map()[s@] as nat),
    {
        let offset = *table.get(s.as_str()).unwrap();
        self.str_ref(offset);
    }

    fn runtime(&mut self, name: &str, tail: &[u8])
        ensures
            final(self).state() == runtime_call(old(self).state(), name@, tail@),
    {
        let sub: [u8; 4] = [0x48, 0x83, 0xEC, 0x20];
        self.bytes(&sub);
        self.ext_call(name);
        let mut rest: Vec<u8> = Vec::new();
        rest.push(0x48);
        rest.push(0x83);
        rest.push(0xC4);
        rest.push(0x20);
        let mut i: usize = 0;
        while i < tail.len()
            invariant
                i <= tail@.len(),
                rest@ == release_shadow() + tail@.take(i as int),
            decreases tail.len() - i,
        {
            rest.push(tail[i]);
            i = i + 1;
            assert(rest@ =~= release_shadow() + tail@.take(i as int));
        }
        assert(tail@.take(i as int) =~= tail@);
        self.bytes(rest.as_slice());
        assert(sub@ =~= reserve_shadow());
    }

    fn pops(&mut self, argc: usize)
        ensures
            final(self).state() == put(old(self).state(), pop_args(argc as int)),
    {
        let mut v: Vec<u8> = Vec::new();
        if argc >= 4 {
            v.push(0x41);
            v.push(0x59);
        }
        if argc >= 3 {
            v.push(0x41);
            v.push(0x58);
        }
        if argc >= 2 {
            v.push(0x5A);
        }
        if argc >= 1 {
            v.push(0x59);
        }
        assert(v@ =~= pop_args(argc as int));
        self.bytes(v.as_slice());
    }

    fn one(&mut self, b: u8)
        ensures
            final(self).state() == put(old(self).state(), seq![b]),
    {
        let a: [u8; 1] = [b];
        assert(a@ =~= seq![b]);
        self.bytes(&a);
    }

    fn emit_core(
        &mut self,
        ci: &CoreInstruction,
        table: &TextMap<usize>,
        internal: &Vec<String>,
    ) -> (r: Result<(), GaiaError>)
        requires
            strings_known(GaiaInstruction::Core(*ci), table.as_map()),
        ensures
            emitted(r, final(self).state(), old(self).state(), x86_core(old(self).state(), *ci, table.as_map(), name_set(internal@))),
    {
        match ci {
            CoreInstruction::PushConstant(constant) => match constant {
                GaiaConstant::I8(v) => {
                    let a: [u8; 2] = [0x6A, *v as u8];
                    assert(a@ =~= seq![0x6Au8, *v as u8]);
                    self.bytes(&a);
                },
                GaiaConstant::I16(v) => {
                    let mut b: Vec<u8> = Vec::new();
                    b.push(0x68);
                    let mut le = le32_of(*v as i128);
                    b.append(&mut le);
                    self.bytes(b.as_slice());
                },
                GaiaConstant::I32(v) => {
                    let mut b: Vec<u8> = Vec::new();
                    b.push(0x68);
                    let mut le = le32_of(*v as i128);
                    b.append(&mut le);
                    self.bytes(b.as_slice());
                },
                GaiaConstant::I64(v) => {
                    let mut b: Vec<u8> = Vec::new();
                    b.push(0x48);
                    b.push(0xB8);
                    let mut le = le64_of(*v);
                    b.append(&mut le);
                    b.push(0x50);
                    assert(b@ =~= seq![0x48u8, 0xB8u8] + le64(*v as int) + seq![0x50u8]);
                    self.bytes(b.as_slice());
                },
                GaiaConstant::String(s) => {
                    let a: [u8; 3] = [0x48, 0x8D, 0x05];
                    assert(a@ =~= seq![0x48u8, 0x8Du8, 0x05u8]);
                    self.bytes(&a);
                    self.string_ref(table, s);
                    self.one(0x50);
                },
                _ => {
                    return Err(GaiaError::custom_error("Unsupported constant type for x86 backend"));
                },
            },
            CoreInstruction::Pop => self.one(0x58),
            CoreInstruction::Dup => {
                let a: [u8; 5] = [0x48, 0x8B, 0x04, 0x24, 0x50];
                assert(a@ =~= seq![0x48u8, 0x8Bu8, 0x04u8, 0x24u8, 0x50u8]);
                self.bytes(&a);
            },
            CoreInstruction::Add(_) => {
                let a: [u8; 6] = [0x5B, 0x58, 0x48, 0x01, 0xD8, 0x50];
                assert(a@ =~= seq![0x5Bu8, 0x58u8, 0x48u8, 0x01u8, 0xD8u8, 0x50u8]);
                self.bytes(&a);
            },
            CoreInstruction::Sub(_) => {
                let a: [u8; 6] = [0x5B, 0x58, 0x48, 0x29, 0xD8, 0x50];
                assert(a@ =~= seq![0x5Bu8, 0x58u8, 0x48u8, 0x29u8, 0xD8u8, 0x50u8]);
                self.bytes(&a);
            },
            CoreInstruction::Mul(_) => {
                let a: [u8; 7] = [0x5B, 0x58, 0x48, 0x0F, 0xAF, 0xC3, 0x50];
                assert(a@ =~= seq![0x5Bu8, 0x58u8, 0x48u8, 0x0Fu8, 0xAFu8, 0xC3u8, 0x50u8]);
                self.bytes(&a);
            },
            CoreInstruction::Div(_) => {
                let a: [u8; 8] = [0x5B, 0x58, 0x48, 0x99, 0x48, 0xF7, 0xFB, 0x50];
                assert(a@ =~= seq![0x5Bu8, 0x58u8, 0x48u8, 0x99u8, 0x48u8, 0xF7u8, 0xFBu8, 0x50u8]);
                self.bytes(&a);
            },
            CoreInstruction::Rem(_) => {
                let a: [u8; 8] = [0x5B, 0x58, 0x48, 0x99, 0x48, 0xF7, 0xFB, 0x52];
                assert(a@ =~= seq![0x5Bu8, 0x58u8, 0x48u8, 0x99u8, 0x48u8, 0xF7u8, 0xFBu8, 0x52u8]);
                self.bytes(&a);
            },
            CoreInstruction::Neg(_) => {
                let a: [u8; 5] = [0x58, 0x48, 0xF7, 0xD8, 0x50];
                assert(a@ =~= seq![0x58u8, 0x48u8, 0xF7u8, 0xD8u8, 0x50u8]);
                self.bytes(&a);
            },
            CoreInstruction::Not(ty) => {
                let mut v: Vec<u8> = Vec::new();
                v.push(0x58);
                match ty {
                    GaiaType::Bool => {
                        v.push(0x48);
                        v.push(0x83);
                        v.push(0xF0);
                        v.push(0x01);
                    },
                    _ => {
                        v.push(0x48);
                        v.push(0xF7);
                        v.push(0xD0);
                    },
                }
                v.push(0x50);
                assert(v@ =~= seq![0x58u8] + (match *ty {
                    GaiaType::Bool => seq![0x48u8, 0x83u8, 0xF0u8, 0x01u8],
                    _ => seq![0x48u8, 0xF7u8, 0xD0u8],
                }) + seq![0x50u8]);
                self.bytes(v.as_slice());
            },
            CoreInstruction::Shl(_) => {
                let a: [u8; 6] = [0x59, 0x58, 0x48, 0xD3, 0xE0, 0x50];
                assert(a@ =~= seq![0x59u8, 0x58u8, 0x48u8, 0xD3u8, 0xE0u8, 0x50u8]);
                self.bytes(&a);
            },
            CoreInstruction::Shr(_) => {
                let a: [u8; 6] = [0x59, 0x58, 0x48, 0xD3, 0xE8, 0x50];
                assert(a@ =~= seq![0x59u8, 0x58u8, 0x48u8, 0xD3u8, 0xE8u8, 0x50u8]);
                self.bytes(&a);
            },
            CoreInstruction::And(_) => {
                let a: [u8; 6] = [0x5B, 0x58, 0x48, 0x21, 0xD8, 0x50];
                assert(a@ =~= seq![0x5Bu8, 0x58u8, 0x48u8, 0x21u8, 0xD8u8, 0x50u8]);
                self.bytes(&a);
            },
            CoreInstruction::Or(_) => {
                let a: [u8; 6] = [0x5B, 0x58, 0x48, 0x09, 0xD8, 0x50];
                assert(a@ =~= seq![0x5Bu8, 0x58u8, 0x48u8, 0x09u8, 0xD8u8, 0x50u8]);
                self.bytes(&a);
            },
            CoreInstruction::Xor(_) => {
                let a: [u8; 6] = [0x5B, 0x58, 0x48, 0x31, 0xD8, 0x50];
                assert(a@ =~= seq![0x5Bu8, 0x58u8, 0x48u8, 0x31u8, 0xD8u8, 0x50u8]);
                self.bytes(&a);
            },
            CoreInstruction::LoadArg(idx, _) => {
                let i = *idx;
                if i == 0 {
                    self.one(0x51);
                } else if i == 1 {
                    self.one(0x52);
                } else if i == 2 {
                    let a: [u8; 2] = [0x41, 0x50];
                    assert(a@ =~= seq![0x41u8, 0x50u8]);
                    self.bytes(&a);
                } else if i == 3 {
                    let a: [u8; 2] = [0x41, 0x51];
                    assert(a@ =~= seq![0x41u8, 0x51u8]);
                    self.bytes(&a);
                } else {
                    let d: u8 = ((48 + ((i as u64) - 4) * 8) % 256) as u8;
                    let a: [u8; 5] = [0x48, 0x8B, 0x45, d, 0x50];
                    assert(a@ =~= seq![0x48u8, 0x8Bu8, 0x45u8, arg_disp(i), 0x50u8]);
                    self.bytes(&a);
                }
            },
            CoreInstruction::StoreLocal(idx, _) => {
                let d = local_byte(*idx);
                let a: [u8; 5] = [0x58, 0x48, 0x89, 0x45, d];
                assert(a@ =~= seq![0x58u8, 0x48u8, 0x89u8, 0x45u8, local_disp(*idx)]);
                self.bytes(&a);
            },
            CoreInstruction::LoadLocal(idx, _) => {
                let d = local_byte(*idx);
                let a: [u8; 5] = [0x48, 0x8B, 0x45, d, 0x50];
                assert(a@ =~= seq![0x48u8, 0x8Bu8, 0x45u8, local_disp(*idx), 0x50u8]);
                self.bytes(&a);
            },
            CoreInstruction::Alloca(_, _) => {},
            CoreInstruction::Label(name) => self.label(name.as_str()),
            CoreInstruction::Br(target) => {
                self.one(0xE9);
                self.jump(target.as_str());
            },
            CoreInstruction::BrTrue(target) => {
                let a: [u8; 6] = [0x58, 0x48, 0x85, 0xC0, 0x0F, 0x85];
                assert(a@ =~= seq![0x58u8, 0x48u8, 0x85u8, 0xC0u8, 0x0Fu8, 0x85u8]);
                self.bytes(&a);
                self.jump(target.as_str());
            },
            CoreInstruction::BrFalse(target) => {
                let a: [u8; 6] = [0x58, 0x48, 0x85, 0xC0, 0x0F, 0x84];
                assert(a@ =~= seq![0x58u8, 0x48u8, 0x85u8, 0xC0u8, 0x0Fu8, 0x84u8]);
                self.bytes(&a);
                self.jump(target.as_str());
            },
            CoreInstruction::Cmp(cond, _) => {
                let cc: u8 = match cond {
                    CmpCondition::Eq => 0x94,
                    CmpCondition::Ne => 0x95,
                    CmpCondition::Lt => 0x9C,
                    CmpCondition::Le => 0x9E,
                    CmpCondition::Gt => 0x9F,
                    CmpCondition::Ge => 0x9D,
                };
                let a: [u8; 13] = [0x5B, 0x58, 0x48, 0x39, 0xD8, 0x0F, cc, 0xC0, 0x48, 0x0F, 0xB6, 0xC0, 0x50];
                assert(a@ =~= seq![0x5Bu8, 0x58u8, 0x48u8, 0x39u8, 0xD8u8] + setcc(*cond) + seq![0x48u8, 0x0Fu8, 0xB6u8, 0xC0u8, 0x50u8]);
                self.bytes(&a);
            },
            CoreInstruction::Call(name, argc) => {
                self.pops(*argc);
                if is_internal(internal, name.as_str()) {
                    self.int_call(name.as_str());
                } else {
                    self.ext_call(name.as_str());
                }
                self.one(0x50);
            },
            CoreInstruction::CallIndirect(argc) => {
                let mut v: Vec<u8> = Vec::new();
                let n = *argc;
                if n >= 4 {
                    v.push(0x41);
                    v.push(0x59);
                }
                if n >= 3 {
                    v.push(0x41);
                    v.push(0x58);
                }
                if n >= 2 {
                    v.push(0x5A);
                }
                if n >= 1 {
                    v.push(0x59);
                }
                v.push(0x58);
                v.push(0xFF);
                v.push(0xD0);
                v.push(0x50);
                assert(v@ =~= pop_args(n as int) + seq![0x58u8, 0xFFu8, 0xD0u8, 0x50u8]);
                self.bytes(v.as_slice());
            },
            CoreInstruction::New(ty_name) => {
                let a: [u8; 3] = [0x48, 0x8D, 0x0D];
                assert(a@ =~= seq![0x48u8, 0x8Du8, 0x0Du8]);
                self.bytes(&a);
                self.string_ref(table, ty_name);
                let t: [u8; 1] = [0x50];
                assert(t@ =~= seq![0x50u8]);
                self.runtime("nyar_new_object", &t);
            },
            CoreInstruction::StoreField(_, field) => {
                let a: [u8; 6] = [0x41, 0x58, 0x59, 0x48, 0x8D, 0x15];
                assert(a@ =~= seq![0x41u8, 0x58u8, 0x59u8, 0x48u8, 0x8Du8, 0x15u8]);
                self.bytes(&a);
                self.string_ref(table, field);
                let t: [u8; 0] = [];
                assert(t@ =~= seq![]);
                self.runtime("nyar_object_set", &t);
            },
            CoreInstruction::LoadField(_, field) => {
                let a: [u8; 4] = [0x59, 0x48, 0x8D, 0x15];
                assert(a@ =~= seq![0x59u8, 0x48u8, 0x8Du8, 0x15u8]);
                self.bytes(&a);
                self.string_ref(table, field);
                let t: [u8; 1] = [0x50];
                assert(t@ =~= seq![0x50u8]);
                self.runtime("nyar_object_get", &t);
            },
            CoreInstruction::NewArray(_, len_on_stack) => {
                if *len_on_stack {
                    self.one(0x59);
                } else {
                    let a: [u8; 3] = [0x48, 0x31, 0xC9];
                    assert(a@ =~= seq![0x48u8, 0x31u8, 0xC9u8]);
                    self.bytes(&a);
                }
                let t: [u8; 1] = [0x50];
                assert(t@ =~= seq![0x50u8]);
                self.runtime("nyar_new_array", &t);
            },
            CoreInstruction::StoreElement(_) => {
                let a: [u8; 4] = [0x41, 0x58, 0x5A, 0x59];
                assert(a@ =~= seq![0x41u8, 0x58u8, 0x5Au8, 0x59u8]);
                self.bytes(&a);
                let t: [u8; 0] = [];
                assert(t@ =~= seq![]);
                self.runtime("nyar_array_set", &t);
            },
            CoreInstruction::LoadElement(_) => {
                let a: [u8; 2] = [0x5A, 0x59];
                assert(a@ =~= seq![0x5Au8, 0x59u8]);
                self.bytes(&a);
                let t: [u8; 1] = [0x50];
                assert(t@ =~= seq![0x50u8]);
                self.runtime("nyar_array_get", &t);
            },
            CoreInstruction::ArrayLength => {
                self.one(0x59);
                let t: [u8; 1] = [0x50];
                assert(t@ =~= seq![0x50u8]);
                self.runtime("nyar_array_len", &t);
            },
            CoreInstruction::ArrayPush => {
                let a: [u8; 2] = [0x5A, 0x59];
                assert(a@ =~= seq![0x5Au8, 0x59u8]);
                self.bytes(&a);
                let t: [u8; 3] = [0x31, 0xC0, 0x50];
                assert(t@ =~= seq![0x31u8, 0xC0u8, 0x50u8]);
                self.runtime("nyar_array_push", &t);
            },
            _ => {
                return Err(unsupported("Unsupported core instruction: ", core_debug_text(ci)));
            },
        }
        Ok(())
    }
}

fn local_byte(idx: u32) -> (r: u8)
    ensures
        r == local_disp(idx),
{
    let off: u64 = ((idx as u64) + 1) * 8;
    let m: u64 = off % 256;
    let r: u8 = if m == 0 { 0 } else { (256 - m) as u8 };
    assert(r == local_disp(idx)) by (nonlinear_arith)
        requires
            off == (idx + 1) * 8,
            m == off % 256,
            r == (if m == 0 { 0 } else { 256 - m }),
    {
    }
    r
}

impl Emitter {
    fn emit_managed(&mut self, mi: &ManagedInstruction, table: &TextMap<usize>) -> (r: Result<(), GaiaError>)
        requires
            strings_known(GaiaInstruction::Managed(*mi), table.as_map()),
        ensures
            emitted(r, final(self).state(), old(self).state(), x86_managed(old(self).state(), *mi, table.as_map())),
    {
        match mi {
            ManagedInstruction::CallMethod { method, signature, call_site_id, .. } => {
                let argc: u64 = (signature.params.len() as u64) % 0x1_0000_0000;
                let mut head: Vec<u8> = Vec::new();
                head.push(0x48);
                head.push(0x83);
                head.push(0xEC);
                head.push(0x30);
                head.push(0x48);
                head.push(0x8B);
                head.push(0x4D);
                head.push(0x10);
                head.push(0x48);
                head.push(0x8B);
                head.push(0x55);
                head.push(0x18);
                head.push(0x49);
                head.push(0xC7);
                head.push(0xC0);
                let ghost h0 = head@;
                assert(h0 =~= seq![0x48u8, 0x83u8, 0xECu8, 0x30u8, 0x48u8, 0x8Bu8, 0x4Du8, 0x10u8, 0x48u8, 0x8Bu8, 0x55u8, 0x18u8, 0x49u8, 0xC7u8, 0xC0u8]);
                let mut id_bytes = match call_site_id {
                    Some(id) => le32_of(*id as i128),
                    None => {
                        let mut v: Vec<u8> = Vec::new();
                        v.push(0xFF);
                        v.push(0xFF);
                        v.push(0xFF);
                        v.push(0xFF);
                        v
                    },
                };
                let ghost ib = id_bytes@;
                head.append(&mut id_bytes);
                head.push(0x4C);
                head.push(0x8B);
                head.push(0x8C);
                head.push(0x24);
                let mut recv = le32_of((48 + argc * 8) as i128);
                let ghost rb = recv@;
                head.append(&mut recv);
                head.push(0x48);
                head.push(0x8D);
                head.push(0x05);
                proof {
                    assert(head@ =~= h0 + ib + seq![0x4Cu8, 0x8Bu8, 0x8Cu8, 0x24u8] + rb + seq![0x48u8, 0x8Du8, 0x05u8]);
                }
                let ghost argc_s = (signature.params@.len() % 0x1_0000_0000) as int;
                assert(argc == argc_s);
                assert(ib == (match *call_site_id {
                    Some(id) => le32(id as int),
                    None => seq![0xFFu8, 0xFFu8, 0xFFu8, 0xFFu8],
                }));
                assert(rb == le32(48 + argc_s * 8));
                let ghost st0 = self.state();
                self.bytes(head.as_slice());
                self.string_ref(table, method);
                let mut mid: Vec<u8> = Vec::new();
                mid.push(0x48);
                mid.push(0x89);
                mid.push(0x44);
                mid.push(0x24);
                mid.push(0x20);
                mid.push(0x48);
                mid.push(0xC7);
                mid.push(0x44);
                mid.push(0x24);
                mid.push(0x28);
                let ghost m0 = mid@;
                assert(m0 =~= seq![0x48u8, 0x89u8, 0x44u8, 0x24u8, 0x20u8, 0x48u8, 0xC7u8, 0x44u8, 0x24u8, 0x28u8]);
                let mut ab = le32_of(argc as i128);
                let ghost abv = ab@;
                mid.append(&mut ab);
                assert(mid@ =~= m0 + abv);
                self.bytes(mid.as_slice());
                self.ext_call("nyar_managed_call_method");
                let mut tail: Vec<u8> = Vec::new();
                tail.push(0x48);
                tail.push(0x83);
                tail.push(0xC4);
                tail.push(0x30);
                tail.push(0x48);
                tail.push(0x81);
                tail.push(0xC4);
                let ghost t0 = tail@;
                assert(t0 =~= seq![0x48u8, 0x83u8, 0xC4u8, 0x30u8, 0x48u8, 0x81u8, 0xC4u8]);
                let mut pb = le32_of(((argc + 1) * 8) as i128);
                let ghost pbv = pb@;
                tail.append(&mut pb);
                tail.push(0x50);
                assert(tail@ =~= t0 + pbv + seq![0x50u8]);
                self.bytes(tail.as_slice());
                assert(x86_managed(st0, *mi, table.as_map()) == Ok::<EmitState, Seq<char>>(self.state()));
                Ok(())
            },
            _ => Err(unsupported("Unsupported managed instruction: ", managed_debug_text(mi))),
        }
    }

    fn emit_domain(&mut self, di: &DomainInstruction) -> (r: Result<(), GaiaError>)
        ensures
            emitted(r, final(self).state(), old(self).state(), x86_domain(old(self).state(), *di)),
    {
        match di {
            DomainInstruction::Neural(node) => {
                if str_eq(node.op.as_str(), "MatMul") {
                    self.ext_call("gaia_matmul");
                }
                Ok(())
            },
            _ => Err(unsupported("Unsupported domain instruction: ", domain_debug_text(di))),
        }
    }

    fn emit_instr(&mut self, i: &GaiaInstruction, table: &TextMap<usize>, internal: &Vec<String>) -> (r: Result<(), GaiaError>)
        requires
            strings_known(*i, table.as_map()),
        ensures
            emitted(r, final(self).state(), old(self).state(), x86_instr(old(self).state(), *i, table.as_map(), name_set(internal@))),
    {
        match i {
            GaiaInstruction::Core(c) => self.emit_core(c, table, internal),
            GaiaInstruction::Managed(m) => self.emit_managed(m, table),
            GaiaInstruction::Domain(d) => self.emit_domain(d),
        }
    }

    fn emit_terminator(&mut self, t: &GaiaTerminator)
        ensures
            final(self).state() == x86_terminator(old(self).state(), *t),
    {
        match t {
            GaiaTerminator::Jump(target) => {
                self.one(0xE9);
                self.jump(target.as_str());
            },
            GaiaTerminator::Branch { true_label, false_label } => {
                let a: [u8; 6] = [0x58, 0x48, 0x85, 0xC0, 0x0F, 0x85];
                assert(a@ =~= seq![0x58u8, 0x48u8, 0x85u8, 0xC0u8, 0x0Fu8, 0x85u8]);
                self.bytes(&a);
                self.jump(true_label.as_str());
                self.one(0xE9);
                self.jump(false_label.as_str());
            },
            GaiaTerminator::Return => {
                let a: [u8; 5] = [0x48, 0x89, 0xEC, 0x5D, 0xC3];
                assert(a@ =~= seq![0x48u8, 0x89u8, 0xECu8, 0x5Du8, 0xC3u8]);
                self.bytes(&a);
            },
            _ => {},
        }
    }
}

/// How many stack slots the blocks allocate (one per `Alloca`).
pub open spec fn alloca_count(is: Seq<GaiaInstruction>) -> nat
    decreases is.len(),
{
    if is.len() == 0 {
        0
    } else {
        alloca_count(is.drop_last()) + (if is.last() matches GaiaInstruction::Core(CoreInstruction::Alloca(_, _)) {
            1nat
        } else {
            0nat
        })
    }
}

/// All instructions of the blocks, in order.
pub open spec fn block_instrs(bs: Seq<GaiaBlock>) -> Seq<GaiaInstruction>
    decreases bs.len(),
{
    if bs.len() == 0 {
        seq![]
    } else {
        block_instrs(bs.drop_last()) + bs.last().instructions@
    }
}

/// Whether some instruction is a managed method call.
pub open spec fn has_method_call(is: Seq<GaiaInstruction>) -> bool {
    exists|k: int| 0 <= k < is.len() && (#[trigger] is[k]) matches GaiaInstruction::Managed(ManagedInstruction::CallMethod { .. })
}

/// The frame size: 8 bytes per slot plus 64 bytes of call space when
/// methods are called (32 otherwise), rounded up to 16.
pub open spec fn frame_size(f: GaiaFunction) -> nat {
    let is = block_instrs(f.blocks@);
    let raw = alloca_count(is) * 8 + (if has_method_call(is) { 64nat } else { 32nat });
    ((raw + 15) / 16 * 16) as nat
}

/// The prologue: `push rbp; mov rbp, rsp`, the frame reservation
/// (`sub rsp, imm8` up to 127, `sub rsp, imm32` above), and the four
/// register arguments saved above the return address.
pub open spec fn prologue(total: nat) -> Seq<u8> {
    seq![0x55u8, 0x48u8, 0x89u8, 0xE5u8] + (if total <= 127 {
        seq![0x48u8, 0x83u8, 0xECu8, total as u8]
    } else {
        seq![0x48u8, 0x81u8, 0xECu8] + le32(total as int)
    }) + seq![
        0x48u8, 0x89u8, 0x4Du8, 0x10u8, 0x48u8, 0x89u8, 0x55u8, 0x18u8, 0x4Cu8, 0x89u8, 0x45u8, 0x20u8,
        0x4Cu8, 0x89u8, 0x4Du8, 0x28u8,
    ]
}

/// The code of instructions in order; the first error stops it.
pub open spec fn x86_instrs(
    st: EmitState,
    is: Seq<GaiaInstruction>,
    table: Map<Seq<char>, usize>,
    internal: Set<Seq<char>>,
) -> Result<EmitState, Seq<char>>
    decreases is.len(),
{
    if is.len() == 0 {
        Ok(st)
    } else {
        match x86_instrs(st, is.drop_last(), table, internal) {
            Ok(s) => x86_instr(s, is.last(), table, internal),
            Err(m) => Err(m),
        }
    }
}

/// The code of blocks in order: each block's label, instructions and
/// terminator.
pub open spec fn x86_blocks(
    st: EmitState,
    bs: Seq<GaiaBlock>,
    table: Map<Seq<char>, usize>,
    internal: Set<Seq<char>>,
) -> Result<EmitState, Seq<char>>
    decreases bs.len(),
{
    if bs.len() == 0 {
        Ok(st)
    } else {
        match x86_blocks(st, bs.drop_last(), table, internal) {
            Ok(s) => {
                let b = bs.last();
                match x86_instrs(put_label(s, b.label@), b.instructions@, table, internal) {
                    Ok(s2) => Ok(x86_terminator(s2, b.terminator)),
                    Err(m) => Err(m),
                }
            },
            Err(m) => Err(m),
        }
    }
}

/// Whether byte `i` lies in no jump hole.
pub open spec fn outside_holes(jumps: Seq<(nat, Seq<char>)>, i: int) -> bool {
    forall|k: int| 0 <= k < jumps.len() ==> !(#[trigger] jumps[k].0 <= i && i < jumps[k].0 + 4)
}

/// Whether no other hole overlaps hole `k`.
pub open spec fn hole_alone(jumps: Seq<(nat, Seq<char>)>, k: int) -> bool {
    forall|j: int|
        0 <= j < jumps.len() && j != k ==> #[trigger] jumps[j].0 + 4 <= jumps[k].0 || jumps[k].0 + 4 <= jumps[j].0
}

/// Filling jump holes keeps the code's length and every byte outside the
/// holes; a hole of a known label that lies in the code and that no other
/// hole overlaps holds the distance from its end to its label.
pub proof fn law_patch_jumps(code: Seq<u8>, jumps: Seq<(nat, Seq<char>)>, labels: Map<Seq<char>, nat>)
    ensures
        patch_jumps(code, jumps, labels).len() == code.len(),
        forall|i: int|
            0 <= i < code.len() && outside_holes(jumps, i) ==> #[trigger] patch_jumps(code, jumps, labels)[i]
                == code[i],
        forall|k: int|
            0 <= k < jumps.len() && labels.dom().contains(jumps[k].1) && jumps[k].0 + 4 <= code.len()
                && hole_alone(jumps, k) ==> (#[trigger] patch_jumps(code, jumps, labels)).subrange(
                jumps[k].0 as int,
                (jumps[k].0 + 4) as int,
            ) == le32(labels[jumps[k].1] - (jumps[k].0 + 4)),
    decreases jumps.len(),
{
    if jumps.len() > 0 {
        let d = jumps.drop_last();
        law_patch_jumps(code, d, labels);
        let c = patch_jumps(code, d, labels);
        let p = jumps.last().0;
        let name = jumps.last().1;
        let out = patch_jumps(code, jumps, labels);
        let n = jumps.len() - 1;
        assert(jumps[n] == jumps.last());
        if labels.dom().contains(name) && p + 4 <= c.len() {
            lemma_le32_len(labels[name] - (p + 4));
        }
        assert forall|i: int| 0 <= i < code.len() && outside_holes(jumps, i) implies #[trigger] out[i] == code[i] by {
            assert(!(jumps[n].0 <= i && i < jumps[n].0 + 4));
            assert forall|k: int| 0 <= k < d.len() implies !(#[trigger] d[k].0 <= i && i < d[k].0 + 4) by {
                assert(d[k] == jumps[k]);
                assert(!(jumps[k].0 <= i && i < jumps[k].0 + 4));
            }
            assert(outside_holes(d, i));
        }
        assert forall|k: int|
            0 <= k < jumps.len() && labels.dom().contains(jumps[k].1) && jumps[k].0 + 4 <= code.len()
                && hole_alone(jumps, k) implies out.subrange(jumps[k].0 as int, (jumps[k].0 + 4) as int) == le32(
            labels[jumps[k].1] - (jumps[k].0 + 4),
        ) by {
            if k == n {
                assert(out.subrange(p as int, (p + 4) as int) =~= le32(labels[name] - (p + 4)));
            } else {
                assert(d[k] == jumps[k]);
                assert forall|j: int| 0 <= j < d.len() && j != k implies #[trigger] d[j].0 + 4 <= d[k].0 || d[k].0 + 4
                    <= d[j].0 by {
                    assert(d[j] == jumps[j]);
                    assert(jumps[j].0 + 4 <= jumps[k].0 || jumps[k].0 + 4 <= jumps[j].0);
                }
                assert(hole_alone(d, k));
                assert(c.subrange(d[k].0 as int, (d[k].0 + 4) as int) == le32(labels[d[k].1] - (d[k].0 + 4)));
                assert(jumps[n].0 + 4 <= jumps[k].0 || jumps[k].0 + 4 <= jumps[n].0);
                assert(out.subrange(jumps[k].0 as int, (jumps[k].0 + 4) as int) =~= c.subrange(
                    jumps[k].0 as int,
                    (jumps[k].0 + 4) as int,
                ));
            }
        }
    }
}

/// Where the code of instructions stands when it stops: after the last
/// instruction that has a form here (all of them if none fails).
pub open spec fn x86_instrs_stop(
    st: EmitState,
    is: Seq<GaiaInstruction>,
    table: Map<Seq<char>, usize>,
    internal: Set<Seq<char>>,
) -> EmitState
    decreases is.len(),
{
    if is.len() == 0 {
        st
    } else {
        match x86_instrs(st, is.drop_last(), table, internal) {
            Ok(s) => match x86_instr(s, is.last(), table, internal) {
                Ok(s2) => s2,
                Err(_) => s,
            },
            Err(_) => x86_instrs_stop(st, is.drop_last(), table, internal),
        }
    }
}

/// Where the code of blocks stands when it stops: the blocks before the one
/// that fails, then that block's label and its instructions up to the one
/// that fails.
pub open spec fn x86_blocks_stop(
    st: EmitState,
    bs: Seq<GaiaBlock>,
    table: Map<Seq<char>, usize>,
    internal: Set<Seq<char>>,
) -> EmitState
    decreases bs.len(),
{
    if bs.len() == 0 {
        st
    } else {
        match x86_blocks(st, bs.drop_last(), table, internal) {
            Ok(s) => {
                let b = bs.last();
                match x86_instrs(put_label(s, b.label@), b.instructions@, table, internal) {
                    Ok(s2) => x86_terminator(s2, b.terminator),
                    Err(_) => x86_instrs_stop(put_label(s, b.label@), b.instructions@, table, internal),
                }
            },
            Err(_) => x86_blocks_stop(st, bs.drop_last(), table, internal),
        }
    }
}

/// The code with each jump hole filled with the distance from the end of
/// the hole to its label (modulo 2^32); holes of unknown labels stay zero.
pub open spec fn patch_jumps(code: Seq<u8>, jumps: Seq<(nat, Seq<char>)>, labels: Map<Seq<char>, nat>) -> Seq<u8>
    decreases jumps.len(),
{
    if jumps.len() == 0 {
        code
    } else {
        let c = patch_jumps(code, jumps.drop_last(), labels);
        let pos = jumps.last().0;
        let name = jumps.last().1;
        if labels.dom().contains(name) && pos + 4 <= c.len() {
            c.take(pos as int) + le32(labels[name] - (pos + 4)) + c.skip((pos + 4) as int)
        } else {
            c
        }
    }
}

/// Whether every string the blocks refer to has an offset.
pub open spec fn function_strings_known(f: GaiaFunction, table: Map<Seq<char>, usize>) -> bool {
    forall|b: int, k: int|
        0 <= b < f.blocks@.len() && 0 <= k < f.blocks@[b].instructions@.len() ==> strings_known(
            #[trigger] f.blocks@[b].instructions@[k],
            table,
        )
}

fn le32_any(v: i128) -> (r: Vec<u8>)
    requires
        v > i128::MIN,
    ensures
        r@ == le32(v as int),
{
    let m: u128 = 0x1_0000_0000;
    if v >= 0 {
        le_bytes_of((v as u128) % m, 4)
    } else {
        let a: u128 = ((-v) as u128) % m;
        let u: u128 = if a == 0 { 0 } else { m - a };
        assert(u as int == (v as int) % 0x1_0000_0000) by (nonlinear_arith)
            requires
                v < 0,
                a == (-v) % 0x1_0000_0000,
                u == (if a == 0 { 0 } else { 0x1_0000_0000 - a }),
        {
        }
        le_bytes_of(u, 4)
    }
}

proof fn lemma_block_instrs_step(bs: Seq<GaiaBlock>, b: int)
    requires
        0 <= b < bs.len(),
    ensures
        block_instrs(bs.take(b + 1)) == block_instrs(bs.take(b)) + bs[b].instructions@,
{
    assert(bs.take(b + 1).drop_last() =~= bs.take(b));
}

proof fn lemma_alloca_count_append(a: Seq<GaiaInstruction>, b: Seq<GaiaInstruction>)
    ensures
        alloca_count(a + b) == alloca_count(a) + alloca_count(b),
    decreases b.len(),
{
    if b.len() > 0 {
        lemma_alloca_count_append(a, b.drop_last());
        assert((a + b).drop_last() =~= a + b.drop_last());
    } else {
        assert(a + b =~= a);
    }
}

proof fn lemma_block_instrs_split(bs: Seq<GaiaBlock>, k: int)
    requires
        0 <= k <= bs.len(),
    ensures
        block_instrs(bs) == block_instrs(bs.take(k)) + block_instrs(bs.skip(k)),
    decreases bs.len(),
{
    if k == bs.len() {
        assert(bs.take(k) =~= bs);
        assert(bs.skip(k) =~= seq![]);
        assert(block_instrs(bs.take(k)) + block_instrs(bs.skip(k)) =~= block_instrs(bs));
    } else {
        lemma_block_instrs_split(bs.drop_last(), k);
        assert(bs.drop_last().take(k) =~= bs.take(k));
        assert(bs.skip(k).drop_last() =~= bs.drop_last().skip(k));
        assert(bs.skip(k).last() == bs.last());
        assert(block_instrs(bs) =~= block_instrs(bs.take(k)) + block_instrs(bs.skip(k)));
    }
}

pub(crate) proof fn lemma_le32_len(v: int)
    ensures
        le32(v).len() == 4,
{
    reveal_with_fuel(le_bytes_u, 5);
}

proof fn lemma_count_push(is: Seq<GaiaInstruction>, x: GaiaInstruction)
    ensures
        alloca_count(is.push(x)) == alloca_count(is) + (if x matches GaiaInstruction::Core(CoreInstruction::Alloca(_, _)) {
            1nat
        } else {
            0nat
        }),
        has_method_call(is.push(x)) == (has_method_call(is) || x matches GaiaInstruction::Managed(
            ManagedInstruction::CallMethod { .. },
        )),
{
    assert(is.push(x).drop_last() =~= is);
    if has_method_call(is) {
        let k = choose|k: int| 0 <= k < is.len() && (#[trigger] is[k]) matches GaiaInstruction::Managed(ManagedInstruction::CallMethod { .. });
        assert(is.push(x)[k] == is[k]);
    }
    if x matches GaiaInstruction::Managed(ManagedInstruction::CallMethod { .. }) {
        assert(is.push(x)[is.len() as int] == x);
    }
    if has_method_call(is.push(x)) {
        let k = choose|k: int| 0 <= k < is.push(x).len() && (#[trigger] is.push(x)[k]) matches GaiaInstruction::Managed(ManagedInstruction::CallMethod { .. });
        if k < is.len() {
            assert(is[k] == is.push(x)[k]);
        }
    }
}

proof fn lemma_instrs_stop(
    st: EmitState,
    is: Seq<GaiaInstruction>,
    k: int,
    table: Map<Seq<char>, usize>,
    internal: Set<Seq<char>>,
)
    requires
        0 <= k < is.len(),
        x86_instrs(st, is.take(k), table, internal) is Ok,
        x86_instr(x86_instrs(st, is.take(k), table, internal)->Ok_0, is[k], table, internal) is Err,
    ensures
        x86_instrs(st, is, table, internal) == x86_instr(x86_instrs(st, is.take(k), table, internal)->Ok_0, is[k], table, internal),
        x86_instrs_stop(st, is, table, internal) == x86_instrs(st, is.take(k), table, internal)->Ok_0,
    decreases is.len(),
{
    if k == is.len() - 1 {
        assert(is.drop_last() =~= is.take(k));
    } else {
        assert(is.drop_last().take(k) =~= is.take(k));
        lemma_instrs_stop(st, is.drop_last(), k, table, internal);
    }
}

proof fn lemma_blocks_stop(
    st: EmitState,
    bs: Seq<GaiaBlock>,
    b: int,
    table: Map<Seq<char>, usize>,
    internal: Set<Seq<char>>,
    m: Seq<char>,
)
    requires
        0 <= b < bs.len(),
        x86_blocks(st, bs.take(b), table, internal) is Ok,
        x86_instrs(put_label(x86_blocks(st, bs.take(b), table, internal)->Ok_0, bs[b].label@), bs[b].instructions@, table, internal) == Err::<EmitState, Seq<char>>(m),
    ensures
        x86_blocks(st, bs, table, internal) == Err::<EmitState, Seq<char>>(m),
        x86_blocks_stop(st, bs, table, internal) == x86_instrs_stop(
            put_label(x86_blocks(st, bs.take(b), table, internal)->Ok_0, bs[b].label@),
            bs[b].instructions@,
            table,
            internal,
        ),
    decreases bs.len(),
{
    if b == bs.len() - 1 {
        assert(bs.drop_last() =~= bs.take(b));
    } else {
        assert(bs.drop_last().take(b) =~= bs.take(b));
        lemma_blocks_stop(st, bs.drop_last(), b, table, internal, m);
    }
}

/// What a function's code generation gives: starting from what was
/// produced before, the prologue, then the blocks, with jumps patched.
pub open spec fn function_result(
    f: GaiaFunction,
    table: Map<Seq<char>, usize>,
    internal: Set<Seq<char>>,
    code: Seq<u8>,
    outside_calls: Seq<(Seq<char>, nat)>,
    inside_calls: Seq<(Seq<char>, nat)>,
    strs: Seq<(nat, nat)>,
) -> Result<EmitState, Seq<char>> {
    let st0 = EmitState { code, outside_calls, inside_calls, strs, jumps: seq![], labels: Map::empty() };
    x86_blocks(put(st0, prologue(frame_size(f))), f.blocks@, table, internal)
}

/// Where a function's code generation stands when an instruction has no
/// form here: what was produced before, the prologue, and the blocks up to
/// that instruction; no jump is patched.
pub open spec fn function_stop(
    f: GaiaFunction,
    table: Map<Seq<char>, usize>,
    internal: Set<Seq<char>>,
    code: Seq<u8>,
    outside_calls: Seq<(Seq<char>, nat)>,
    inside_calls: Seq<(Seq<char>, nat)>,
    strs: Seq<(nat, nat)>,
) -> EmitState {
    let st0 = EmitState { code, outside_calls, inside_calls, strs, jumps: seq![], labels: Map::empty() };
    x86_blocks_stop(put(st0, prologue(frame_size(f))), f.blocks@, table, internal)
}

proof fn lemma_instrs_holes(
    st: EmitState,
    is: Seq<GaiaInstruction>,
    table: Map<Seq<char>, usize>,
    internal: Set<Seq<char>>,
    c0: Seq<u8>,
)
    requires
        holes_ok(st, c0),
        x86_instrs(st, is, table, internal) is Ok,
    ensures
        holes_ok(x86_instrs(st, is, table, internal)->Ok_0, c0),
    decreases is.len(),
{
    if is.len() > 0 {
        lemma_instrs_holes(st, is.drop_last(), table, internal, c0);
        lemma_instr_holes(x86_instrs(st, is.drop_last(), table, internal)->Ok_0, is.last(), table, internal, c0);
    }
}

proof fn lemma_blocks_holes(
    st: EmitState,
    bs: Seq<GaiaBlock>,
    table: Map<Seq<char>, usize>,
    internal: Set<Seq<char>>,
    c0: Seq<u8>,
)
    requires
        holes_ok(st, c0),
        x86_blocks(st, bs, table, internal) is Ok,
    ensures
        holes_ok(x86_blocks(st, bs, table, internal)->Ok_0, c0),
    decreases bs.len(),
{
    broadcast use group_holes;

    if bs.len() > 0 {
        lemma_blocks_holes(st, bs.drop_last(), table, internal, c0);
        let s = x86_blocks(st, bs.drop_last(), table, internal)->Ok_0;
        let b = bs.last();
        lemma_instrs_holes(put_label(s, b.label@), b.instructions@, table, internal, c0);
    }
}

/// A function's code keeps what was generated before it as it was, and
/// every jump of the function to one of its labels holds, in its hole, the
/// distance from the end of the hole to that label.
pub proof fn law_function_jumps(
    f: GaiaFunction,
    table: Map<Seq<char>, usize>,
    internal: Set<Seq<char>>,
    code: Seq<u8>,
    outside_calls: Seq<(Seq<char>, nat)>,
    inside_calls: Seq<(Seq<char>, nat)>,
    strs: Seq<(nat, nat)>,
)
    requires
        function_result(f, table, internal, code, outside_calls, inside_calls, strs) is Ok,
    ensures
        ({
            let s = function_result(f, table, internal, code, outside_calls, inside_calls, strs)->Ok_0;
            let out = patch_jumps(s.code, s.jumps, s.labels);
            &&& out.subrange(0, code.len() as int) == code
            &&& forall|k: int|
                0 <= k < s.jumps.len() && s.labels.dom().contains(s.jumps[k].1) ==> out.subrange(
                    s.jumps[k].0 as int,
                    (s.jumps[k].0 + 4) as int,
                ) == le32(s.labels[s.jumps[k].1] - (s.jumps[k].0 + 4))
        }),
{
    broadcast use group_holes;

    let st0 = EmitState { code, outside_calls, inside_calls, strs, jumps: seq![], labels: Map::empty() };
    assert(st0.code.subrange(0, code.len() as int) =~= code);
    assert(holes_ok(st0, code));
    let st1 = put(st0, prologue(frame_size(f)));
    lemma_blocks_holes(st1, f.blocks@, table, internal, code);
    let s = function_result(f, table, internal, code, outside_calls, inside_calls, strs)->Ok_0;
    law_patch_jumps(s.code, s.jumps, s.labels);
    let out = patch_jumps(s.code, s.jumps, s.labels);
    assert forall|i: int| 0 <= i < code.len() implies out.subrange(0, code.len() as int)[i] == code[i] by {
        assert(outside_holes(s.jumps, i));
        assert(s.code.subrange(0, code.len() as int)[i] == s.code[i]);
        assert(out[i] == s.code[i]);
    }
    assert(out.subrange(0, code.len() as int) =~= code);
    assert forall|k: int| 0 <= k < s.jumps.len() && s.labels.dom().contains(s.jumps[k].1) implies hole_alone(
        s.jumps,
        k,
    ) by {
        assert forall|j: int| 0 <= j < s.jumps.len() && j != k implies #[trigger] s.jumps[j].0 + 4 <= s.jumps[k].0
            || s.jumps[k].0 + 4 <= s.jumps[j].0 by {
            if j < k {
                assert(s.jumps[j].0 + 4 <= s.jumps[k].0);
            } else {
                assert(s.jumps[k].0 + 4 <= s.jumps[j].0);
            }
        }
    }
    assert forall|k: int| 0 <= k < s.jumps.len() && s.labels.dom().contains(s.jumps[k].1) implies out.subrange(
        s.jumps[k].0 as int,
        (s.jumps[k].0 + 4) as int,
    ) == le32(s.labels[s.jumps[k].1] - (s.jumps[k].0 + 4)) by {
        assert(s.jumps[k].0 + 4 <= s.code.len());
        assert(hole_alone(s.jumps, k));
    }
}

impl Emitter {
    fn emit_instrs(&mut self, instrs: &Vec<GaiaInstruction>, table: &TextMap<usize>, internal: &Vec<String>) -> (r: Result<(), GaiaError>)
        requires
            forall|k: int| 0 <= k < instrs@.len() ==> strings_known(#[trigger] instrs@[k], table.as_map()),
        ensures
            match x86_instrs(old(self).state(), instrs@, table.as_map(), name_set(internal@)) {
                Ok(s) => r is Ok && final(self).state() == s,
                Err(m) => r matches Err(GaiaError::Custom { message }) && message@ == m && final(self).state()
                    == x86_instrs_stop(old(self).state(), instrs@, table.as_map(), name_set(internal@)),
            },
    {
        let ghost st = self.state();
        let mut k: usize = 0;
        assert(instrs@.take(0) =~= seq![]);
        while k < instrs.len()
            invariant
                k <= instrs@.len(),
                forall|k: int| 0 <= k < instrs@.len() ==> strings_known(#[trigger] instrs@[k], table.as_map()),
                st == old(self).state(),
                x86_instrs(st, instrs@.take(k as int), table.as_map(), name_set(internal@)) == Ok::<EmitState, Seq<char>>(self.state()),
            decreases instrs.len() - k,
        {
            proof {
                assert(instrs@.take(k + 1).drop_last() =~= instrs@.take(k as int));
            }
            let ghost before = self.state();
            let res = self.emit_instr(&instrs[k], table, internal);
            match res {
                Ok(()) => {},
                Err(e) => {
                    proof {
                        let expected = x86_instr(before, instrs@[k as int], table.as_map(), name_set(internal@));
                        assert(emitted(res, self.state(), before, expected));
                        assert(expected is Err);
                        lemma_instrs_stop(st, instrs@, k as int, table.as_map(), name_set(internal@));
                        assert(x86_instrs(st, instrs@, table.as_map(), name_set(internal@)) == expected);
                    }
                    return Err(e);
                },
            }
            k = k + 1;
        }
        assert(instrs@.take(k as int) =~= instrs@);
        Ok(())
    }
}

impl crate::backends::X86Backend {
    /// Generates the code of a function after what was generated before
    /// (see `function_result`): calls and string references are recorded
    /// for patching, jumps are patched here. The first instruction without
    /// a form here gives the error.
    pub fn generate_function(
        &self,
        function: &GaiaFunction,
        internal_functions: &Vec<String>,
        code: &mut Vec<u8>,
        external_call_positions: &mut Vec<(String, usize)>,
        internal_call_positions: &mut Vec<(String, usize)>,
        string_table: &TextMap<usize>,
        string_patches: &mut Vec<(usize, usize)>,
    ) -> (r: Result<(), GaiaError>)
        requires
            function_strings_known(*function, string_table.as_map()),
            alloca_count(block_instrs(function.blocks@)) * 8 + 79 <= usize::MAX,
        ensures
            match function_result(
                *function,
                string_table.as_map(),
                name_set(internal_functions@),
                old(code)@,
                named_positions(old(external_call_positions)@),
                named_positions(old(internal_call_positions)@),
                patch_view(old(string_patches)@),
            ) {
                Ok(s) => r is Ok && final(code)@ == patch_jumps(s.code, s.jumps, s.labels) && named_positions(
                    final(external_call_positions)@,
                ) == s.outside_calls && named_positions(final(internal_call_positions)@) == s.inside_calls && patch_view(
                    final(string_patches)@,
                ) == s.strs && final(code)@.subrange(0, old(code)@.len() as int) == old(code)@ && (forall|k: int|
                    0 <= k < s.jumps.len() && s.labels.dom().contains(s.jumps[k].1) ==> final(code)@.subrange(
                        s.jumps[k].0 as int,
                        (s.jumps[k].0 + 4) as int,
                    ) == le32(s.labels[s.jumps[k].1] - (s.jumps[k].0 + 4))),
                Err(m) => r matches Err(GaiaError::Custom { message }) && message@ == m && ({
                    let t = function_stop(
                        *function,
                        string_table.as_map(),
                        name_set(internal_functions@),
                        old(code)@,
                        named_positions(old(external_call_positions)@),
                        named_positions(old(internal_call_positions)@),
                        patch_view(old(string_patches)@),
                    );
                    &&& final(code)@ == t.code
                    &&& named_positions(final(external_call_positions)@) == t.outside_calls
                    &&& named_positions(final(internal_call_positions)@) == t.inside_calls
                    &&& patch_view(final(string_patches)@) == t.strs
                }),
            },
    {
        let ghost table = string_table.as_map();
        let ghost internal = name_set(internal_functions@);
        let mut em = Emitter {
            code: Vec::new(),
            external_calls: Vec::new(),
            internal_calls: Vec::new(),
            string_patches: Vec::new(),
            jumps: Vec::new(),
            labels: TextMap::new(),
        };
        std::mem::swap(&mut em.code, code);
        std::mem::swap(&mut em.external_calls, external_call_positions);
        std::mem::swap(&mut em.internal_calls, internal_call_positions);
        std::mem::swap(&mut em.string_patches, string_patches);
        assert(jump_view(em.jumps@) =~= seq![]);
        assert(label_view(em.labels.as_map()) =~= Map::empty());
        let ghost st0 = em.state();
        assert(st0 == EmitState {
            code: old(code)@,
            outside_calls: named_positions(old(external_call_positions)@),
            inside_calls: named_positions(old(internal_call_positions)@),
            strs: patch_view(old(string_patches)@),
            jumps: seq![],
            labels: Map::empty(),
        });
        // frame size
        let blocks = &function.blocks;
        let mut locals: u128 = 0;
        let mut managed = false;
        let mut b: usize = 0;
        assert(block_instrs(blocks@.take(0)) =~= seq![]);
        while b < blocks.len()
            invariant
                b <= blocks@.len(),
                blocks == &function.blocks,
                locals == alloca_count(block_instrs(blocks@.take(b as int))),
                alloca_count(block_instrs(blocks@)) * 8 + 79 <= usize::MAX,
                managed == has_method_call(block_instrs(blocks@.take(b as int))),
            decreases blocks.len() - b,
        {
            let instrs = &blocks[b].instructions;
            let ghost base = block_instrs(blocks@.take(b as int));
            let mut k: usize = 0;
            assert(base + instrs@.take(0) =~= base);
            proof {
                lemma_block_instrs_step(blocks@, b as int);
                lemma_block_instrs_split(blocks@, b + 1);
                lemma_alloca_count_append(block_instrs(blocks@.take(b + 1)), block_instrs(blocks@.skip(b + 1)));
            }
            while k < instrs.len()
                invariant
                    k <= instrs@.len(),
                    locals == alloca_count(base + instrs@.take(k as int)),
                    base + instrs@ == block_instrs(blocks@.take(b + 1)),
                    alloca_count(block_instrs(blocks@.take(b + 1))) * 8 + 79 <= usize::MAX,
                    managed == has_method_call(base + instrs@.take(k as int)),
                decreases instrs.len() - k,
            {
                proof {
                    assert(base + instrs@.take(k + 1) =~= (base + instrs@.take(k as int)).push(instrs@[k as int]));
                    lemma_count_push(base + instrs@.take(k as int), instrs@[k as int]);
                    assert(base + instrs@ =~= (base + instrs@.take(k + 1)) + instrs@.skip(k + 1));
                    lemma_alloca_count_append(base + instrs@.take(k + 1), instrs@.skip(k + 1));
                }
                match &instrs[k] {
                    GaiaInstruction::Core(CoreInstruction::Alloca(_, _)) => {
                        locals = locals + 1;
                    },
                    GaiaInstruction::Managed(ManagedInstruction::CallMethod { .. }) => {
                        managed = true;
                    },
                    _ => {},
                }
                k = k + 1;
            }
            proof {
                assert(instrs@.take(k as int) =~= instrs@);
                lemma_block_instrs_step(blocks@, b as int);
            }
            b = b + 1;
        }
        assert(blocks@.take(b as int) =~= blocks@);
        let shadow: u128 = if managed { 64 } else { 32 };
        let total: u128 = (locals * 8 + shadow + 15) / 16 * 16;
        assert(total == frame_size(*function));
        let mut pro: Vec<u8> = Vec::new();
        pro.push(0x55);
        pro.push(0x48);
        pro.push(0x89);
        pro.push(0xE5);
        let ghost p0 = pro@;
        if total <= 127 {
            pro.push(0x48);
            pro.push(0x83);
            pro.push(0xEC);
            pro.push(total as u8);
        } else {
            pro.push(0x48);
            pro.push(0x81);
            pro.push(0xEC);
            let mut le = le32_any(total as i128);
            pro.append(&mut le);
        }
        let ghost p1 = pro@;
        let save: [u8; 16] = [0x48, 0x89, 0x4D, 0x10, 0x48, 0x89, 0x55, 0x18, 0x4C, 0x89, 0x45, 0x20, 0x4C, 0x89, 0x4D, 0x28];
        let mut si: usize = 0;
        while si < 16
            invariant
                si <= 16,
                pro@ == p1 + save@.take(si as int),
            decreases 16 - si,
        {
            pro.push(save[si]);
            si = si + 1;
            assert(pro@ =~= p1 + save@.take(si as int));
        }
        proof {
            assert(save@.take(16) =~= save@);
            assert(pro@ =~= prologue(total as nat));
        }
        em.bytes(pro.as_slice());
        let ghost st1 = em.state();
        assert(st1 == put(st0, prologue(frame_size(*function))));
        // blocks
        let mut bi: usize = 0;
        assert(blocks@.take(0) =~= seq![]);
        while bi < blocks.len()
            invariant
                bi <= blocks@.len(),
                blocks == &function.blocks,
                table == string_table.as_map(),
                internal == name_set(internal_functions@),
                function_strings_known(*function, table),
                x86_blocks(st1, blocks@.take(bi as int), table, internal) == Ok::<EmitState, Seq<char>>(em.state()),
                st1 == put(st0, prologue(frame_size(*function))),
                st0 == (EmitState {
                    code: old(code)@,
                    outside_calls: named_positions(old(external_call_positions)@),
                    inside_calls: named_positions(old(internal_call_positions)@),
                    strs: patch_view(old(string_patches)@),
                    jumps: seq![],
                    labels: Map::empty(),
                }),
            decreases blocks.len() - bi,
        {
            let block = &blocks[bi];
            let ghost sb = em.state();
            proof {
                assert(blocks@.take(bi + 1).drop_last() =~= blocks@.take(bi as int));
            }
            em.label(block.label.as_str());
            let ghost sl = em.state();
            proof {
                assert forall|k: int| 0 <= k < block.instructions@.len() implies strings_known(
                    #[trigger] block.instructions@[k],
                    table,
                ) by {
                    assert(strings_known(function.blocks@[bi as int].instructions@[k], table));
                }
            }
            match em.emit_instrs(&block.instructions, string_table, internal_functions) {
                Ok(()) => {},
                Err(e) => {
                    proof {
                        lemma_blocks_stop(st1, blocks@, bi as int, table, internal, x86_instrs(sl, block.instructions@, table, internal)->Err_0);
                    }
                    std::mem::swap(&mut em.code, code);
                    std::mem::swap(&mut em.external_calls, external_call_positions);
                    std::mem::swap(&mut em.internal_calls, internal_call_positions);
                    std::mem::swap(&mut em.string_patches, string_patches);
                    return Err(e);
                },
            }
            em.emit_terminator(&block.terminator);
            bi = bi + 1;
        }
        assert(blocks@.take(bi as int) =~= blocks@);
        // jumps
        let ghost s = em.state();
        let mut j: usize = 0;
        assert(jump_view(em.jumps@).take(0) =~= seq![]);
        while j < em.jumps.len()
            invariant
                j <= em.jumps@.len(),
                s.jumps == jump_view(em.jumps@),
                s.labels == label_view(em.labels.as_map()),
                em.code@ == patch_jumps(s.code, s.jumps.take(j as int), s.labels),
                em.code@.len() == s.code.len(),
                named_positions(em.external_calls@) == s.outside_calls,
                named_positions(em.internal_calls@) == s.inside_calls,
                patch_view(em.string_patches@) == s.strs,
            decreases em.jumps.len() - j,
        {
            proof {
                assert(s.jumps.take(j + 1).drop_last() =~= s.jumps.take(j as int));
                assert(s.jumps.take(j + 1).last() == s.jumps[j as int]);
            }
            let pos = em.jumps[j].0;
            let ghost c = em.code@;
            match em.labels.get(em.jumps[j].1.as_str()) {
                Some(label_pos) => {
                    if pos <= em.code.len() && em.code.len() - pos >= 4 {
                        let rel = le32_any((*label_pos as i128) - (pos as i128 + 4));
                        proof {
                            lemma_le32_len(*label_pos as int - (pos + 4));
                        }
                        em.code.set(pos, rel[0]);
                        em.code.set(pos + 1, rel[1]);
                        em.code.set(pos + 2, rel[2]);
                        em.code.set(pos + 3, rel[3]);
                        assert(em.code@ =~= c.take(pos as int) + le32(*label_pos as int - (pos + 4)) + c.skip(pos + 4));
                    }
                },
                None => {},
            }
            j = j + 1;
        }
        assert(s.jumps.take(j as int) =~= s.jumps);
        proof {
            law_function_jumps(
                *function,
                table,
                internal,
                old(code)@,
                named_positions(old(external_call_positions)@),
                named_positions(old(internal_call_positions)@),
                patch_view(old(string_patches)@),
            );
        }
        std::mem::swap(&mut em.code, code);
        std::mem::swap(&mut em.external_calls, external_call_positions);
        std::mem::swap(&mut em.internal_calls, internal_call_positions);
        std::mem::swap(&mut em.string_patches, string_patches);
        Ok(())
    }
}

/// The string an instruction puts in the read-only data, if any.
pub open spec fn instr_string(i: GaiaInstruction) -> Option<Seq<char>> {
    match i {
        GaiaInstruction::Core(CoreInstruction::PushConstant(GaiaConstant::String(s))) => Some(s@),
        GaiaInstruction::Core(CoreInstruction::New(s)) => Some(s@),
        GaiaInstruction::Core(CoreInstruction::StoreField(_, s)) => Some(s@),
        GaiaInstruction::Core(CoreInstruction::LoadField(_, s)) => Some(s@),
        GaiaInstruction::Managed(ManagedInstruction::CallMethod { method, .. }) => Some(method@),
        _ => None,
    }
}

/// The read-only data: each string once, in order of first use, as UTF-8
/// with a terminating zero, and the offset of each.
pub ghost struct StrTable {
    pub offsets: Map<Seq<char>, usize>,
    pub rdata: Seq<u8>,
}

pub open spec fn add_string(t: StrTable, s: Seq<char>) -> StrTable {
    if t.offsets.dom().contains(s) {
        t
    } else {
        StrTable { offsets: t.offsets.insert(s, t.rdata.len() as usize), rdata: t.rdata + encode_utf8(s) + seq![0u8] }
    }
}

pub open spec fn strings_of_instrs(t: StrTable, is: Seq<GaiaInstruction>) -> StrTable
    decreases is.len(),
{
    if is.len() == 0 {
        t
    } else {
        let t1 = strings_of_instrs(t, is.drop_last());
        match instr_string(is.last()) {
            Some(s) => add_string(t1, s),
            None => t1,
        }
    }
}

pub open spec fn strings_of_blocks(t: StrTable, bs: Seq<GaiaBlock>) -> StrTable
    decreases bs.len(),
{
    if bs.len() == 0 {
        t
    } else {
        strings_of_instrs(strings_of_blocks(t, bs.drop_last()), bs.last().instructions@)
    }
}

/// The read-only data of the functions, in order.
pub open spec fn strings_of_functions(t: StrTable, fs: Seq<GaiaFunction>) -> StrTable
    decreases fs.len(),
{
    if fs.len() == 0 {
        t
    } else {
        strings_of_blocks(strings_of_functions(t, fs.drop_last()), fs.last().blocks@)
    }
}

proof fn lemma_known_mono(i: GaiaInstruction, a: Map<Seq<char>, usize>, b: Map<Seq<char>, usize>)
    requires
        strings_known(i, a),
        a.dom().subset_of(b.dom()),
    ensures
        strings_known(i, b),
{
}

proof fn lemma_known_by_string(i: GaiaInstruction, m: Map<Seq<char>, usize>)
    requires
        instr_string(i) matches Some(s) ==> m.dom().contains(s),
    ensures
        strings_known(i, m),
{
}

/// The string table being built.
struct StringTableBuilder {
    table: TextMap<usize>,
    rdata: Vec<u8>,
}

impl StringTableBuilder {
    closed spec fn view_table(self) -> StrTable {
        StrTable { offsets: self.table.as_map(), rdata: self.rdata@ }
    }

    fn add(&mut self, s: &String)
        ensures
            final(self).view_table() == add_string(old(self).view_table(), s@),
            old(self).table.as_map().dom().subset_of(final(self).table.as_map().dom()),
            final(self).table.as_map().dom().contains(s@),
    {
        if !self.table.contains_key(s.as_str()) {
            let offset = self.rdata.len();
            self.table.insert(owned(s.as_str()), offset);
            let mut bytes = s.as_str().as_bytes_vec();
            let ghost r0 = self.rdata@;
            let ghost b0 = bytes@;
            self.rdata.append(&mut bytes);
            self.rdata.push(0);
            assert(self.rdata@ =~= r0 + b0 + seq![0u8]);
        }
    }

    fn add_instrs(&mut self, is: &Vec<GaiaInstruction>)
        ensures
            final(self).view_table() == strings_of_instrs(old(self).view_table(), is@),
            old(self).table.as_map().dom().subset_of(final(self).table.as_map().dom()),
            forall|k: int| 0 <= k < is@.len() ==> strings_known(#[trigger] is@[k], final(self).table.as_map()),
    {
        let mut k: usize = 0;
        assert(is@.take(0) =~= seq![]);
        while k < is.len()
            invariant
                k <= is@.len(),
                self.view_table() == strings_of_instrs(old(self).view_table(), is@.take(k as int)),
                old(self).table.as_map().dom().subset_of(self.table.as_map().dom()),
                forall|j: int| 0 <= j < k ==> strings_known(#[trigger] is@[j], self.table.as_map()),
            decreases is.len() - k,
        {
            proof {
                assert(is@.take(k + 1).drop_last() =~= is@.take(k as int));
            }
            let ghost before = self.table.as_map();
            match &is[k] {
                GaiaInstruction::Core(CoreInstruction::PushConstant(GaiaConstant::String(s))) => self.add(s),
                GaiaInstruction::Core(CoreInstruction::New(s)) => self.add(s),
                GaiaInstruction::Core(CoreInstruction::StoreField(_, s)) => self.add(s),
                GaiaInstruction::Core(CoreInstruction::LoadField(_, s)) => self.add(s),
                GaiaInstruction::Managed(ManagedInstruction::CallMethod { method, .. }) => self.add(method),
                _ => {},
            }
            proof {
                assert forall|j: int| 0 <= j < k + 1 implies strings_known(#[trigger] is@[j], self.table.as_map()) by {
                    if j < k {
                        lemma_known_mono(is@[j], before, self.table.as_map());
                    } else {
                        lemma_known_by_string(is@[j], self.table.as_map());
                    }
                }
            }
            k = k + 1;
        }
        assert(is@.take(k as int) =~= is@);
    }
}

/// Whether every string of the functions has an offset.
pub open spec fn all_strings_known(fs: Seq<GaiaFunction>, table: Map<Seq<char>, usize>) -> bool {
    forall|f: int| 0 <= f < fs.len() ==> #[trigger] function_strings_known(fs[f], table)
}

/// The read-only data of a module's functions.
pub open spec fn module_strings(fs: Seq<GaiaFunction>) -> StrTable {
    strings_of_functions(StrTable { offsets: Map::empty(), rdata: seq![] }, fs)
}

impl StringTableBuilder {
    fn add_functions(&mut self, fs: &Vec<GaiaFunction>)
        ensures
            final(self).view_table() == strings_of_functions(old(self).view_table(), fs@),
            all_strings_known(fs@, final(self).table.as_map()),
    {
        let mut f: usize = 0;
        assert(fs@.take(0) =~= seq![]);
        while f < fs.len()
            invariant
                f <= fs@.len(),
                self.view_table() == strings_of_functions(old(self).view_table(), fs@.take(f as int)),
                forall|g: int| 0 <= g < f ==> #[trigger] function_strings_known(fs@[g], self.table.as_map()),
            decreases fs.len() - f,
        {
            proof {
                assert(fs@.take(f + 1).drop_last() =~= fs@.take(f as int));
            }
            let ghost start = self.table.as_map();
            let blocks = &fs[f].blocks;
            let mut b: usize = 0;
            assert(blocks@.take(0) =~= seq![]);
            while b < blocks.len()
                invariant
                    b <= blocks@.len(),
                    f < fs@.len(),
                    blocks == &fs@[f as int].blocks,
                    self.view_table() == strings_of_blocks(
                        strings_of_functions(old(self).view_table(), fs@.take(f as int)),
                        blocks@.take(b as int),
                    ),
                    start.dom().subset_of(self.table.as_map().dom()),
                    forall|c: int, k: int|
                        0 <= c < b && 0 <= k < blocks@[c].instructions@.len() ==> strings_known(
                            #[trigger] blocks@[c].instructions@[k],
                            self.table.as_map(),
                        ),
                decreases blocks.len() - b,
            {
                proof {
                    assert(blocks@.take(b + 1).drop_last() =~= blocks@.take(b as int));
                }
                let ghost before = self.table.as_map();
                self.add_instrs(&blocks[b].instructions);
                proof {
                    assert forall|c: int, k: int|
                        0 <= c < b + 1 && 0 <= k < blocks@[c].instructions@.len() implies strings_known(
                            #[trigger] blocks@[c].instructions@[k],
                            self.table.as_map(),
                        ) by {
                        if c < b {
                            lemma_known_mono(blocks@[c].instructions@[k], before, self.table.as_map());
                        }
                    }
                }
                b = b + 1;
            }
            assert(blocks@.take(b as int) =~= blocks@);
            proof {
                assert forall|g: int| 0 <= g < f + 1 implies #[trigger] function_strings_known(fs@[g], self.table.as_map()) by {
                    if g < f {
                        assert forall|c: int, k: int|
                            0 <= c < fs@[g].blocks@.len() && 0 <= k < fs@[g].blocks@[c].instructions@.len() implies strings_known(
                                #[trigger] fs@[g].blocks@[c].instructions@[k],
                                self.table.as_map(),
                            ) by {
                            assert(function_strings_known(fs@[g], start));
                            lemma_known_mono(fs@[g].blocks@[c].instructions@[k], start, self.table.as_map());
                        }
                    }
                }
            }
            f = f + 1;
        }
        assert(fs@.take(f as int) =~= fs@);
    }
}

/// Code generation of a module in progress: the code, the recorded calls
/// and string references, and the offset of each function.
pub ghost struct CodeGen {
    pub code: Seq<u8>,
    pub outside_calls: Seq<(Seq<char>, nat)>,
    pub inside_calls: Seq<(Seq<char>, nat)>,
    pub strs: Seq<(nat, nat)>,
    pub offsets: Map<Seq<char>, nat>,
}

/// The code of functions in order, each starting where the last ended.
pub open spec fn gen_functions(
    g: CodeGen,
    fs: Seq<GaiaFunction>,
    table: Map<Seq<char>, usize>,
    internal: Set<Seq<char>>,
) -> Result<CodeGen, Seq<char>>
    decreases fs.len(),
{
    if fs.len() == 0 {
        Ok(g)
    } else {
        match gen_functions(g, fs.drop_last(), table, internal) {
            Ok(g1) => {
                let f = fs.last();
                match function_result(f, table, internal, g1.code, g1.outside_calls, g1.inside_calls, g1.strs) {
                    Ok(s) => Ok(
                        CodeGen {
                            code: patch_jumps(s.code, s.jumps, s.labels),
                            outside_calls: s.outside_calls,
                            inside_calls: s.inside_calls,
                            strs: s.strs,
                            offsets: g1.offsets.insert(f.name@, g1.code.len()),
                        },
                    ),
                    Err(m) => Err(m),
                }
            },
            Err(m) => Err(m),
        }
    }
}

/// The entry stub: reserve shadow space, call the runtime's initialiser,
/// call the main function, pass its result to the exit call.
pub open spec fn entry_stub() -> Seq<u8> {
    seq![
        0x48u8, 0x83u8, 0xECu8, 0x20u8, 0xFFu8, 0x15u8, 0u8, 0u8, 0u8, 0u8, 0xE8u8, 0u8, 0u8, 0u8, 0u8, 0x48u8,
        0x89u8, 0xC1u8, 0xFFu8, 0x15u8, 0u8, 0u8, 0u8, 0u8,
    ]
}

/// The state after the entry stub.
pub open spec fn initial_gen() -> CodeGen {
    CodeGen {
        code: entry_stub(),
        outside_calls: seq![("nyar_init_runtime"@, 4nat)],
        inside_calls: seq![],
        strs: seq![],
        offsets: Map::empty(),
    }
}

/// Four bytes at `at` replaced by the 32-bit value `v`.
pub open spec fn patch_at(code: Seq<u8>, at: nat, v: int) -> Seq<u8> {
    if at + 4 <= code.len() {
        code.take(at as int) + le32(v) + code.skip((at + 4) as int)
    } else {
        code
    }
}

/// The function the entry stub calls: `main` if there is one, else the
/// first function, else none.
pub open spec fn main_name(offsets: Map<Seq<char>, nat>, fs: Seq<GaiaFunction>) -> Seq<char> {
    if offsets.dom().contains("main"@) {
        "main"@
    } else if fs.len() > 0 {
        fs[0].name@
    } else {
        seq![]
    }
}

/// The call of the main function patched with its distance.
pub open spec fn patch_main(code: Seq<u8>, offsets: Map<Seq<char>, nat>, fs: Seq<GaiaFunction>) -> Seq<u8> {
    let name = main_name(offsets, fs);
    if name.len() > 0 && offsets.dom().contains(name) {
        patch_at(code, 11, offsets[name] - 15)
    } else {
        code
    }
}

/// Each call of a function of the module patched with its distance.
pub open spec fn patch_calls(code: Seq<u8>, calls: Seq<(Seq<char>, nat)>, offsets: Map<Seq<char>, nat>) -> Seq<u8>
    decreases calls.len(),
{
    if calls.len() == 0 {
        code
    } else {
        let c = patch_calls(code, calls.drop_last(), offsets);
        let (name, pos) = calls.last();
        if offsets.dom().contains(name) {
            patch_at(c, pos + 1, offsets[name] - (pos + 5))
        } else {
            c
        }
    }
}

/// The names of the functions.
pub open spec fn function_names(fs: Seq<GaiaFunction>) -> Set<Seq<char>> {
    fs.map_values(|f: GaiaFunction| f.name@).to_set()
}

/// What generating the code of a module gives: the entry stub, each
/// function in turn, then the calls of the main function and of each
/// function of the module patched with their distances; or the error of the
/// first instruction without a form here.
pub open spec fn x86_code_result(r: Result<X86Image, GaiaError>, program: GaiaModule) -> bool {
    let fs = program.functions@;
    let t = module_strings(fs);
    match gen_functions(initial_gen(), fs, t.offsets, function_names(fs)) {
        Ok(g) => r matches Ok(img) && img.code@ == patch_calls(patch_main(g.code, g.offsets, fs), g.inside_calls, g.offsets)
            && img.call_exit_pos == 18 && named_positions(img.external_call_positions@) == g.outside_calls
            && img.rdata_content@ == t.rdata && patch_view(img.string_patches@) == g.strs,
        Err(m) => r matches Err(GaiaError::Custom { message }) && message@ == m,
    }
}

/// The native code of a module with what the executable writer needs.
#[derive(Debug)]
pub struct X86Image {
    pub code: Vec<u8>,
    pub call_exit_pos: usize,
    pub external_call_positions: Vec<(String, usize)>,
    pub rdata_content: Vec<u8>,
    pub string_patches: Vec<(usize, usize)>,
}

pub(crate) fn patch_le32(code: &mut Vec<u8>, at: usize, v: i128)
    requires
        v > i128::MIN,
    ensures
        final(code)@ == patch_at(old(code)@, at as nat, v as int),
{
    if at <= code.len() && code.len() - at >= 4 {
        let b = le32_any(v);
        proof {
            lemma_le32_len(v as int);
        }
        let ghost c = code@;
        code.set(at, b[0]);
        code.set(at + 1, b[1]);
        code.set(at + 2, b[2]);
        code.set(at + 3, b[3]);
        assert(code@ =~= c.take(at as int) + le32(v as int) + c.skip(at + 4));
    }
}

/// The names of the functions, in order.
fn function_name_list(fs: &Vec<GaiaFunction>) -> (r: Vec<String>)
    ensures
        string_views(r@) == fs@.map_values(|f: GaiaFunction| f.name@),
{
    let mut names: Vec<String> = Vec::new();
    let mut n: usize = 0;
    while n < fs.len()
        invariant
            n <= fs@.len(),
            names@.len() == n,
            forall|j: int| 0 <= j < n ==> (#[trigger] names@[j])@ == fs@[j].name@,
        decreases fs.len() - n,
    {
        names.push(owned(fs[n].name.as_str()));
        n = n + 1;
    }
    assert(string_views(names@) =~= fs@.map_values(|f: GaiaFunction| f.name@));
    names
}

/// Patches the entry stub's call of the main function.
fn patch_main_call(code: &mut Vec<u8>, offsets: &TextMap<usize>, fs: &Vec<GaiaFunction>)
    ensures
        final(code)@ == patch_main(old(code)@, label_view(offsets.as_map()), fs@),
{
    proof {
        reveal_strlit("main");
        reveal_strlit("");
    }
    let name: &str = if offsets.contains_key("main") {
        "main"
    } else if fs.len() > 0 {
        fs[0].name.as_str()
    } else {
        ""
    };
    assert(name@ == main_name(label_view(offsets.as_map()), fs@));
    if !name.is_empty() {
        match offsets.get(name) {
            Some(o) => {
                patch_le32(code, 11, (*o as i128) - 15);
            },
            None => {},
        }
    }
}

/// Patches each recorded call of a function of the module with its distance.
fn patch_call_sites(code: &mut Vec<u8>, calls: &Vec<(String, usize)>, offsets: &TextMap<usize>)
    ensures
        final(code)@ == patch_calls(old(code)@, named_positions(calls@), label_view(offsets.as_map())),
{
    let ghost base = code@;
    let ghost offs = label_view(offsets.as_map());
    let mut c: usize = 0;
    assert(named_positions(calls@).take(0) =~= seq![]);
    while c < calls.len()
        invariant
            c <= calls@.len(),
            offs == label_view(offsets.as_map()),
            code@ == patch_calls(base, named_positions(calls@).take(c as int), offs),
        decreases calls.len() - c,
    {
        proof {
            assert(named_positions(calls@).take(c + 1).drop_last() =~= named_positions(calls@).take(c as int));
        }
        let pos = calls[c].1;
        match offsets.get(calls[c].0.as_str()) {
            Some(off) => {
                if pos < code.len() {
                    patch_le32(code, pos + 1, (*off as i128) - (pos as i128 + 5));
                }
            },
            None => {},
        }
        c = c + 1;
    }
    assert(named_positions(calls@).take(c as int) =~= named_positions(calls@));
}

impl crate::backends::X86Backend {
    /// Generates the native code of a module: the read-only strings, the
    /// entry stub, each function in turn, then the calls of the main
    /// function and of each function of the module patched with their
    /// distances. The first instruction without a form here gives the
    /// error.
    #[verifier::rlimit(40)]
    pub fn generate_code(&self, program: &GaiaModule) -> (r: Result<X86Image, GaiaError>)
        requires
            forall|f: int|
                0 <= f < program.functions@.len() ==> alloca_count(block_instrs(#[trigger] program.functions@[f].blocks@)) * 8
                    + 79 <= usize::MAX,
        ensures
            x86_code_result(r, *program),
    {
        let fs = &program.functions;
        let mut builder = StringTableBuilder { table: TextMap::new(), rdata: Vec::new() };
        assert(builder.view_table() =~~= StrTable { offsets: Map::empty(), rdata: seq![] });
        builder.add_functions(fs);
        let ghost t = builder.view_table();
        let ghost table = builder.table.as_map();
        // entry stub
        let mut code: Vec<u8> = Vec::new();
        let stub: [u8; 24] = [
            0x48, 0x83, 0xEC, 0x20, 0xFF, 0x15, 0, 0, 0, 0, 0xE8, 0, 0, 0, 0, 0x48, 0x89, 0xC1, 0xFF, 0x15, 0, 0, 0, 0,
        ];
        let mut i: usize = 0;
        while i < 24
            invariant
                i <= 24,
                code@ == stub@.take(i as int),
            decreases 24 - i,
        {
            code.push(stub[i]);
            i = i + 1;
            assert(code@ =~= stub@.take(i as int));
        }
        assert(code@ =~= entry_stub());
        let mut external_call_positions: Vec<(String, usize)> = Vec::new();
        external_call_positions.push((owned("nyar_init_runtime"), 4));
        let mut internal_call_positions: Vec<(String, usize)> = Vec::new();
        let mut string_patches: Vec<(usize, usize)> = Vec::new();
        let mut function_offsets: TextMap<usize> = TextMap::new();
        let internal_functions = function_name_list(fs);
        let ghost internal = name_set(internal_functions@);
        assert(internal == function_names(fs@));
        proof {
            assert(named_positions(external_call_positions@) =~= seq![("nyar_init_runtime"@, 4nat)]);
            assert(named_positions(internal_call_positions@) =~= seq![]);
            assert(patch_view(string_patches@) =~= seq![]);
            assert(label_view(function_offsets.as_map()) =~= Map::empty());
        }
        let mut k: usize = 0;
        assert(fs@.take(0) =~= seq![]);
        while k < fs.len()
            invariant
                k <= fs@.len(),
                fs == &program.functions,
                forall|f: int|
                    0 <= f < program.functions@.len() ==> alloca_count(block_instrs(#[trigger] program.functions@[f].blocks@)) * 8
                        + 79 <= usize::MAX,
                all_strings_known(fs@, table),
                table == builder.table.as_map(),
                t == module_strings(fs@),
                t.offsets == table,
                internal == name_set(internal_functions@),
                internal == function_names(fs@),
                gen_functions(initial_gen(), fs@.take(k as int), table, internal) == Ok::<CodeGen, Seq<char>>(
                    CodeGen {
                        code: code@,
                        outside_calls: named_positions(external_call_positions@),
                        inside_calls: named_positions(internal_call_positions@),
                        strs: patch_view(string_patches@),
                        offsets: label_view(function_offsets.as_map()),
                    },
                ),
            decreases fs.len() - k,
        {
            proof {
                assert(fs@.take(k + 1).drop_last() =~= fs@.take(k as int));
                assert(function_strings_known(fs@[k as int], table));
            }
            let ghost code0 = code@;
            let ghost offs0 = label_view(function_offsets.as_map());
            let ghost g0 = CodeGen {
                code: code@,
                outside_calls: named_positions(external_call_positions@),
                inside_calls: named_positions(internal_call_positions@),
                strs: patch_view(string_patches@),
                offsets: offs0,
            };
            function_offsets.insert(owned(fs[k].name.as_str()), code.len());
            assert(label_view(function_offsets.as_map()) =~= offs0.insert(fs@[k as int].name@, code0.len()));
            match self.generate_function(
                &fs[k],
                &internal_functions,
                &mut code,
                &mut external_call_positions,
                &mut internal_call_positions,
                &builder.table,
                &mut string_patches,
            ) {
                Ok(()) => {},
                Err(e) => {
                    proof {
                        assert(fs@.take(k + 1).last() == fs@[k as int]);
                        assert(gen_functions(initial_gen(), fs@.take(k as int), table, internal) == Ok::<CodeGen, Seq<char>>(g0));
                        assert(function_result(fs@[k as int], table, internal, g0.code, g0.outside_calls, g0.inside_calls, g0.strs) is Err);
                        assert(gen_functions(initial_gen(), fs@.take(k + 1), table, internal) is Err);
                        lemma_gen_stop(initial_gen(), fs@, k as int, table, internal);
                    }
                    return Err(e);
                },
            }
            k = k + 1;
        }
        assert(fs@.take(k as int) =~= fs@);
        patch_main_call(&mut code, &function_offsets, fs);
        patch_call_sites(&mut code, &internal_call_positions, &function_offsets);
        Ok(
            X86Image {
                code,
                call_exit_pos: 18,
                external_call_positions,
                rdata_content: builder.rdata,
                string_patches,
            },
        )
    }
}

proof fn lemma_gen_stop(g: CodeGen, fs: Seq<GaiaFunction>, k: int, table: Map<Seq<char>, usize>, internal: Set<Seq<char>>)
    requires
        0 <= k < fs.len(),
        gen_functions(g, fs.take(k), table, internal) is Ok,
        gen_functions(g, fs.take(k + 1), table, internal) is Err,
    ensures
        gen_functions(g, fs, table, internal) == gen_functions(g, fs.take(k + 1), table, internal),
    decreases fs.len(),
{
    if k == fs.len() - 1 {
        assert(fs.take(k + 1) =~= fs);
    } else {
        assert(fs.drop_last().take(k) =~= fs.take(k));
        assert(fs.drop_last().take(k + 1) =~= fs.take(k + 1));
        lemma_gen_stop(g, fs.drop_last(), k, table, internal);
    }
}

} // verus!
