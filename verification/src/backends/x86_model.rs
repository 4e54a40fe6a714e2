//! What the emitted x86-64 code does: a model of the instructions that the
//! stack-machine code generator uses, and the laws that say what each Gaia
//! arithmetic, logic and comparison instruction computes once compiled.
use vstd::prelude::*;
use crate::backends::x86::{x86_core, EmitState};
use crate::instruction::{CmpCondition, CoreInstruction};
use crate::types::GaiaType;
use crate::bytes::{lemma_le_bytes_roundtrip, lemma_pow256_values, le_signed_value, le_value};
use crate::backends::x86::{le32, le64, local_disp};
use crate::program::GaiaConstant;
use crate::backends::int_ops::{condition_holds, lemma_trunc_div_fits, trunc_div, trunc_rem};

verus! {

/// 2^64, the modulus of a machine word.
pub open spec fn word_modulus() -> int {
    0x1_0000_0000_0000_0000
}

/// An integer cut to a 64-bit word.
pub open spec fn wrap64(x: int) -> u64 {
    (x % word_modulus()) as u64
}

/// A word read as a two's complement signed number.
pub open spec fn signed64(a: u64) -> int {
    if a < 0x8000_0000_0000_0000 {
        a as int
    } else {
        a - word_modulus()
    }
}

/// The registers and the stack (top last) of the machine, the signed
/// operands of the last comparison, from which the condition codes follow,
/// for each jump met so far whether it was taken, and the words of the
/// frame that have been written, by their signed offset from RBP.
pub ghost struct X86Machine {
    pub rax: u64,
    pub rbx: u64,
    pub rcx: u64,
    pub rdx: u64,
    pub r8: u64,
    pub r9: u64,
    pub stack: Seq<u64>,
    pub flags: (int, int),
    pub taken: Seq<bool>,
    pub frame: Map<int, u64>,
}

/// `rax` set to `v`.
pub open spec fn with_rax(m: X86Machine, v: u64) -> X86Machine {
    X86Machine { rax: v, ..m }
}

/// Whether condition code byte `cc` of `setcc` (0F 9x) holds after a
/// comparison of `x` with `y`.
pub open spec fn condition_code_holds(cc: u8, x: int, y: int) -> bool {
    if cc == 0x94 {
        x == y
    } else if cc == 0x95 {
        x != y
    } else if cc == 0x9C {
        x < y
    } else if cc == 0x9E {
        x <= y
    } else if cc == 0x9F {
        x > y
    } else {
        x >= y
    }
}

/// `xor rax, imm8`: the immediate is sign-extended to 64 bits.
pub open spec fn sign_extend8(b: u8) -> u64 {
    if b < 0x80 {
        b as u64
    } else {
        (b + word_modulus() - 0x100) as u64
    }
}

/// An 8-bit displacement read as a signed number.
pub open spec fn sign_extend_disp8(d: u8) -> int {
    if d < 0x80 {
        d as int
    } else {
        d - 0x100
    }
}

/// `idiv rbx` on the 128-bit dividend RDX:RAX: quotient to RAX, remainder
/// to RDX; no result (a fault) on a zero divisor or a quotient that does not
/// fit.
pub open spec fn idiv_rbx(m: X86Machine) -> Option<X86Machine> {
    let dividend = signed64(m.rdx) * word_modulus() + m.rax;
    let divisor = signed64(m.rbx);
    let q = trunc_div(dividend, divisor);
    if divisor == 0 || q < -0x8000_0000_0000_0000 || q >= 0x8000_0000_0000_0000 {
        None
    } else {
        Some(X86Machine { rax: wrap64(q), rdx: wrap64(trunc_rem(dividend, divisor)), ..m })
    }
}

/// An instruction after a REX.W prefix (`48`): `b1..b3` are the bytes that
/// follow it and `avail` the bytes left counting the prefix. The result is
/// the length of the instruction and the machine after it.
pub open spec fn step_rex_w(b1: u8, b2: u8, b3: u8, avail: int, m: X86Machine) -> Option<(int, X86Machine)> {
    if b1 == 0x99 {
        // cqo
        Some((2, X86Machine { rdx: if m.rax < 0x8000_0000_0000_0000 { 0 } else { 0xFFFF_FFFF_FFFF_FFFF }, ..m }))
    } else if avail >= 3 && b1 == 0x01 && b2 == 0xD8 {
        Some((3, with_rax(m, wrap64(m.rax + m.rbx))))
    } else if avail >= 3 && b1 == 0x29 && b2 == 0xD8 {
        Some((3, with_rax(m, wrap64(m.rax - m.rbx))))
    } else if avail >= 3 && b1 == 0x21 && b2 == 0xD8 {
        Some((3, with_rax(m, m.rax & m.rbx)))
    } else if avail >= 3 && b1 == 0x09 && b2 == 0xD8 {
        Some((3, with_rax(m, m.rax | m.rbx)))
    } else if avail >= 3 && b1 == 0x31 && b2 == 0xD8 {
        Some((3, with_rax(m, m.rax ^ m.rbx)))
    } else if avail >= 3 && b1 == 0x39 && b2 == 0xD8 {
        Some((3, X86Machine { flags: (signed64(m.rax), signed64(m.rbx)), ..m }))
    } else if avail >= 3 && b1 == 0x85 && b2 == 0xC0 {
        // test rax, rax
        Some((3, X86Machine { flags: (signed64(m.rax), 0), ..m }))
    } else if avail >= 3 && b1 == 0xF7 && b2 == 0xD8 {
        Some((3, with_rax(m, wrap64(-m.rax))))
    } else if avail >= 3 && b1 == 0xF7 && b2 == 0xD0 {
        Some((3, with_rax(m, !m.rax)))
    } else if avail >= 3 && b1 == 0xF7 && b2 == 0xFB {
        match idiv_rbx(m) {
            Some(m2) => Some((3, m2)),
            None => None,
        }
    } else if avail >= 3 && b1 == 0xD3 && b2 == 0xE0 {
        Some((3, with_rax(m, m.rax << ((m.rcx % 64) as u64))))
    } else if avail >= 3 && b1 == 0xD3 && b2 == 0xE8 {
        Some((3, with_rax(m, m.rax >> ((m.rcx % 64) as u64))))
    } else if avail >= 4 && b1 == 0x0F && b2 == 0xAF && b3 == 0xC3 {
        Some((4, with_rax(m, wrap64(m.rax * m.rbx))))
    } else if avail >= 4 && b1 == 0x0F && b2 == 0xB6 && b3 == 0xC0 {
        Some((4, with_rax(m, (m.rax % 0x100) as u64)))
    } else if avail >= 4 && b1 == 0x8B && b2 == 0x04 && b3 == 0x24 {
        // mov rax, [rsp]: the word on top of the stack
        if m.stack.len() == 0 {
            None
        } else {
            Some((4, with_rax(m, m.stack.last())))
        }
    } else if avail >= 4 && b1 == 0x89 && b2 == 0x45 {
        // mov [rbp + disp8], rax
        Some((4, X86Machine { frame: m.frame.insert(sign_extend_disp8(b3), m.rax), ..m }))
    } else if avail >= 4 && b1 == 0x8B && b2 == 0x45 {
        // mov rax, [rbp + disp8]: no result for a word never written
        if m.frame.dom().contains(sign_extend_disp8(b3)) {
            Some((4, with_rax(m, m.frame[sign_extend_disp8(b3)])))
        } else {
            None
        }
    } else if avail >= 4 && b1 == 0x83 && b2 == 0xF0 {
        Some((4, with_rax(m, m.rax ^ sign_extend8(b3))))
    } else {
        None
    }
}

/// The first instruction of `w`: its length and the machine after it, or
/// no result where the model does not know it or the machine faults.
pub open spec fn x86_step(w: Seq<u8>, m: X86Machine) -> Option<(int, X86Machine)> {
    let b0 = w[0];
    if w.len() == 0 {
        None
    } else if b0 == 0x50 {
        Some((1, X86Machine { stack: m.stack.push(m.rax), ..m }))
    } else if b0 == 0x51 {
        Some((1, X86Machine { stack: m.stack.push(m.rcx), ..m }))
    } else if b0 == 0x52 {
        Some((1, X86Machine { stack: m.stack.push(m.rdx), ..m }))
    } else if b0 == 0x41 && w.len() >= 2 && (w[1] == 0x50 || w[1] == 0x51) {
        // push r8 / push r9
        Some((2, X86Machine { stack: m.stack.push(if w[1] == 0x50 { m.r8 } else { m.r9 }), ..m }))
    } else if b0 == 0x58 || b0 == 0x5B || b0 == 0x59 {
        if m.stack.len() == 0 {
            None
        } else {
            let v = m.stack.last();
            let rest = m.stack.drop_last();
            Some(
                (
                    1,
                    if b0 == 0x58 {
                        X86Machine { rax: v, stack: rest, ..m }
                    } else if b0 == 0x5B {
                        X86Machine { rbx: v, stack: rest, ..m }
                    } else {
                        X86Machine { rcx: v, stack: rest, ..m }
                    },
                ),
            )
        }
    } else if b0 == 0x68 && w.len() >= 5 {
        // push imm32, sign-extended
        Some((5, X86Machine { stack: m.stack.push(wrap64(le_signed_value(w.subrange(1, 5)))), ..m }))
    } else if b0 == 0x48 && w.len() >= 10 && w[1] == 0xB8 {
        // mov rax, imm64
        Some((10, with_rax(m, le_value(w.subrange(2, 10)) as u64)))
    } else if b0 == 0x48 && w.len() >= 2 {
        step_rex_w(w[1], if w.len() >= 3 { w[2] } else { 0 }, if w.len() >= 4 { w[3] } else { 0 }, w.len() as int, m)
    } else if b0 == 0xE9 && w.len() >= 5 {
        // jmp rel32
        Some((5, X86Machine { taken: m.taken.push(true), ..m }))
    } else if b0 == 0x0F && w.len() >= 6 && (w[1] == 0x84 || w[1] == 0x85) {
        // je / jne rel32
        let equal = m.flags.0 == m.flags.1;
        Some((6, X86Machine { taken: m.taken.push(if w[1] == 0x84 { equal } else { !equal }), ..m }))
    } else if b0 == 0x0F && w.len() >= 3 && 0x90 <= w[1] <= 0x9F && w[2] == 0xC0 {
        // setcc al
        let bit: int = if condition_code_holds(w[1], m.flags.0, m.flags.1) { 1 } else { 0 };
        Some((3, with_rax(m, ((m.rax / 0x100) * 0x100 + bit) as u64)))
    } else {
        None
    }
}

/// Running `code` from position `pc` to its end: the machine at the end, or
/// no result.
pub open spec fn x86_run(code: Seq<u8>, pc: int, m: X86Machine) -> Option<X86Machine>
    decreases code.len() - pc,
{
    if pc < 0 || pc > code.len() {
        None
    } else if pc == code.len() {
        Some(m)
    } else {
        match x86_step(code.subrange(pc, code.len() as int), m) {
            Some((k, m2)) => if 1 <= k && pc + k <= code.len() {
                x86_run(code, pc + k, m2)
            } else {
                None
            },
            None => None,
        }
    }
}

/// What a binary arithmetic or logic instruction leaves for the operands
/// `a` (below) and `b` (on top), on 64-bit words.
pub open spec fn binary_word_result(ci: CoreInstruction, a: u64, b: u64) -> u64 {
    match ci {
        CoreInstruction::Add(_) => wrap64(a + b),
        CoreInstruction::Sub(_) => wrap64(a - b),
        CoreInstruction::Mul(_) => wrap64(a * b),
        CoreInstruction::Div(_) => wrap64(trunc_div(signed64(a), signed64(b))),
        CoreInstruction::Rem(_) => wrap64(trunc_rem(signed64(a), signed64(b))),
        CoreInstruction::And(_) => a & b,
        CoreInstruction::Or(_) => a | b,
        CoreInstruction::Xor(_) => a ^ b,
        CoreInstruction::Shl(_) => a << ((b % 64) as u64),
        CoreInstruction::Shr(_) => a >> ((b % 64) as u64),
        _ => 0,
    }
}

/// Running code that follows other code is running it alone.
pub proof fn lemma_run_after(pre: Seq<u8>, code: Seq<u8>, pc: int, m: X86Machine)
    requires
        0 <= pc <= code.len(),
    ensures
        x86_run(pre + code, pre.len() + pc, m) == x86_run(code, pc, m),
    decreases code.len() - pc,
{
    let all = pre + code;
    if pc < code.len() {
        assert(all.subrange(pre.len() + pc, all.len() as int) =~= code.subrange(pc, code.len() as int));
        match x86_step(code.subrange(pc, code.len() as int), m) {
            Some((k, m2)) => {
                if 1 <= k && pc + k <= code.len() {
                    lemma_run_after(pre, code, pc + k, m2);
                }
            },
            None => {},
        }
    }
}

/// The machine with its stack replaced by `vals`.
pub open spec fn with_stack(m: X86Machine, vals: Seq<u64>) -> X86Machine {
    X86Machine { stack: vals, ..m }
}

/// Running `bytes` alone from a machine, where the stack ends as `expect`.
pub open spec fn leaves(bytes: Seq<u8>, start: X86Machine, expect: Seq<u64>) -> bool {
    x86_run(bytes, 0, start) matches Some(end) && end.stack == expect
}

/// The word after `cqo` read as the high half of RDX:RAX makes the 128-bit
/// dividend the signed value of RAX.
proof fn lemma_cqo_dividend(a: u64)
    ensures
        signed64(if a < 0x8000_0000_0000_0000 { 0u64 } else { 0xFFFF_FFFF_FFFF_FFFFu64 }) * word_modulus() + a
            == signed64(a),
{
}

/// `pop rbx; pop rax` (`pop rcx; pop rax` for shifts), one instruction on
/// RAX and the second operand, and `push rax` (`push rdx` for a remainder).
spec fn binary_bytes(ci: CoreInstruction) -> Seq<u8> {
    match ci {
        CoreInstruction::Add(_) => seq![0x5Bu8, 0x58u8, 0x48u8, 0x01u8, 0xD8u8, 0x50u8],
        CoreInstruction::Sub(_) => seq![0x5Bu8, 0x58u8, 0x48u8, 0x29u8, 0xD8u8, 0x50u8],
        CoreInstruction::Mul(_) => seq![0x5Bu8, 0x58u8, 0x48u8, 0x0Fu8, 0xAFu8, 0xC3u8, 0x50u8],
        CoreInstruction::Div(_) => seq![0x5Bu8, 0x58u8, 0x48u8, 0x99u8, 0x48u8, 0xF7u8, 0xFBu8, 0x50u8],
        CoreInstruction::Rem(_) => seq![0x5Bu8, 0x58u8, 0x48u8, 0x99u8, 0x48u8, 0xF7u8, 0xFBu8, 0x52u8],
        CoreInstruction::Shl(_) => seq![0x59u8, 0x58u8, 0x48u8, 0xD3u8, 0xE0u8, 0x50u8],
        CoreInstruction::Shr(_) => seq![0x59u8, 0x58u8, 0x48u8, 0xD3u8, 0xE8u8, 0x50u8],
        CoreInstruction::And(_) => seq![0x5Bu8, 0x58u8, 0x48u8, 0x21u8, 0xD8u8, 0x50u8],
        CoreInstruction::Or(_) => seq![0x5Bu8, 0x58u8, 0x48u8, 0x09u8, 0xD8u8, 0x50u8],
        _ => seq![0x5Bu8, 0x58u8, 0x48u8, 0x31u8, 0xD8u8, 0x50u8],
    }
}

proof fn lemma_pops(below: Seq<u64>, a: u64, b: u64)
    ensures
        below.push(a).push(b).drop_last() == below.push(a),
        below.push(a).drop_last() == below,
        below.push(a).push(b).last() == b,
        below.push(a).last() == a,
{
    assert(below.push(a).push(b).drop_last() =~= below.push(a));
    assert(below.push(a).drop_last() =~= below);
}

proof fn lemma_run_register_op(op: u8, m: X86Machine, below: Seq<u64>, a: u64, b: u64)
    requires
        op == 0x01 || op == 0x29 || op == 0x21 || op == 0x09 || op == 0x31,
    ensures
        leaves(
            seq![0x5Bu8, 0x58u8, 0x48u8, op, 0xD8u8, 0x50u8],
            with_stack(m, below.push(a).push(b)),
            below.push(
                if op == 0x01 {
                    wrap64(a + b)
                } else if op == 0x29 {
                    wrap64(a - b)
                } else if op == 0x21 {
                    a & b
                } else if op == 0x09 {
                    a | b
                } else {
                    a ^ b
                },
            ),
        ),
{
    lemma_pops(below, a, b);
    reveal_with_fuel(x86_run, 5);
}

proof fn lemma_run_mul(m: X86Machine, below: Seq<u64>, a: u64, b: u64)
    ensures
        leaves(
            seq![0x5Bu8, 0x58u8, 0x48u8, 0x0Fu8, 0xAFu8, 0xC3u8, 0x50u8],
            with_stack(m, below.push(a).push(b)),
            below.push(wrap64(a * b)),
        ),
{
    lemma_pops(below, a, b);
    reveal_with_fuel(x86_run, 5);
}

proof fn lemma_run_shift(op: u8, m: X86Machine, below: Seq<u64>, a: u64, b: u64)
    requires
        op == 0xE0 || op == 0xE8,
    ensures
        leaves(
            seq![0x59u8, 0x58u8, 0x48u8, 0xD3u8, op, 0x50u8],
            with_stack(m, below.push(a).push(b)),
            below.push(if op == 0xE0 { a << ((b % 64) as u64) } else { a >> ((b % 64) as u64) }),
        ),
{
    lemma_pops(below, a, b);
    reveal_with_fuel(x86_run, 5);
}

proof fn lemma_run_divide(last: u8, m: X86Machine, below: Seq<u64>, a: u64, b: u64)
    requires
        last == 0x50 || last == 0x52,
        signed64(b) != 0,
        !(a == 0x8000_0000_0000_0000 && signed64(b) == -1),
    ensures
        leaves(
            seq![0x5Bu8, 0x58u8, 0x48u8, 0x99u8, 0x48u8, 0xF7u8, 0xFBu8, last],
            with_stack(m, below.push(a).push(b)),
            below.push(
                if last == 0x50 {
                    wrap64(trunc_div(signed64(a), signed64(b)))
                } else {
                    wrap64(trunc_rem(signed64(a), signed64(b)))
                },
            ),
        ),
{
    lemma_pops(below, a, b);
    lemma_cqo_dividend(a);
    lemma_trunc_div_fits(signed64(a), signed64(b));
    reveal_with_fuel(x86_run, 6);
}

/// Compiled to x86-64, a binary arithmetic or logic instruction takes its two
/// operands off the stack, `b` on top and `a` below it, and leaves in their
/// place the 64-bit word that the operation gives: `a + b`, `a - b` and
/// `a * b` modulo 2^64; the signed quotient and remainder of `a` by `b`
/// rounded toward zero, where `b` is not zero and the quotient fits; the
/// bitwise and, or and exclusive or; and `a` shifted left or right
/// (logically) by `b` modulo 64. Whatever code came before, and whatever is
/// below the operands, stays as it was.
pub proof fn law_x86_binary(
    st: EmitState,
    ci: CoreInstruction,
    table: Map<Seq<char>, usize>,
    internal: Set<Seq<char>>,
    m: X86Machine,
    below: Seq<u64>,
    a: u64,
    b: u64,
)
    requires
        ci is Add || ci is Sub || ci is Mul || ci is Div || ci is Rem || ci is And || ci is Or || ci is Xor
            || ci is Shl || ci is Shr,
        ci is Div || ci is Rem ==> signed64(b) != 0 && !(a == 0x8000_0000_0000_0000 && signed64(b) == -1),
    ensures
        x86_core(st, ci, table, internal) matches Ok(s2) && x86_run(
            s2.code,
            st.code.len() as int,
            with_stack(m, below.push(a).push(b)),
        ) matches Some(end) && end.stack == below.push(binary_word_result(ci, a, b)),
{
    let start = with_stack(m, below.push(a).push(b));
    let s2 = x86_core(st, ci, table, internal)->Ok_0;
    let bytes = binary_bytes(ci);
    assert(s2.code =~= st.code + bytes);
    lemma_run_after(st.code, bytes, 0, start);
    match ci {
        CoreInstruction::Add(_) => lemma_run_register_op(0x01, m, below, a, b),
        CoreInstruction::Sub(_) => lemma_run_register_op(0x29, m, below, a, b),
        CoreInstruction::And(_) => lemma_run_register_op(0x21, m, below, a, b),
        CoreInstruction::Or(_) => lemma_run_register_op(0x09, m, below, a, b),
        CoreInstruction::Xor(_) => lemma_run_register_op(0x31, m, below, a, b),
        CoreInstruction::Mul(_) => lemma_run_mul(m, below, a, b),
        CoreInstruction::Shl(_) => lemma_run_shift(0xE0, m, below, a, b),
        CoreInstruction::Shr(_) => lemma_run_shift(0xE8, m, below, a, b),
        CoreInstruction::Div(_) => lemma_run_divide(0x50, m, below, a, b),
        _ => lemma_run_divide(0x52, m, below, a, b),
    }
}

proof fn lemma_run_compare(cc: u8, m: X86Machine, below: Seq<u64>, a: u64, b: u64)
    requires
        0x90 <= cc <= 0x9F,
    ensures
        leaves(
            seq![0x5Bu8, 0x58u8, 0x48u8, 0x39u8, 0xD8u8, 0x0Fu8, cc, 0xC0u8, 0x48u8, 0x0Fu8, 0xB6u8, 0xC0u8, 0x50u8],
            with_stack(m, below.push(a).push(b)),
            below.push(if condition_code_holds(cc, signed64(a), signed64(b)) { 1u64 } else { 0u64 }),
        ),
{
    lemma_pops(below, a, b);
    let bit: int = if condition_code_holds(cc, signed64(a), signed64(b)) { 1 } else { 0 };
    assert(((a / 0x100) * 0x100 + bit) < word_modulus());
    assert(((a / 0x100) * 0x100 + bit) % 0x100 == bit);
    reveal_with_fuel(x86_run, 7);
}

/// Compiled to x86-64, a comparison takes its two operands off the stack,
/// `b` on top and `a` below it, and leaves 1 where the relation holds between
/// them read as signed 64-bit numbers, 0 where it does not.
pub proof fn law_x86_compare(
    st: EmitState,
    c: CmpCondition,
    t: GaiaType,
    table: Map<Seq<char>, usize>,
    internal: Set<Seq<char>>,
    m: X86Machine,
    below: Seq<u64>,
    a: u64,
    b: u64,
)
    ensures
        x86_core(st, CoreInstruction::Cmp(c, t), table, internal) matches Ok(s2) && x86_run(
            s2.code,
            st.code.len() as int,
            with_stack(m, below.push(a).push(b)),
        ) matches Some(end) && end.stack == below.push(
            if condition_holds(c, signed64(a), signed64(b)) { 1u64 } else { 0u64 },
        ),
{
    let start = with_stack(m, below.push(a).push(b));
    let s2 = x86_core(st, CoreInstruction::Cmp(c, t), table, internal)->Ok_0;
    let cc: u8 = match c {
        CmpCondition::Eq => 0x94,
        CmpCondition::Ne => 0x95,
        CmpCondition::Lt => 0x9C,
        CmpCondition::Le => 0x9E,
        CmpCondition::Gt => 0x9F,
        CmpCondition::Ge => 0x9D,
    };
    let bytes = seq![0x5Bu8, 0x58u8, 0x48u8, 0x39u8, 0xD8u8, 0x0Fu8, cc, 0xC0u8, 0x48u8, 0x0Fu8, 0xB6u8, 0xC0u8, 0x50u8];
    assert(s2.code =~= st.code + bytes);
    lemma_run_after(st.code, bytes, 0, start);
    lemma_run_compare(cc, m, below, a, b);
}

proof fn lemma_run_unary(op: Seq<u8>, v: u64, m: X86Machine, below: Seq<u64>, a: u64)
    requires
        op == seq![0x48u8, 0xF7u8, 0xD8u8] && v == wrap64(-a) || op == seq![0x48u8, 0xF7u8, 0xD0u8] && v == !a
            || op == seq![0x48u8, 0x83u8, 0xF0u8, 0x01u8] && v == a ^ 1u64,
    ensures
        leaves(seq![0x58u8] + op + seq![0x50u8], with_stack(m, below.push(a)), below.push(v)),
{
    lemma_pops(below, a, a);
    let bytes = seq![0x58u8] + op + seq![0x50u8];
    if op.len() == 3 {
        assert(bytes =~= seq![0x58u8, op[0], op[1], op[2], 0x50u8]);
    } else {
        assert(bytes =~= seq![0x58u8, op[0], op[1], op[2], op[3], 0x50u8]);
    }
    reveal_with_fuel(x86_run, 4);
}

/// Compiled to x86-64, a negation replaces the word on top of the stack by
/// its two's complement negation modulo 2^64, and a logical not replaces it
/// by its bitwise complement, or, for a `Bool`, flips its lowest bit (1 and
/// 0 trade places).
pub proof fn law_x86_unary(
    st: EmitState,
    ci: CoreInstruction,
    table: Map<Seq<char>, usize>,
    internal: Set<Seq<char>>,
    m: X86Machine,
    below: Seq<u64>,
    a: u64,
)
    requires
        ci is Neg || ci is Not,
    ensures
        x86_core(st, ci, table, internal) matches Ok(s2) && x86_run(
            s2.code,
            st.code.len() as int,
            with_stack(m, below.push(a)),
        ) matches Some(end) && end.stack == below.push(
            match ci {
                CoreInstruction::Neg(_) => wrap64(-a),
                CoreInstruction::Not(GaiaType::Bool) => a ^ 1u64,
                _ => !a,
            },
        ),
{
    let start = with_stack(m, below.push(a));
    let s2 = x86_core(st, ci, table, internal)->Ok_0;
    let op = match ci {
        CoreInstruction::Neg(_) => seq![0x48u8, 0xF7u8, 0xD8u8],
        CoreInstruction::Not(GaiaType::Bool) => seq![0x48u8, 0x83u8, 0xF0u8, 0x01u8],
        _ => seq![0x48u8, 0xF7u8, 0xD0u8],
    };
    let v = match ci {
        CoreInstruction::Neg(_) => wrap64(-a),
        CoreInstruction::Not(GaiaType::Bool) => a ^ 1u64,
        _ => !a,
    };
    let bytes = seq![0x58u8] + op + seq![0x50u8];
    assert(s2.code =~= st.code + bytes);
    lemma_run_after(st.code, bytes, 0, start);
    lemma_run_unary(op, v, m, below, a);
}

proof fn lemma_run_branch(cc: u8, m: X86Machine, below: Seq<u64>, v: u64)
    requires
        cc == 0x84 || cc == 0x85,
    ensures
        x86_run(
            seq![0x58u8, 0x48u8, 0x85u8, 0xC0u8, 0x0Fu8, cc, 0u8, 0u8, 0u8, 0u8],
            0,
            with_stack(m, below.push(v)),
        ) matches Some(end) && end.stack == below && end.taken == m.taken.push(if cc == 0x84 { v == 0 } else { v != 0 }),
{
    lemma_pops(below, v, v);
    reveal_with_fuel(x86_run, 4);
}

/// Compiled to x86-64, `BrFalse(l)` pops the condition and jumps exactly
/// when it is zero, `BrTrue(l)` exactly when it is not, and `Br(l)` always
/// jumps and leaves the stack alone; each leaves its 32-bit displacement as
/// the last bytes of its code, recorded as a jump to `l`.
pub proof fn law_x86_branches(
    st: EmitState,
    l: String,
    table: Map<Seq<char>, usize>,
    internal: Set<Seq<char>>,
    m: X86Machine,
    below: Seq<u64>,
    v: u64,
)
    ensures
        x86_core(st, CoreInstruction::BrFalse(l), table, internal) matches Ok(s2) && s2.jumps == st.jumps.push(
            ((st.code.len() + 6) as nat, l@),
        ) && s2.code.len() == st.code.len() + 10 && (x86_run(
            s2.code,
            st.code.len() as int,
            with_stack(m, below.push(v)),
        ) matches Some(end) && end.stack == below && end.taken == m.taken.push(v == 0)),
        x86_core(st, CoreInstruction::BrTrue(l), table, internal) matches Ok(s2) && s2.jumps == st.jumps.push(
            ((st.code.len() + 6) as nat, l@),
        ) && s2.code.len() == st.code.len() + 10 && (x86_run(
            s2.code,
            st.code.len() as int,
            with_stack(m, below.push(v)),
        ) matches Some(end) && end.stack == below && end.taken == m.taken.push(v != 0)),
        x86_core(st, CoreInstruction::Br(l), table, internal) matches Ok(s2) && s2.jumps == st.jumps.push(
            ((st.code.len() + 1) as nat, l@),
        ) && s2.code.len() == st.code.len() + 5 && (x86_run(s2.code, st.code.len() as int, with_stack(m, below))
            matches Some(end) && end.stack == below && end.taken == m.taken.push(true)),
{
    let start = with_stack(m, below.push(v));
    let f = x86_core(st, CoreInstruction::BrFalse(l), table, internal)->Ok_0;
    let fb = seq![0x58u8, 0x48u8, 0x85u8, 0xC0u8, 0x0Fu8, 0x84u8, 0u8, 0u8, 0u8, 0u8];
    assert(f.code =~= st.code + fb);
    lemma_run_after(st.code, fb, 0, start);
    lemma_run_branch(0x84, m, below, v);
    let t = x86_core(st, CoreInstruction::BrTrue(l), table, internal)->Ok_0;
    let tb = seq![0x58u8, 0x48u8, 0x85u8, 0xC0u8, 0x0Fu8, 0x85u8, 0u8, 0u8, 0u8, 0u8];
    assert(t.code =~= st.code + tb);
    lemma_run_after(st.code, tb, 0, start);
    lemma_run_branch(0x85, m, below, v);
    let j = x86_core(st, CoreInstruction::Br(l), table, internal)->Ok_0;
    let jb = seq![0xE9u8, 0u8, 0u8, 0u8, 0u8];
    assert(j.code =~= st.code + jb);
    lemma_run_after(st.code, jb, 0, with_stack(m, below));
    reveal_with_fuel(x86_run, 2);
}

/// The integer value of an integer constant of 16, 32 or 64 bits.
pub open spec fn wide_constant_value(c: GaiaConstant) -> int {
    match c {
        GaiaConstant::I16(v) => v as int,
        GaiaConstant::I32(v) => v as int,
        GaiaConstant::I64(v) => v as int,
        _ => 0,
    }
}

/// Compiled to x86-64, pushing an `I16`, `I32` or `I64` constant leaves its
/// value, as a 64-bit two's complement word, on top of the stack.
pub proof fn law_x86_push_constant(
    st: EmitState,
    c: GaiaConstant,
    table: Map<Seq<char>, usize>,
    internal: Set<Seq<char>>,
    m: X86Machine,
    below: Seq<u64>,
)
    requires
        c is I16 || c is I32 || c is I64,
    ensures
        x86_core(st, CoreInstruction::PushConstant(c), table, internal) matches Ok(s2) && (x86_run(
            s2.code,
            st.code.len() as int,
            with_stack(m, below),
        ) matches Some(end) && end.stack == below.push(wrap64(wide_constant_value(c)))),
{
    lemma_pow256_values();
    let s2 = x86_core(st, CoreInstruction::PushConstant(c), table, internal)->Ok_0;
    let v = wide_constant_value(c);
    let start = with_stack(m, below);
    if c is I64 {
        let imm = le64(v);
        lemma_le_bytes_roundtrip(v % word_modulus(), 8);
        let bytes = seq![0x48u8, 0xB8u8] + imm + seq![0x50u8];
        assert(s2.code =~= st.code + bytes);
        lemma_run_after(st.code, bytes, 0, start);
        assert(bytes.subrange(0, 11).subrange(2, 10) =~= imm);
        assert(bytes.subrange(10, 11) =~= seq![0x50u8]);
        reveal_with_fuel(x86_run, 3);
    } else {
        let imm = le32(v);
        lemma_le_bytes_roundtrip(v % 0x1_0000_0000, 4);
        let bytes = seq![0x68u8] + imm;
        assert(s2.code =~= st.code + bytes);
        lemma_run_after(st.code, bytes, 0, start);
        assert(bytes.subrange(0, 5).subrange(1, 5) =~= imm);
        assert(le_signed_value(imm) == v);
        reveal_with_fuel(x86_run, 2);
    }
}

/// Compiled to x86-64, `Pop` drops the word on top of the stack and `Dup`
/// pushes a second copy of it.
pub proof fn law_x86_pop_dup(
    st: EmitState,
    table: Map<Seq<char>, usize>,
    internal: Set<Seq<char>>,
    m: X86Machine,
    below: Seq<u64>,
    a: u64,
)
    ensures
        x86_core(st, CoreInstruction::Pop, table, internal) matches Ok(s2) && (x86_run(
            s2.code,
            st.code.len() as int,
            with_stack(m, below.push(a)),
        ) matches Some(end) && end.stack == below),
        x86_core(st, CoreInstruction::Dup, table, internal) matches Ok(s2) && (x86_run(
            s2.code,
            st.code.len() as int,
            with_stack(m, below.push(a)),
        ) matches Some(end) && end.stack == below.push(a).push(a)),
{
    lemma_pops(below, a, a);
    let start = with_stack(m, below.push(a));
    let p = x86_core(st, CoreInstruction::Pop, table, internal)->Ok_0;
    let pb = seq![0x58u8];
    assert(p.code =~= st.code + pb);
    lemma_run_after(st.code, pb, 0, start);
    let d = x86_core(st, CoreInstruction::Dup, table, internal)->Ok_0;
    let db = seq![0x48u8, 0x8Bu8, 0x04u8, 0x24u8, 0x50u8];
    assert(d.code =~= st.code + db);
    lemma_run_after(st.code, db, 0, start);
    reveal_with_fuel(x86_run, 3);
}

/// The register that holds argument `idx` (one of the first four) in the
/// Windows x64 calling convention: RCX, RDX, R8, R9.
pub open spec fn argument_register(m: X86Machine, idx: u32) -> u64 {
    if idx == 0 {
        m.rcx
    } else if idx == 1 {
        m.rdx
    } else if idx == 2 {
        m.r8
    } else {
        m.r9
    }
}

/// Compiled to x86-64, loading one of the first four arguments pushes the
/// register that the calling convention passes it in.
pub proof fn law_x86_load_register_arg(
    st: EmitState,
    idx: u32,
    t: GaiaType,
    table: Map<Seq<char>, usize>,
    internal: Set<Seq<char>>,
    m: X86Machine,
    below: Seq<u64>,
)
    requires
        idx < 4,
    ensures
        x86_core(st, CoreInstruction::LoadArg(idx, t), table, internal) matches Ok(s2) && (x86_run(
            s2.code,
            st.code.len() as int,
            with_stack(m, below),
        ) matches Some(end) && end.stack == below.push(argument_register(m, idx))),
{
    let s2 = x86_core(st, CoreInstruction::LoadArg(idx, t), table, internal)->Ok_0;
    let bytes = s2.code.subrange(st.code.len() as int, s2.code.len() as int);
    assert(s2.code =~= st.code + bytes);
    lemma_run_after(st.code, bytes, 0, with_stack(m, below));
    if idx == 0 {
        assert(bytes =~= seq![0x51u8]);
    } else if idx == 1 {
        assert(bytes =~= seq![0x52u8]);
    } else if idx == 2 {
        assert(bytes =~= seq![0x41u8, 0x50u8]);
    } else {
        assert(bytes =~= seq![0x41u8, 0x51u8]);
    }
    reveal_with_fuel(x86_run, 2);
}

/// The frame offset of local slot `idx` (of the first 16): `-(idx + 1) * 8`.
pub open spec fn local_offset(idx: u32) -> int {
    -8 * (idx + 1)
}

proof fn lemma_local_disp(idx: u32)
    requires
        idx < 16,
    ensures
        sign_extend_disp8(local_disp(idx)) == local_offset(idx),
{
    assert((-(8 * (idx + 1))) % 256 == 256 - 8 * (idx + 1));
}

/// Compiled to x86-64, `StoreLocal(i)` followed by `LoadLocal(j)`: where
/// `i` and `j` are the same slot, the load gives back the value the store
/// took off the stack; where they are different slots (of the first 16),
/// the load gives what slot `j` held before, untouched by the store.
pub proof fn law_x86_locals(
    st: EmitState,
    i: u32,
    j: u32,
    t: GaiaType,
    u: GaiaType,
    table: Map<Seq<char>, usize>,
    internal: Set<Seq<char>>,
    m: X86Machine,
    below: Seq<u64>,
    a: u64,
)
    requires
        i == j || (i < 16 && j < 16 && m.frame.dom().contains(local_offset(j))),
    ensures
        x86_core(st, CoreInstruction::StoreLocal(i, t), table, internal) matches Ok(s1) && x86_core(
            s1,
            CoreInstruction::LoadLocal(j, u),
            table,
            internal,
        ) matches Ok(s2) && (x86_run(s2.code, st.code.len() as int, with_stack(m, below.push(a))) matches Some(
            end,
        ) && end.stack == below.push(if i == j { a } else { m.frame[local_offset(j)] })),
{
    let s1 = x86_core(st, CoreInstruction::StoreLocal(i, t), table, internal)->Ok_0;
    let s2 = x86_core(s1, CoreInstruction::LoadLocal(j, u), table, internal)->Ok_0;
    let bytes = seq![
        0x58u8,
        0x48u8,
        0x89u8,
        0x45u8,
        local_disp(i),
        0x48u8,
        0x8Bu8,
        0x45u8,
        local_disp(j),
        0x50u8,
    ];
    assert(s2.code =~= st.code + bytes);
    lemma_run_after(st.code, bytes, 0, with_stack(m, below.push(a)));
    lemma_pops(below, a, a);
    if i != j {
        lemma_local_disp(i);
        lemma_local_disp(j);
    }
    reveal_with_fuel(x86_run, 5);
}

} // verus!
