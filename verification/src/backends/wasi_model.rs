//! What WebAssembly does with the `i32` instructions that the lowering
//! writes for arithmetic, logic and comparisons, as the WebAssembly
//! specification defines them, and the law on what each lowered Gaia
//! instruction computes.
use vstd::prelude::*;
use crate::backends::int_ops::{condition_holds, trunc_div, trunc_rem};
use crate::backends::jvm_model::wrap_i32;
use crate::backends::wasi::{wasi_instr, WasiInstruction};
use crate::instruction::{CoreInstruction, GaiaInstruction};
use crate::program::GaiaConstant;

verus! {

/// The shift count of an `i32` shift: the second operand modulo 32.
pub open spec fn shift_count(b: i32) -> u32 {
    ((b as int) % 32) as u32
}

/// 1 or 0 as an `i32`.
pub open spec fn flag_i32(b: bool) -> i32 {
    if b {
        1
    } else {
        0
    }
}

/// One instruction on an operand stack of `i32`s (top last): `c1` is the
/// second operand from the top, `c2` the top. No result for an instruction
/// outside the model, too few operands, or a trap (division by zero, an
/// overflowing `div_s`).
pub open spec fn wasm_step(ins: WasiInstruction, stack: Seq<i32>) -> Option<Seq<i32>> {
    if ins is I32Const {
        Some(stack.push(ins->I32Const_value))
    } else if ins is Drop {
        if stack.len() >= 1 {
            Some(stack.drop_last())
        } else {
            None
        }
    } else if stack.len() < 2 {
        None
    } else {
        let c2 = stack.last();
        let c1 = stack.drop_last().last();
        let rest = stack.drop_last().drop_last();
        let v: Option<i32> = match ins {
            WasiInstruction::I32Add => Some(wrap_i32(c1 + c2) as i32),
            WasiInstruction::I32Sub => Some(wrap_i32(c1 - c2) as i32),
            WasiInstruction::I32Mul => Some(wrap_i32(c1 * c2) as i32),
            WasiInstruction::I32DivS => if c2 == 0 || (c1 == i32::MIN && c2 == -1) {
                None
            } else {
                Some(trunc_div(c1 as int, c2 as int) as i32)
            },
            WasiInstruction::I32RemS => if c2 == 0 {
                None
            } else {
                Some(trunc_rem(c1 as int, c2 as int) as i32)
            },
            WasiInstruction::I32And => Some(c1 & c2),
            WasiInstruction::I32Or => Some(c1 | c2),
            WasiInstruction::I32Xor => Some(c1 ^ c2),
            WasiInstruction::I32Shl => Some(c1 << shift_count(c2)),
            WasiInstruction::I32ShrS => Some(c1 >> shift_count(c2)),
            WasiInstruction::I32Eq => Some(flag_i32(c1 == c2)),
            WasiInstruction::I32Ne => Some(flag_i32(c1 != c2)),
            WasiInstruction::I32LtS => Some(flag_i32(c1 < c2)),
            WasiInstruction::I32LeS => Some(flag_i32(c1 <= c2)),
            WasiInstruction::I32GtS => Some(flag_i32(c1 > c2)),
            WasiInstruction::I32GeS => Some(flag_i32(c1 >= c2)),
            _ => None,
        };
        match v {
            Some(x) => Some(rest.push(x)),
            None => None,
        }
    }
}

/// What a binary Gaia instruction computes on `i32`s `a` (below) and `b`
/// (on top): sums, differences and products wrap, quotients and remainders
/// are signed and round toward zero, shifts take `b` modulo 32 (`Shr` keeps
/// the sign), and comparisons give 1 or 0.
pub open spec fn i32_result(ci: CoreInstruction, a: i32, b: i32) -> i32 {
    match ci {
        CoreInstruction::Add(_) => wrap_i32(a + b) as i32,
        CoreInstruction::Sub(_) => wrap_i32(a - b) as i32,
        CoreInstruction::Mul(_) => wrap_i32(a * b) as i32,
        CoreInstruction::Div(_) => trunc_div(a as int, b as int) as i32,
        CoreInstruction::Rem(_) => trunc_rem(a as int, b as int) as i32,
        CoreInstruction::And(_) => a & b,
        CoreInstruction::Or(_) => a | b,
        CoreInstruction::Xor(_) => a ^ b,
        CoreInstruction::Shl(_) => a << shift_count(b),
        CoreInstruction::Shr(_) => a >> shift_count(b),
        CoreInstruction::Cmp(c, _) => flag_i32(condition_holds(c, a as int, b as int)),
        _ => 0,
    }
}

/// Lowered to WebAssembly, each binary arithmetic, logic or comparison
/// instruction is one `i32` instruction that takes `b` (on top) and `a`
/// (below it) off the stack and leaves what the Gaia instruction computes:
/// `Sub` leaves `a - b`, not `a + b`; `Div` and `Rem` where they do not
/// trap.
pub proof fn law_wasi_binary(ci: CoreInstruction, below: Seq<i32>, a: i32, b: i32)
    requires
        ci is Add || ci is Sub || ci is Mul || ci is Div || ci is Rem || ci is And || ci is Or || ci is Xor
            || ci is Shl || ci is Shr || ci is Cmp,
        ci is Div ==> b != 0 && !(a == i32::MIN && b == -1),
        ci is Rem ==> b != 0,
    ensures
        wasi_instr(GaiaInstruction::Core(ci)).len() == 1,
        wasm_step(wasi_instr(GaiaInstruction::Core(ci))[0], below.push(a).push(b)) == Some(
            below.push(i32_result(ci, a, b)),
        ),
{
    assert(below.push(a).push(b).drop_last() =~= below.push(a));
    assert(below.push(a).drop_last() =~= below);
}

/// Lowered to WebAssembly, pushing an `I32` constant is one `i32.const`
/// that pushes it, and `Pop` is one `drop` that drops the value on top.
pub proof fn law_wasi_push_pop(v: i32, below: Seq<i32>)
    ensures
        wasi_instr(GaiaInstruction::Core(CoreInstruction::PushConstant(GaiaConstant::I32(v)))).len() == 1,
        wasm_step(wasi_instr(GaiaInstruction::Core(CoreInstruction::PushConstant(GaiaConstant::I32(v))))[0], below)
            == Some(below.push(v)),
        wasi_instr(GaiaInstruction::Core(CoreInstruction::Pop)).len() == 1,
        wasm_step(wasi_instr(GaiaInstruction::Core(CoreInstruction::Pop))[0], below.push(v)) == Some(below),
{
    assert(below.push(v).drop_last() =~= below);
}

} // verus!
