//! What the JVM does with the instructions that the lowering writes for
//! arithmetic and branches, as the JVM specification defines them, and the
//! laws on what each lowered Gaia instruction computes or where it jumps.
use vstd::prelude::*;
use crate::adapters::MappingTable;
use crate::backends::int_ops::{lemma_trunc_div_fits32, trunc_div};
use crate::backends::jvm::{jvm_lowering, slot_kind, JvmOp, JvmOutcome, SlotKind};
use crate::types::GaiaType;
use crate::program::GaiaConstant;
use crate::text::decimal_text;
use crate::instruction::{CoreInstruction, GaiaInstruction};

verus! {

/// An integer reduced to the 32-bit two's complement range, as JVM `int`
/// arithmetic does on overflow.
pub open spec fn wrap_i32(x: int) -> int {
    let r = x % 0x1_0000_0000;
    if r >= 0x8000_0000 {
        r - 0x1_0000_0000
    } else {
        r
    }
}

/// Whether an integer is a JVM `int`.
pub open spec fn is_i32(x: int) -> bool {
    -0x8000_0000 <= x < 0x8000_0000
}

/// One JVM instruction on an operand stack of `int`s (top last): the stack
/// after it and the label it jumps to, if it jumps; no result for an
/// instruction outside the model, too few operands, or an `idiv` by zero,
/// which throws.
pub open spec fn jvm_step(op: JvmOp, stack: Seq<int>) -> Option<(Seq<int>, Option<Seq<char>>)> {
    match op {
        JvmOp::IconstM1 => Some((stack.push(-1), None)),
        JvmOp::Iconst0 => Some((stack.push(0), None)),
        JvmOp::Iconst1 => Some((stack.push(1), None)),
        JvmOp::Iconst2 => Some((stack.push(2), None)),
        JvmOp::Iconst3 => Some((stack.push(3), None)),
        JvmOp::Iconst4 => Some((stack.push(4), None)),
        JvmOp::Iconst5 => Some((stack.push(5), None)),
        JvmOp::Bipush { value } => Some((stack.push(value as int), None)),
        JvmOp::Sipush { value } => Some((stack.push(value as int), None)),
        JvmOp::Pop => if stack.len() >= 1 {
            Some((stack.drop_last(), None))
        } else {
            None
        },
        JvmOp::Dup => if stack.len() >= 1 {
            Some((stack.push(stack.last()), None))
        } else {
            None
        },
        JvmOp::Goto { target } => Some((stack, Some(target))),
        JvmOp::Ifeq { target } => if stack.len() >= 1 {
            Some((stack.drop_last(), if stack.last() == 0 { Some(target) } else { None }))
        } else {
            None
        },
        JvmOp::Ifne { target } => if stack.len() >= 1 {
            Some((stack.drop_last(), if stack.last() != 0 { Some(target) } else { None }))
        } else {
            None
        },
        JvmOp::Iadd | JvmOp::Isub | JvmOp::Imul | JvmOp::Idiv => if stack.len() >= 2 {
            let value2 = stack.last();
            let value1 = stack.drop_last().last();
            let rest = stack.drop_last().drop_last();
            match op {
                JvmOp::Iadd => Some((rest.push(wrap_i32(value1 + value2)), None)),
                JvmOp::Isub => Some((rest.push(wrap_i32(value1 - value2)), None)),
                JvmOp::Imul => Some((rest.push(wrap_i32(value1 * value2)), None)),
                _ => if value2 == 0 {
                    None
                } else {
                    Some((rest.push(wrap_i32(trunc_div(value1, value2))), None))
                },
            }
        } else {
            None
        },
        _ => None,
    }
}

/// What an arithmetic instruction computes on `int`s `a` (below) and `b`
/// (on top).
pub open spec fn int_arith_result(ci: CoreInstruction, a: int, b: int) -> int {
    match ci {
        CoreInstruction::Add(_) => wrap_i32(a + b),
        CoreInstruction::Sub(_) => wrap_i32(a - b),
        CoreInstruction::Mul(_) => wrap_i32(a * b),
        _ => trunc_div(a, b),
    }
}

/// Lowered to the JVM, a conditional branch is one instruction that pops the
/// condition: `BrFalse(l)` jumps to `l` exactly when the popped value is
/// zero (false), `BrTrue(l)` exactly when it is not, so the two are taken
/// on complementary values; `Br(l)` always jumps to `l` and leaves the stack
/// as it was.
pub proof fn law_jvm_branches(
    l: String,
    tb: MappingTable,
    ft: Map<(Seq<char>, Seq<char>), Seq<char>>,
    below: Seq<int>,
    v: int,
)
    ensures
        jvm_lowering(GaiaInstruction::Core(CoreInstruction::BrFalse(l)), tb, ft) matches JvmOutcome::Ops(s)
            && s.len() == 1 && jvm_step(s[0], below.push(v)) == Some(
            (below, if v == 0 { Some(l@) } else { None }),
        ),
        jvm_lowering(GaiaInstruction::Core(CoreInstruction::BrTrue(l)), tb, ft) matches JvmOutcome::Ops(s)
            && s.len() == 1 && jvm_step(s[0], below.push(v)) == Some(
            (below, if v != 0 { Some(l@) } else { None }),
        ),
        jvm_lowering(GaiaInstruction::Core(CoreInstruction::Br(l)), tb, ft) matches JvmOutcome::Ops(s)
            && s.len() == 1 && jvm_step(s[0], below.push(v)) == Some((below.push(v), Some(l@))),
{
    assert(below.push(v).drop_last() =~= below);
}

/// Lowered to the JVM, `Add`, `Sub`, `Mul` and `Div` are one instruction
/// that takes `b` (on top) and `a` (below it) off the stack and leaves
/// `a + b`, `a - b`, `a * b` wrapped to 32 bits, or the quotient of `a` by
/// `b` rounded toward zero, where `b` is not zero (`-2^31 / -1` wraps to
/// `-2^31`, as the JVM defines it).
pub proof fn law_jvm_arith(
    ci: CoreInstruction,
    tb: MappingTable,
    ft: Map<(Seq<char>, Seq<char>), Seq<char>>,
    below: Seq<int>,
    a: int,
    b: int,
)
    requires
        ci is Add || ci is Sub || ci is Mul || ci is Div,
        is_i32(a),
        is_i32(b),
        ci is Div ==> b != 0,
    ensures
        jvm_lowering(GaiaInstruction::Core(ci), tb, ft) matches JvmOutcome::Ops(s) && s.len() == 1 && jvm_step(
            s[0],
            below.push(a).push(b),
        ) == Some(
            (
                below.push(
                    if ci is Div && a == -0x8000_0000 && b == -1 {
                        -0x8000_0000
                    } else {
                        int_arith_result(ci, a, b)
                    },
                ),
                None::<Seq<char>>,
            ),
        ),
{
    assert(below.push(a).push(b).drop_last() =~= below.push(a));
    assert(below.push(a).drop_last() =~= below);
    if ci is Div {
        if a == -0x8000_0000 && b == -1 {
            assert(0x8000_0000int / 1 == 0x8000_0000);
            assert(trunc_div(a, b) == 0x8000_0000);
        } else {
            lemma_trunc_div_fits32(a, b);
            let q = trunc_div(a, b);
            assert(wrap_i32(q) == q);
        }
    }
}

/// Lowered to the JVM, pushing an `I32` constant `v` is one instruction
/// that pushes `v`: `iconst`, `bipush` or `sipush` where `v` fits in 16
/// bits, else `ldc` of its decimal text.
pub proof fn law_jvm_push_int(v: i32, tb: MappingTable, ft: Map<(Seq<char>, Seq<char>), Seq<char>>, below: Seq<int>)
    ensures
        jvm_lowering(GaiaInstruction::Core(CoreInstruction::PushConstant(GaiaConstant::I32(v))), tb, ft) matches JvmOutcome::Ops(s)
            && s.len() == 1 && if -0x8000 <= v < 0x8000 {
            jvm_step(s[0], below) == Some((below.push(v as int), None::<Seq<char>>))
        } else {
            s[0] == JvmOp::Ldc { symbol: decimal_text(v as int) }
        },
{
}

/// Lowered to the JVM, `Pop` drops the value on top of the stack and `Dup`
/// pushes a second copy of it.
pub proof fn law_jvm_pop_dup(tb: MappingTable, ft: Map<(Seq<char>, Seq<char>), Seq<char>>, below: Seq<int>, a: int)
    ensures
        jvm_lowering(GaiaInstruction::Core(CoreInstruction::Pop), tb, ft) matches JvmOutcome::Ops(s) && s.len() == 1
            && jvm_step(s[0], below.push(a)) == Some((below, None::<Seq<char>>)),
        jvm_lowering(GaiaInstruction::Core(CoreInstruction::Dup), tb, ft) matches JvmOutcome::Ops(s) && s.len() == 1
            && jvm_step(s[0], below.push(a)) == Some((below.push(a).push(a), None::<Seq<char>>)),
{
    assert(below.push(a).drop_last() =~= below);
}

/// The kind and index of a local variable instruction, and whether it
/// stores; none for another instruction.
pub open spec fn slot_access(op: JvmOp) -> Option<(SlotKind, int, bool)> {
    match op {
        JvmOp::Iload { index } => Some((SlotKind::Int, index as int, false)),
        JvmOp::Lload { index } => Some((SlotKind::Long, index as int, false)),
        JvmOp::Fload { index } => Some((SlotKind::Single, index as int, false)),
        JvmOp::Dload { index } => Some((SlotKind::Double, index as int, false)),
        JvmOp::Aload { index } => Some((SlotKind::Reference, index as int, false)),
        JvmOp::Istore { index } => Some((SlotKind::Int, index as int, true)),
        JvmOp::Lstore { index } => Some((SlotKind::Long, index as int, true)),
        JvmOp::Fstore { index } => Some((SlotKind::Single, index as int, true)),
        JvmOp::Dstore { index } => Some((SlotKind::Double, index as int, true)),
        JvmOp::Astore { index } => Some((SlotKind::Reference, index as int, true)),
        _ => None,
    }
}

/// A local variable instruction on a stack and local variables of values
/// tagged with their kind: a store pops a value of its kind into the
/// variable, a load pushes the variable's value; no result where the kinds
/// differ (the JVM's verifier refuses such code) or the variable is unset.
pub open spec fn jvm_local_step(
    op: JvmOp,
    stack: Seq<(SlotKind, int)>,
    locals: Map<int, (SlotKind, int)>,
) -> Option<(Seq<(SlotKind, int)>, Map<int, (SlotKind, int)>)> {
    match slot_access(op) {
        Some((k, i, true)) => if stack.len() >= 1 && stack.last().0 == k {
            Some((stack.drop_last(), locals.insert(i, stack.last())))
        } else {
            None
        },
        Some((k, i, false)) => if locals.dom().contains(i) && locals[i].0 == k {
            Some((stack.push(locals[i]), locals))
        } else {
            None
        },
        None => None,
    }
}

/// Lowered to the JVM, `StoreLocal(i, t)` followed by `LoadLocal(j, t)` (or
/// the same with arguments): where `i` and `j` are the same slot, the load
/// gives back the value the store took off the stack; where they are
/// different slots, the load gives what slot `j` held, untouched by the
/// store.
pub proof fn law_jvm_locals(
    i: u32,
    j: u32,
    t: GaiaType,
    args: bool,
    tb: MappingTable,
    ft: Map<(Seq<char>, Seq<char>), Seq<char>>,
    below: Seq<(SlotKind, int)>,
    locals: Map<int, (SlotKind, int)>,
    x: int,
)
    requires
        i < 0x10000,
        j < 0x10000,
        i != j ==> locals.dom().contains(j as int) && locals[j as int].0 == slot_kind(t),
    ensures
        ({
            let store = if args { CoreInstruction::StoreArg(i, t) } else { CoreInstruction::StoreLocal(i, t) };
            let load = if args { CoreInstruction::LoadArg(j, t) } else { CoreInstruction::LoadLocal(j, t) };
            jvm_lowering(GaiaInstruction::Core(store), tb, ft) matches JvmOutcome::Ops(s1) && s1.len() == 1 && (
            jvm_lowering(GaiaInstruction::Core(load), tb, ft) matches JvmOutcome::Ops(s2) && s2.len() == 1 && (
            jvm_local_step(s1[0], below.push((slot_kind(t), x)), locals) matches Some((st1, l1)) && (jvm_local_step(
                s2[0],
                st1,
                l1,
            ) matches Some((st2, l2)) && st2 == below.push(
                if i == j { (slot_kind(t), x) } else { locals[j as int] },
            ))))
        }),
{
    assert(below.push((slot_kind(t), x)).drop_last() =~= below);
    assert((i as u16) as int == i);
    assert((j as u16) as int == j);
}

} // verus!
