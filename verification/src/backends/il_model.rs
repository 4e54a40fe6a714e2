//! What the common intermediate language does with the instructions that the
//! CIL text and the CLR program model write for arithmetic and comparisons,
//! as ECMA-335 defines them, and the laws on what each Gaia instruction
//! computes there, and that the two forms agree.
use vstd::prelude::*;
use crate::adapters::MappingTable;
use crate::backends::clr::{clr_instr, ClrInstrView, ClrOpcode};
use crate::backends::int_ops::{condition_holds, lemma_trunc_div_fits32, trunc_div};
use crate::backends::jvm_model::{int_arith_result, is_i32, wrap_i32};
use crate::backends::msil::{msil_compare, msil_instr};
use crate::instruction::{CmpCondition, CoreInstruction, GaiaInstruction};
use crate::types::GaiaType;
use crate::program::GaiaConstant;

verus! {

/// A binary operation on `int32` operands: `value1` below, `value2` on top.
/// `op` is 0 for `add`, 1 `sub`, 2 `mul`, 3 `div`, 4 `ceq`, 5 `cgt`, 6 `clt`.
/// No result where `div` throws: a zero divisor, or `-2^31 / -1`.
pub open spec fn il_binary(op: int, value1: int, value2: int) -> Option<int> {
    if op == 0 {
        Some(wrap_i32(value1 + value2))
    } else if op == 1 {
        Some(wrap_i32(value1 - value2))
    } else if op == 2 {
        Some(wrap_i32(value1 * value2))
    } else if op == 3 {
        if value2 == 0 || (value1 == -0x8000_0000 && value2 == -1) {
            None
        } else {
            Some(trunc_div(value1, value2))
        }
    } else if op == 4 {
        Some(if value1 == value2 { 1 } else { 0 })
    } else if op == 5 {
        Some(if value1 > value2 { 1 } else { 0 })
    } else {
        Some(if value1 < value2 { 1 } else { 0 })
    }
}

/// A binary operation applied to the operand stack (top last).
pub open spec fn stack_binary(op: int, stack: Seq<int>) -> Option<Seq<int>> {
    if stack.len() < 2 {
        None
    } else {
        match il_binary(op, stack.drop_last().last(), stack.last()) {
            Some(v) => Some(stack.drop_last().drop_last().push(v)),
            None => None,
        }
    }
}

/// One line of CIL text on the operand stack; no result for a line outside
/// the model or an instruction that throws.
pub open spec fn il_step(line: Seq<char>, stack: Seq<int>) -> Option<Seq<int>> {
    if line == "ldc.i4 0"@ {
        Some(stack.push(0))
    } else if line == "add"@ {
        stack_binary(0, stack)
    } else if line == "sub"@ {
        stack_binary(1, stack)
    } else if line == "mul"@ {
        stack_binary(2, stack)
    } else if line == "div"@ {
        stack_binary(3, stack)
    } else if line == "ceq"@ {
        stack_binary(4, stack)
    } else if line == "cgt"@ {
        stack_binary(5, stack)
    } else if line == "clt"@ {
        stack_binary(6, stack)
    } else if line == "pop"@ && stack.len() >= 1 {
        Some(stack.drop_last())
    } else if line == "dup"@ && stack.len() >= 1 {
        Some(stack.push(stack.last()))
    } else {
        None
    }
}

/// Lines of CIL text run in order.
pub open spec fn il_run(lines: Seq<Seq<char>>, stack: Seq<int>) -> Option<Seq<int>>
    decreases lines.len(),
{
    if lines.len() == 0 {
        Some(stack)
    } else {
        match il_step(lines[0], stack) {
            Some(s) => il_run(lines.drop_first(), s),
            None => None,
        }
    }
}

/// One instruction of the CLR program model on the operand stack.
pub open spec fn clr_step(ins: ClrInstrView, stack: Seq<int>) -> Option<Seq<int>> {
    match ins {
        ClrInstrView::WithImmediate { opcode: ClrOpcode::LdcI4, value } => Some(stack.push(value as int)),
        ClrInstrView::Simple { opcode } => match opcode {
            ClrOpcode::Add => stack_binary(0, stack),
            ClrOpcode::Sub => stack_binary(1, stack),
            ClrOpcode::Mul => stack_binary(2, stack),
            ClrOpcode::Div => stack_binary(3, stack),
            ClrOpcode::Ceq => stack_binary(4, stack),
            ClrOpcode::Cgt => stack_binary(5, stack),
            ClrOpcode::Clt => stack_binary(6, stack),
            ClrOpcode::Pop => if stack.len() >= 1 {
                Some(stack.drop_last())
            } else {
                None
            },
            ClrOpcode::Dup => if stack.len() >= 1 {
                Some(stack.push(stack.last()))
            } else {
                None
            },
            _ => None,
        },
        _ => None,
    }
}

/// Instructions of the CLR program model run in order.
pub open spec fn clr_run(ins: Seq<ClrInstrView>, stack: Seq<int>) -> Option<Seq<int>>
    decreases ins.len(),
{
    if ins.len() == 0 {
        Some(stack)
    } else {
        match clr_step(ins[0], stack) {
            Some(s) => clr_run(ins.drop_first(), s),
            None => None,
        }
    }
}

proof fn reveal_lines()
    ensures
        "ldc.i4 0"@ == seq!['l', 'd', 'c', '.', 'i', '4', ' ', '0'],
        "add"@ == seq!['a', 'd', 'd'],
        "sub"@ == seq!['s', 'u', 'b'],
        "mul"@ == seq!['m', 'u', 'l'],
        "div"@ == seq!['d', 'i', 'v'],
        "ceq"@ == seq!['c', 'e', 'q'],
        "cgt"@ == seq!['c', 'g', 't'],
        "clt"@ == seq!['c', 'l', 't'],
        "pop"@ == seq!['p', 'o', 'p'],
        "dup"@ == seq!['d', 'u', 'p'],
{
    reveal_strlit("ldc.i4 0");
    reveal_strlit("add");
    reveal_strlit("sub");
    reveal_strlit("mul");
    reveal_strlit("div");
    reveal_strlit("ceq");
    reveal_strlit("cgt");
    reveal_strlit("clt");
    reveal_strlit("pop");
    reveal_strlit("dup");
}

proof fn lemma_operands(below: Seq<int>, a: int, b: int)
    ensures
        below.push(a).push(b).drop_last() == below.push(a),
        below.push(a).push(b).drop_last().drop_last() == below,
        below.push(a).drop_last() == below,
{
    assert(below.push(a).push(b).drop_last() =~= below.push(a));
    assert(below.push(a).drop_last() =~= below);
}

/// 1 where a comparison holds, 0 where it does not.
pub open spec fn truth(b: bool) -> int {
    if b {
        1
    } else {
        0
    }
}

/// In CIL text, a comparison takes `b` (on top) and `a` (below it) off the
/// stack and leaves 1 exactly when the relation holds between `a` and `b`,
/// 0 otherwise: `Lt` is `clt`, `Gt` is `cgt`, `Eq` is `ceq`, and `Ge`, `Le`
/// and `Ne` test the opposite relation and compare its result with 0.
pub proof fn law_il_compare(
    c: CmpCondition,
    t: GaiaType,
    ft: Map<(Seq<char>, Seq<char>), Seq<char>>,
    tb: MappingTable,
    below: Seq<int>,
    a: int,
    b: int,
)
    ensures
        il_run(msil_compare(c), below.push(a).push(b)) == Some(below.push(truth(condition_holds(c, a, b)))),
        msil_instr(GaiaInstruction::Core(CoreInstruction::Cmp(c, t)), ft, tb) == Some(msil_compare(c)),
{
    reveal_lines();
    lemma_operands(below, a, b);
    reveal_with_fuel(il_run, 4);
    let ls = msil_compare(c);
    if ls.len() == 3 {
        assert(ls.drop_first() =~= seq![ls[1], ls[2]]);
        assert(ls.drop_first().drop_first() =~= seq![ls[2]]);
    } else {
        assert(ls.drop_first() =~= Seq::<Seq<char>>::empty());
    }
}

/// Complementary comparisons give complementary results in CIL text: of
/// `Lt` and `Ge`, of `Gt` and `Le`, and of `Eq` and `Ne`, exactly one
/// leaves 1.
pub proof fn law_il_compare_complements(below: Seq<int>, a: int, b: int)
    ensures
        il_run(msil_compare(CmpCondition::Lt), below.push(a).push(b)) matches Some(s1) && il_run(
            msil_compare(CmpCondition::Ge),
            below.push(a).push(b),
        ) matches Some(s2) && s1.last() + s2.last() == 1,
        il_run(msil_compare(CmpCondition::Gt), below.push(a).push(b)) matches Some(s1) && il_run(
            msil_compare(CmpCondition::Le),
            below.push(a).push(b),
        ) matches Some(s2) && s1.last() + s2.last() == 1,
        il_run(msil_compare(CmpCondition::Eq), below.push(a).push(b)) matches Some(s1) && il_run(
            msil_compare(CmpCondition::Ne),
            below.push(a).push(b),
        ) matches Some(s2) && s1.last() + s2.last() == 1,
{
    let m = Map::<(Seq<char>, Seq<char>), Seq<char>>::empty();
    let tb = arbitrary::<MappingTable>();
    law_il_compare(CmpCondition::Lt, GaiaType::I32, m, tb, below, a, b);
    law_il_compare(CmpCondition::Ge, GaiaType::I32, m, tb, below, a, b);
    law_il_compare(CmpCondition::Gt, GaiaType::I32, m, tb, below, a, b);
    law_il_compare(CmpCondition::Le, GaiaType::I32, m, tb, below, a, b);
    law_il_compare(CmpCondition::Eq, GaiaType::I32, m, tb, below, a, b);
    law_il_compare(CmpCondition::Ne, GaiaType::I32, m, tb, below, a, b);
}

/// In CIL text, `Add`, `Sub`, `Mul` and `Div` are `add`, `sub`, `mul` and
/// `div`: they take `b` (on top) and `a` (below it) off the stack and leave
/// `a + b`, `a - b`, `a * b` wrapped to 32 bits, or the quotient of `a` by
/// `b` rounded toward zero, where the division does not throw.
pub proof fn law_il_arith(
    ci: CoreInstruction,
    ft: Map<(Seq<char>, Seq<char>), Seq<char>>,
    tb: MappingTable,
    below: Seq<int>,
    a: int,
    b: int,
)
    requires
        ci is Add || ci is Sub || ci is Mul || ci is Div,
        is_i32(a),
        is_i32(b),
        ci is Div ==> b != 0 && !(a == -0x8000_0000 && b == -1),
    ensures
        msil_instr(GaiaInstruction::Core(ci), ft, tb) matches Some(ls) && il_run(ls, below.push(a).push(b)) == Some(
            below.push(int_arith_result(ci, a, b)),
        ),
{
    reveal_lines();
    lemma_operands(below, a, b);
    reveal_with_fuel(il_run, 2);
    let ls = msil_instr(GaiaInstruction::Core(ci), ft, tb)->Some_0;
    assert(ls.drop_first() =~= Seq::<Seq<char>>::empty());
    if ci is Div {
        lemma_trunc_div_fits32(a, b);
    }
}

/// For arithmetic and comparisons, the CLR program model and the CIL text
/// are the same code: on every operand stack, running the one gives what
/// running the other gives.
pub proof fn law_clr_agrees_with_il(
    i: GaiaInstruction,
    ft: Map<(Seq<char>, Seq<char>), Seq<char>>,
    tb: MappingTable,
    stack: Seq<int>,
)
    requires
        i matches GaiaInstruction::Core(ci) && (ci is Add || ci is Sub || ci is Mul || ci is Div || ci is Cmp),
    ensures
        clr_instr(i, ft, tb) matches Some(cs) && msil_instr(i, ft, tb) matches Some(ls) && clr_run(cs, stack)
            == il_run(ls, stack),
{
    reveal_lines();
    reveal_with_fuel(il_run, 4);
    reveal_with_fuel(clr_run, 4);
    let cs = clr_instr(i, ft, tb)->Some_0;
    let ls = msil_instr(i, ft, tb)->Some_0;
    if cs.len() == 3 {
        assert(cs.drop_first() =~= seq![cs[1], cs[2]]);
        assert(cs.drop_first().drop_first() =~= seq![cs[2]]);
        assert(ls.drop_first() =~= seq![ls[1], ls[2]]);
        assert(ls.drop_first().drop_first() =~= seq![ls[2]]);
    } else {
        assert(cs.drop_first() =~= Seq::<ClrInstrView>::empty());
        assert(ls.drop_first() =~= Seq::<Seq<char>>::empty());
    }
}

/// In the CLR program model, a comparison takes `b` (on top) and `a` (below
/// it) off the stack and leaves 1 exactly when the relation holds, and
/// `Add`, `Sub`, `Mul` and `Div` leave what the arithmetic gives, as in
/// the CIL text.
pub proof fn law_clr_computes(
    ci: CoreInstruction,
    ft: Map<(Seq<char>, Seq<char>), Seq<char>>,
    tb: MappingTable,
    below: Seq<int>,
    a: int,
    b: int,
)
    requires
        ci is Add || ci is Sub || ci is Mul || ci is Div || ci is Cmp,
        is_i32(a),
        is_i32(b),
        ci is Div ==> b != 0 && !(a == -0x8000_0000 && b == -1),
    ensures
        clr_instr(GaiaInstruction::Core(ci), ft, tb) matches Some(cs) && clr_run(cs, below.push(a).push(b)) == Some(
            below.push(
                match ci {
                    CoreInstruction::Cmp(c, _) => truth(condition_holds(c, a, b)),
                    _ => int_arith_result(ci, a, b),
                },
            ),
        ),
{
    law_clr_agrees_with_il(GaiaInstruction::Core(ci), ft, tb, below.push(a).push(b));
    match ci {
        CoreInstruction::Cmp(c, t) => law_il_compare(c, t, ft, tb, below, a, b),
        _ => law_il_arith(ci, ft, tb, below, a, b),
    }
}

/// Whether `s` begins with `p`.
pub open spec fn starts_with(s: Seq<char>, p: Seq<char>) -> bool {
    p.len() <= s.len() && s.subrange(0, p.len() as int) == p
}

/// A branch line of CIL text on the operand stack: the stack after it and
/// the label it jumps to, if it jumps. `brfalse` pops a value and jumps when
/// it is zero, `brtrue` when it is not, `br` always jumps.
pub open spec fn il_branch(line: Seq<char>, stack: Seq<int>) -> Option<(Seq<int>, Option<Seq<char>>)> {
    if starts_with(line, "brfalse "@) && stack.len() >= 1 {
        Some((stack.drop_last(), if stack.last() == 0 { Some(line.subrange(8, line.len() as int)) } else { None }))
    } else if starts_with(line, "brtrue "@) && stack.len() >= 1 {
        Some((stack.drop_last(), if stack.last() != 0 { Some(line.subrange(7, line.len() as int)) } else { None }))
    } else if starts_with(line, "br "@) {
        Some((stack, Some(line.subrange(3, line.len() as int))))
    } else {
        None
    }
}

/// A branch of the CLR program model, as `il_branch`.
pub open spec fn clr_branch(ins: ClrInstrView, stack: Seq<int>) -> Option<(Seq<int>, Option<Seq<char>>)> {
    match ins {
        ClrInstrView::WithLabel { opcode: ClrOpcode::Brfalse, label } => if stack.len() >= 1 {
            Some((stack.drop_last(), if stack.last() == 0 { Some(label) } else { None }))
        } else {
            None
        },
        ClrInstrView::WithLabel { opcode: ClrOpcode::Brtrue, label } => if stack.len() >= 1 {
            Some((stack.drop_last(), if stack.last() != 0 { Some(label) } else { None }))
        } else {
            None
        },
        ClrInstrView::WithLabel { opcode: ClrOpcode::Br, label } => Some((stack, Some(label))),
        _ => None,
    }
}

/// In CIL text and in the CLR program model, `BrFalse(l)` pops the
/// condition and jumps to `l` exactly when it is zero, `BrTrue(l)` exactly
/// when it is not, and `Br(l)` always jumps to `l`, leaving the stack alone.
pub proof fn law_il_branches(
    l: String,
    ft: Map<(Seq<char>, Seq<char>), Seq<char>>,
    tb: MappingTable,
    below: Seq<int>,
    v: int,
)
    ensures
        msil_instr(GaiaInstruction::Core(CoreInstruction::BrFalse(l)), ft, tb) matches Some(ls) && ls.len() == 1
            && il_branch(ls[0], below.push(v)) == Some((below, if v == 0 { Some(l@) } else { None })),
        msil_instr(GaiaInstruction::Core(CoreInstruction::BrTrue(l)), ft, tb) matches Some(ls) && ls.len() == 1
            && il_branch(ls[0], below.push(v)) == Some((below, if v != 0 { Some(l@) } else { None })),
        msil_instr(GaiaInstruction::Core(CoreInstruction::Br(l)), ft, tb) matches Some(ls) && ls.len() == 1
            && il_branch(ls[0], below.push(v)) == Some((below.push(v), Some(l@))),
        clr_instr(GaiaInstruction::Core(CoreInstruction::BrFalse(l)), ft, tb) matches Some(cs) && cs.len() == 1
            && clr_branch(cs[0], below.push(v)) == Some((below, if v == 0 { Some(l@) } else { None })),
        clr_instr(GaiaInstruction::Core(CoreInstruction::BrTrue(l)), ft, tb) matches Some(cs) && cs.len() == 1
            && clr_branch(cs[0], below.push(v)) == Some((below, if v != 0 { Some(l@) } else { None })),
        clr_instr(GaiaInstruction::Core(CoreInstruction::Br(l)), ft, tb) matches Some(cs) && cs.len() == 1
            && clr_branch(cs[0], below.push(v)) == Some((below.push(v), Some(l@))),
{
    reveal_strlit("brfalse ");
    reveal_strlit("brtrue ");
    reveal_strlit("br ");
    assert(below.push(v).drop_last() =~= below);
    let f = "brfalse "@ + l@;
    let t = "brtrue "@ + l@;
    let j = "br "@ + l@;
    assert(f.subrange(0, 8) =~= "brfalse "@);
    assert(f.subrange(8, f.len() as int) =~= l@);
    assert(t.subrange(0, 7) =~= "brtrue "@);
    assert(t.subrange(7, t.len() as int) =~= l@);
    assert(j.subrange(0, 3) =~= "br "@);
    assert(j.subrange(3, j.len() as int) =~= l@);
    if t.len() >= 8 {
        assert(t.subrange(0, 8)[2] == 't');
    }
    if j.len() >= 8 {
        assert(j.subrange(0, 8)[2] == ' ');
    }
    if j.len() >= 7 {
        assert(j.subrange(0, 7)[2] == ' ');
    }
}

/// In CIL text and in the CLR program model, `Pop` drops the value on top
/// of the stack, `Dup` pushes a second copy of it, and pushing an `I32`
/// constant pushes its value.
pub proof fn law_il_stack_ops(
    ft: Map<(Seq<char>, Seq<char>), Seq<char>>,
    tb: MappingTable,
    below: Seq<int>,
    a: int,
    v: i32,
)
    ensures
        msil_instr(GaiaInstruction::Core(CoreInstruction::Pop), ft, tb) matches Some(ls) && il_run(ls, below.push(a))
            == Some(below),
        msil_instr(GaiaInstruction::Core(CoreInstruction::Dup), ft, tb) matches Some(ls) && il_run(ls, below.push(a))
            == Some(below.push(a).push(a)),
        clr_instr(GaiaInstruction::Core(CoreInstruction::Pop), ft, tb) matches Some(cs) && clr_run(cs, below.push(a))
            == Some(below),
        clr_instr(GaiaInstruction::Core(CoreInstruction::Dup), ft, tb) matches Some(cs) && clr_run(cs, below.push(a))
            == Some(below.push(a).push(a)),
        clr_instr(GaiaInstruction::Core(CoreInstruction::PushConstant(GaiaConstant::I32(v))), ft, tb) matches Some(cs)
            && clr_run(cs, below) == Some(below.push(v as int)),
{
    reveal_lines();
    reveal_with_fuel(il_run, 2);
    reveal_with_fuel(clr_run, 2);
    assert(below.push(a).drop_last() =~= below);
    assert(seq!["pop"@].drop_first() =~= Seq::<Seq<char>>::empty());
    assert(seq!["dup"@].drop_first() =~= Seq::<Seq<char>>::empty());
    let one = seq![ClrInstrView::Simple { opcode: ClrOpcode::Pop }];
    assert(one.drop_first() =~= Seq::<ClrInstrView>::empty());
    let two = seq![ClrInstrView::Simple { opcode: ClrOpcode::Dup }];
    assert(two.drop_first() =~= Seq::<ClrInstrView>::empty());
    let three = seq![ClrInstrView::WithImmediate { opcode: ClrOpcode::LdcI4, value: v }];
    assert(three.drop_first() =~= Seq::<ClrInstrView>::empty());
}

} // verus!
