//! What the operators mean: the values that the IR's binary operators, Zyl's
//! built-in operators, LLVM's arithmetic instructions and x86's `setCC`
//! instructions compute, and the laws that tie the lowering and both code
//! generators to those meanings.

use vstd::prelude::*;
use crate::codegen::{instr_lines, llvm_instr, opnd, ssa_text};
use crate::ast::Expr;
use crate::ir::{BinOp, FunctionV, InstrV, SsaValue, UnaryOp};
use crate::lowering::{builtin_binop, is_builtin, lower, lower_args};
use crate::straight_line::{all_straight, lemma_straight_args};

verus! {

// ============================================================================
// MEANINGS
// ============================================================================

/// The magnitude of an integer.
pub open spec fn magnitude(a: int) -> int {
    if a < 0 {
        -a
    } else {
        a
    }
}

/// Integer division rounding toward zero.
pub open spec fn trunc_div(a: int, b: int) -> int {
    let q = magnitude(a) / magnitude(b);
    if (a < 0) != (b < 0) {
        -q
    } else {
        q
    }
}

/// A truth value as the integer the machine holds: 1 or 0.
pub open spec fn flag(b: bool) -> int {
    if b {
        1
    } else {
        0
    }
}

/// The value an arithmetic operator of the IR computes (`None` for a
/// division by zero or an operator that is not arithmetic).
pub open spec fn arith_value(op: BinOp, a: int, b: int) -> Option<int> {
    match op {
        BinOp::Add => Some(a + b),
        BinOp::Sub => Some(a - b),
        BinOp::Mul => Some(a * b),
        BinOp::Div => if b == 0 {
            None
        } else {
            Some(trunc_div(a, b))
        },
        _ => None,
    }
}

/// Whether a comparison operator of the IR holds of `a` and `b` (`None` for
/// an operator that is not one of the four comparisons).
pub open spec fn comparison_holds(op: BinOp, a: int, b: int) -> Option<bool> {
    match op {
        BinOp::Eq => Some(a == b),
        BinOp::Ne => Some(a != b),
        BinOp::Lt => Some(a < b),
        BinOp::Gt => Some(a > b),
        _ => None,
    }
}

/// The value a binary operator of the IR computes: arithmetic, or 1 or 0 for
/// a comparison.
pub open spec fn binop_value(op: BinOp, a: int, b: int) -> Option<int> {
    match comparison_holds(op, a, b) {
        Some(t) => Some(flag(t)),
        None => arith_value(op, a, b),
    }
}

/// The value that a built-in operator of Zyl computes on two integers.
pub open spec fn zyl_operator_value(op: Seq<char>, a: int, b: int) -> Option<int> {
    if op == "+"@ {
        Some(a + b)
    } else if op == "-"@ {
        Some(a - b)
    } else if op == "*"@ {
        Some(a * b)
    } else if op == "/"@ {
        if b == 0 {
            None
        } else {
            Some(trunc_div(a, b))
        }
    } else if op == "=="@ {
        Some(flag(a == b))
    } else if op == "!="@ {
        Some(flag(a != b))
    } else if op == "<"@ {
        Some(flag(a < b))
    } else if op == ">"@ {
        Some(flag(a > b))
    } else {
        None
    }
}

/// Whether `op` is one of the built-in operators of Zyl with an instruction
/// of its own: arithmetic and the four comparisons.
pub open spec fn has_own_instruction(op: Seq<char>) -> bool {
    ||| op == "+"@
    ||| op == "-"@
    ||| op == "*"@
    ||| op == "/"@
    ||| op == "=="@
    ||| op == "!="@
    ||| op == "<"@
    ||| op == ">"@
}

/// The value an LLVM integer instruction computes (`None` for a division by
/// zero or another mnemonic).
pub open spec fn llvm_value(mnemonic: Seq<char>, a: int, b: int) -> Option<int> {
    if mnemonic == "add"@ {
        Some(a + b)
    } else if mnemonic == "sub"@ {
        Some(a - b)
    } else if mnemonic == "mul"@ {
        Some(a * b)
    } else if mnemonic == "sdiv"@ {
        if b == 0 {
            None
        } else {
            Some(trunc_div(a, b))
        }
    } else {
        None
    }
}

/// What an x86 `setCC %al` line sets after `cmpq src, dst`: whether its
/// condition holds of `dst` and `src` as signed integers (`None` for another
/// line).
pub open spec fn setcc_after_cmp(line: Seq<char>, dst: int, src: int) -> Option<bool> {
    if line == "\tsete %al"@ {
        Some(dst == src)
    } else if line == "\tsetne %al"@ {
        Some(dst != src)
    } else if line == "\tsetl %al"@ {
        Some(dst < src)
    } else if line == "\tsetg %al"@ {
        Some(dst > src)
    } else if line == "\tsetle %al"@ {
        Some(dst <= src)
    } else if line == "\tsetge %al"@ {
        Some(dst >= src)
    } else {
        None
    }
}

/// An x86 instruction line in AT&T syntax with a source and a destination.
pub open spec fn att_line(mnemonic: Seq<char>, src: Seq<char>, dst: Seq<char>) -> Seq<char> {
    "\t"@ + mnemonic + " "@ + src + ", "@ + dst
}

/// The value an x86 two-operand arithmetic instruction leaves in its
/// destination, from the destination's value `dst` and the source's `src`
/// (`None` for another mnemonic).
pub open spec fn att_arith_value(mnemonic: Seq<char>, dst: int, src: int) -> Option<int> {
    if mnemonic == "addq"@ {
        Some(dst + src)
    } else if mnemonic == "subq"@ {
        Some(dst - src)
    } else if mnemonic == "imulq"@ {
        Some(dst * src)
    } else {
        None
    }
}

/// The value a unary operator of the IR computes (`not` on the truth
/// values 0 and 1).
pub open spec fn unary_value(op: UnaryOp, v: int) -> Option<int> {
    match op {
        UnaryOp::Neg => Some(-v),
        UnaryOp::Not => if v == 0 {
            Some(1)
        } else if v == 1 {
            Some(0)
        } else {
            None
        },
    }
}

/// The value an x86 one-operand update line leaves in operand `x` from its
/// value `v`: `negq x` negates it, `xorq $1, x` flips the truth values 0
/// and 1 (`None` for another line).
pub open spec fn att_update_value(line: Seq<char>, x: Seq<char>, v: int) -> Option<int> {
    if line == "\tnegq "@ + x {
        Some(-v)
    } else if line == att_line("xorq"@, "$1"@, x) {
        if v == 0 {
            Some(1)
        } else if v == 1 {
            Some(0)
        } else {
            None
        }
    } else {
        None
    }
}

// ============================================================================
// LAWS
// ============================================================================

/// A unary operation compiles to x86 that updates its operand in place with
/// the operator's value and copies the result to the destination.
pub proof fn law_unary_assembly(op: UnaryOp, operand: SsaValue, dest: SsaValue, v: int)
    ensures
        instr_lines((InstrV::UnaryOp { op, operand, dest })).1 is None,
        instr_lines((InstrV::UnaryOp { op, operand, dest })).0.len() == 2,
        att_update_value(instr_lines((InstrV::UnaryOp { op, operand, dest })).0[0], opnd(operand), v) == unary_value(op, v),
        instr_lines((InstrV::UnaryOp { op, operand, dest })).0[1] == att_line("movq"@, opnd(operand), opnd(dest)),
{
    let x = opnd(operand);
    reveal_strlit("\tnegq ");
    reveal_strlit("\txorq $1, ");
    reveal_strlit("\tmovq ");
    reveal_strlit("\t");
    reveal_strlit(" ");
    reveal_strlit(", ");
    reveal_strlit("xorq");
    reveal_strlit("movq");
    reveal_strlit("$1");
    assert("\txorq $1, "@ =~= "\t"@ + "xorq"@ + " "@ + "$1"@ + ", "@);
    assert("\tmovq "@ =~= "\t"@ + "movq"@ + " "@);
    assert(("\tnegq "@ + x)[1] != att_line("xorq"@, "$1"@, x)[1]);
    assert(att_line("xorq"@, "$1"@, x) =~= "\txorq $1, "@ + x);
}

proof fn lemma_att_mnemonics_distinct()
    ensures
        "addq"@ != "subq"@,
        "addq"@ != "imulq"@,
        "subq"@ != "imulq"@,
{
    reveal_strlit("addq");
    reveal_strlit("subq");
    reveal_strlit("imulq");
    assert(("addq"@)[0] != ("subq"@)[0]);
    assert(("addq"@).len() != ("imulq"@).len());
    assert(("subq"@).len() != ("imulq"@).len());
}

proof fn lemma_att_line(mnemonic: Seq<char>, src: Seq<char>, dst: Seq<char>)
    ensures
        ("\t"@ + mnemonic + " "@) + src + ", "@ + dst == att_line(mnemonic, src, dst),
{
}

/// Addition, subtraction and multiplication compile to x86 whose arithmetic
/// instruction computes the operator's value from the left operand (its
/// destination) and the right operand (its source), and whose result reaches
/// the destination.
pub proof fn law_arithmetic_assembly(op: BinOp, left: SsaValue, right: SsaValue, dest: SsaValue)
    requires
        op is Add || op is Sub || op is Mul,
    ensures
        instr_lines((InstrV::BinOp { op, left, right, dest })).1 is None,
        exists|m: Seq<char>|
            #![trigger att_arith_value(m, 0, 1)]
            (forall|a: int, b: int| #[trigger] att_arith_value(m, a, b) == arith_value(op, a, b)) && instr_lines(
                (InstrV::BinOp { op, left, right, dest }),
            ).0 == match op {
                BinOp::Add => seq![att_line(m, opnd(right), opnd(left)), att_line("movq"@, opnd(left), opnd(dest))],
                BinOp::Sub => seq![att_line("movq"@, opnd(left), opnd(dest)), att_line(m, opnd(right), opnd(dest))],
                _ => seq![
                    att_line("movq"@, opnd(left), "%rax"@),
                    att_line(m, opnd(right), "%rax"@),
                    att_line("movq"@, "%rax"@, opnd(dest)),
                ],
            },
{
    lemma_att_mnemonics_distinct();
    reveal_strlit("\taddq ");
    reveal_strlit("\tsubq ");
    reveal_strlit("\timulq ");
    reveal_strlit("\tmovq ");
    reveal_strlit("\t");
    reveal_strlit(" ");
    reveal_strlit("addq");
    reveal_strlit("subq");
    reveal_strlit("imulq");
    reveal_strlit("movq");
    assert("\taddq "@ =~= "\t"@ + "addq"@ + " "@);
    assert("\tsubq "@ =~= "\t"@ + "subq"@ + " "@);
    assert("\timulq "@ =~= "\t"@ + "imulq"@ + " "@);
    assert("\tmovq "@ =~= "\t"@ + "movq"@ + " "@);
    let m = match op {
        BinOp::Add => "addq"@,
        BinOp::Sub => "subq"@,
        _ => "imulq"@,
    };
    assert forall|a: int, b: int| #[trigger] att_arith_value(m, a, b) == arith_value(op, a, b) by {}
    assert(att_arith_value(m, 0, 1) == arith_value(op, 0, 1));
    let l = opnd(left);
    let r = opnd(right);
    let d = opnd(dest);
    let rax = "%rax"@;
    lemma_att_line(m, r, l);
    lemma_att_line(m, r, d);
    lemma_att_line(m, r, rax);
    lemma_att_line("movq"@, l, d);
    lemma_att_line("movq"@, l, rax);
    lemma_att_line("movq"@, rax, d);
    assert(instr_lines((InstrV::BinOp { op, left, right, dest })).0 =~= match op {
        BinOp::Add => seq![att_line(m, r, l), att_line("movq"@, l, d)],
        BinOp::Sub => seq![att_line("movq"@, l, d), att_line(m, r, d)],
        _ => seq![att_line("movq"@, l, rax), att_line(m, r, rax), att_line("movq"@, rax, d)],
    });
}

proof fn lemma_setcc_lines_distinct()
    ensures
        "\tsete %al"@ != "\tsetne %al"@,
        "\tsete %al"@ != "\tsetl %al"@,
        "\tsete %al"@ != "\tsetg %al"@,
        "\tsetne %al"@ != "\tsetl %al"@,
        "\tsetne %al"@ != "\tsetg %al"@,
        "\tsetl %al"@ != "\tsetg %al"@,
        "\tsetl %al"@ != "\tsetle %al"@,
        "\tsetl %al"@ != "\tsetge %al"@,
        "\tsetg %al"@ != "\tsetle %al"@,
        "\tsetg %al"@ != "\tsetge %al"@,
        "\tsete %al"@ != "\tsetle %al"@,
        "\tsete %al"@ != "\tsetge %al"@,
        "\tsetne %al"@ != "\tsetle %al"@,
        "\tsetne %al"@ != "\tsetge %al"@,
{
    reveal_strlit("\tsete %al");
    reveal_strlit("\tsetne %al");
    reveal_strlit("\tsetl %al");
    reveal_strlit("\tsetg %al");
    reveal_strlit("\tsetle %al");
    reveal_strlit("\tsetge %al");
    assert(("\tsete %al"@)[4] != ("\tsetne %al"@)[4]);
    assert(("\tsete %al"@)[4] != ("\tsetl %al"@)[4]);
    assert(("\tsete %al"@)[4] != ("\tsetg %al"@)[4]);
    assert(("\tsetne %al"@)[4] != ("\tsetl %al"@)[4]);
    assert(("\tsetne %al"@)[4] != ("\tsetg %al"@)[4]);
    assert(("\tsetl %al"@)[4] != ("\tsetg %al"@)[4]);
    assert(("\tsetl %al"@).len() != ("\tsetle %al"@).len());
    assert(("\tsetl %al"@)[4] != ("\tsetge %al"@)[4]);
    assert(("\tsetg %al"@)[4] != ("\tsetle %al"@)[4]);
    assert(("\tsetg %al"@).len() != ("\tsetge %al"@).len());
    assert(("\tsete %al"@)[4] != ("\tsetle %al"@)[4]);
    assert(("\tsete %al"@)[4] != ("\tsetge %al"@)[4]);
    assert(("\tsetne %al"@)[4] != ("\tsetle %al"@)[4]);
    assert(("\tsetne %al"@)[4] != ("\tsetge %al"@)[4]);
}

proof fn lemma_llvm_mnemonics_distinct()
    ensures
        "add"@ != "sub"@,
        "add"@ != "mul"@,
        "add"@ != "sdiv"@,
        "sub"@ != "mul"@,
        "sub"@ != "sdiv"@,
        "mul"@ != "sdiv"@,
{
    reveal_strlit("add");
    reveal_strlit("sub");
    reveal_strlit("mul");
    reveal_strlit("sdiv");
    assert(("add"@)[0] != ("sub"@)[0]);
    assert(("add"@)[0] != ("mul"@)[0]);
    assert(("add"@).len() != ("sdiv"@).len());
    assert(("sub"@)[0] != ("mul"@)[0]);
    assert(("sub"@).len() != ("sdiv"@).len());
    assert(("mul"@).len() != ("sdiv"@).len());
}

/// A comparison compiles to x86 that loads the left operand into `%rax`,
/// compares the right operand with it, and sets `%al` exactly when the
/// comparison holds of the left and right operands, then widens `%al` into
/// the destination: the destination holds 1 exactly when the comparison holds.
pub proof fn law_comparison_assembly(op: BinOp, left: SsaValue, right: SsaValue, dest: SsaValue, a: int, b: int)
    requires
        comparison_holds(op, a, b) is Some,
    ensures
        instr_lines((InstrV::BinOp { op, left, right, dest })).1 is None,
        instr_lines((InstrV::BinOp { op, left, right, dest })).0.len() == 4,
        instr_lines((InstrV::BinOp { op, left, right, dest })).0[0] == "\tmovq "@ + opnd(left) + ", %rax"@,
        instr_lines((InstrV::BinOp { op, left, right, dest })).0[1] == "\tcmpq "@ + opnd(right) + ", %rax"@,
        setcc_after_cmp(instr_lines((InstrV::BinOp { op, left, right, dest })).0[2], a, b) == comparison_holds(op, a, b),
        instr_lines((InstrV::BinOp { op, left, right, dest })).0[3] == "\tmovzbq %al, "@ + opnd(dest),
{
    lemma_setcc_lines_distinct();
    assert("\tmovq "@ + opnd(left) + ", "@ + "%rax"@ =~= "\tmovq "@ + opnd(left) + ", %rax"@) by {
        reveal_strlit(", ");
        reveal_strlit("%rax");
        reveal_strlit(", %rax");
    }
    assert("\tcmpq "@ + opnd(right) + ", "@ + "%rax"@ =~= "\tcmpq "@ + opnd(right) + ", %rax"@) by {
        reveal_strlit(", ");
        reveal_strlit("%rax");
        reveal_strlit(", %rax");
    }
}

/// An arithmetic instruction prints in LLVM as `%d = m i64 %l, %r` with a
/// mnemonic `m` that computes what the operator computes.
pub proof fn law_llvm_arithmetic(op: BinOp, left: SsaValue, right: SsaValue, dest: SsaValue)
    requires
        op is Add || op is Sub || op is Mul || op is Div,
    ensures
        exists|m: Seq<char>|
            #![trigger llvm_value(m, 0, 1)]
            llvm_instr((InstrV::BinOp { op, left, right, dest })) == ssa_text(dest.id) + " = "@ + m + " i64 "@
                + ssa_text(left.id) + ", "@ + ssa_text(right.id) && forall|a: int, b: int|
                #[trigger] llvm_value(m, a, b) == arith_value(op, a, b),
{
    let m = crate::codegen::llvm_binop(op);
    lemma_llvm_mnemonics_distinct();
    assert forall|a: int, b: int| #[trigger] llvm_value(m, a, b) == arith_value(op, a, b) by {}
    assert(llvm_value(m, 0, 1) == arith_value(op, 0, 1));
}

/// Each built-in operator of Zyl with an instruction of its own lowers to an
/// IR operator that computes the same value on every pair of integers.
pub proof fn law_builtin_meaning(op: Seq<char>, a: int, b: int)
    requires
        has_own_instruction(op),
    ensures
        binop_value(builtin_binop(op), a, b) == zyl_operator_value(op, a, b),
{
    reveal_strlit("+");
    reveal_strlit("-");
    reveal_strlit("*");
    reveal_strlit("/");
    reveal_strlit("==");
    reveal_strlit("!=");
    reveal_strlit("<");
    reveal_strlit(">");
}


/// Lowering an application of a built-in operator with an instruction of its
/// own to two straight-line operands ends in one binary instruction whose
/// operator computes, on every pair of integers, what the Zyl operator does.
pub proof fn law_lowered_operator_meaning(f: FunctionV, c: nat, op: String, args: Vec<Expr>, a: int, b: int)
    requires
        has_own_instruction(op@),
        args@.len() == 2,
        all_straight(args@),
        f.blocks.len() > 0,
    ensures
        lower(f, c, Expr::App(op, args)) matches Some((g, c2)) && g.blocks.last().instructions.last() matches InstrV::BinOp {
            op: o,
            ..
        } && binop_value(o, a, b) == zyl_operator_value(op@, a, b),
{
    law_builtin_meaning(op@, a, b);
    assert(is_builtin(op@));
    lemma_straight_args(f, c, args@, 2);
    let (f1, c1, vals) = lower_args(f, c, args@, 2)->Some_0;
    let g = f1.push_instr(InstrV::BinOp {
        op: builtin_binop(op@),
        left: vals[0],
        right: vals[1],
        dest: crate::lowering::next_value(f1),
    });
    assert(lower(f, c, Expr::App(op, args)) == Some((g, c1)));
    assert(g.blocks.last().instructions.last() == InstrV::BinOp {
        op: builtin_binop(op@),
        left: vals[0],
        right: vals[1],
        dest: crate::lowering::next_value(f1),
    });
}

} // verus!
