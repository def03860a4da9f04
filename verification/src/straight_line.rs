//! Laws of lowering straight-line code (atoms, applications, `let`, `begin`
//! and foreign calls): it only appends to the block being filled, each value
//! it defines is numbered by its place in the block, and each operand is a
//! value defined earlier by the same lowering.

use vstd::prelude::*;
use crate::ast::Expr;
use crate::ir::{FunctionV, InstrV, Region, SsaValue};
use crate::lowering::{atom_instr, is_builtin, last_value, lower, lower_all, lower_args, lower_value, next_value, stack_val};

verus! {

// ============================================================================
// SPECIFICATION
// ============================================================================

/// Whether an expression is straight-line code: atoms, applications (of a
/// built-in operator to exactly two operands), `let`, non-empty `begin` and
/// foreign calls, all of straight-line code.
pub open spec fn straight(e: Expr) -> bool
    decreases e, 0nat,
{
    match e {
        Expr::Atom(_) => true,
        Expr::App(op, args) => (is_builtin(op@) ==> args@.len() == 2) && all_straight(args@),
        Expr::Let { value, body, .. } => straight(*value) && straight(*body),
        Expr::Begin(es) => es@.len() > 0 && all_straight(es@),
        Expr::FfiCall { args, .. } => all_straight(args@),
        _ => false,
    }
}

/// Whether every expression of a list is straight-line code.
pub open spec fn all_straight(es: Seq<Expr>) -> bool
    decreases es, 0nat,
{
    forall|i: int| 0 <= i < es.len() ==> straight(#[trigger] es[i])
}

/// The value an instruction defines, if it defines one.
pub open spec fn dest_of(i: InstrV) -> Option<SsaValue> {
    match i {
        InstrV::Const { dest, .. } => Some(dest),
        InstrV::BinOp { dest, .. } => Some(dest),
        InstrV::UnaryOp { dest, .. } => Some(dest),
        InstrV::Call { dest, .. } => Some(dest),
        InstrV::CallIndirect { dest, .. } => Some(dest),
        InstrV::ClosureCreate { dest, .. } => Some(dest),
        InstrV::Load { dest, .. } => Some(dest),
        InstrV::Phi { dest, .. } => Some(dest),
        InstrV::Alloc { dest, .. } => Some(dest),
        InstrV::Cast { dest, .. } => Some(dest),
        InstrV::Spawn { dest, .. } => Some(dest),
        InstrV::FfiCall { dest, .. } => Some(dest),
        _ => None,
    }
}

/// The values an instruction reads.
pub open spec fn reads(i: InstrV) -> Seq<SsaValue> {
    match i {
        InstrV::BinOp { left, right, .. } => seq![left, right],
        InstrV::UnaryOp { operand, .. } => seq![operand],
        InstrV::Call { args, .. } => args,
        InstrV::CallIndirect { func, args, .. } => seq![func] + args,
        InstrV::ClosureCreate { env_values, .. } => env_values,
        InstrV::Store { value, .. } => seq![value],
        InstrV::Branch { cond, .. } => seq![cond],
        InstrV::CondBranch { cond, .. } => seq![cond],
        InstrV::Return { value } => match value {
            Some(v) => seq![v],
            None => seq![],
        },
        InstrV::Phi { inputs, .. } => inputs.map_values(|p: (crate::ir::BlockId, SsaValue)| p.1),
        InstrV::Cast { value, .. } => seq![value],
        InstrV::Spawn { body, .. } => seq![body],
        InstrV::Send { target, message } => seq![target, message],
        InstrV::FfiCall { args, .. } => args,
        InstrV::Assert { condition, .. } => seq![condition],
        _ => seq![],
    }
}

/// Whether value `v` is defined by an instruction at an index in `[lo, hi)`.
pub open spec fn defined_in(instrs: Seq<InstrV>, v: SsaValue, lo: int, hi: int) -> bool {
    exists|j: int| lo <= j < hi && #[trigger] dest_of(instrs[j]) == Some(v)
}

/// Whether the instruction at index `i` is in SSA order: the value it defines
/// is the stack value numbered `i`, and each value it reads is defined at an
/// index in `[lo, i)`.
pub open spec fn in_order(instrs: Seq<InstrV>, lo: int, i: int) -> bool {
    &&& (dest_of(instrs[i]) matches Some(d) ==> d == stack_val(i))
    &&& forall|k: int| 0 <= k < reads(instrs[i]).len() ==> defined_in(instrs, #[trigger] reads(instrs[i])[k], lo, i)
}

/// Whether `f1` is `f` with instructions appended to its last block, each in
/// SSA order with operands defined at indices from `lo` on.
pub open spec fn appends(f: FunctionV, f1: FunctionV, lo: int) -> bool {
    &&& f.blocks.len() > 0
    &&& f1.blocks.len() == f.blocks.len()
    &&& f1.name == f.name
    &&& f1.params == f.params
    &&& f1.ret_type == f.ret_type
    &&& f1.entry_block == f.entry_block
    &&& f1.extra_functions == f.extra_functions
    &&& forall|j: int| 0 <= j < f.blocks.len() - 1 ==> #[trigger] f1.blocks[j] == f.blocks[j]
    &&& f1.blocks.last().id == f.blocks.last().id
    &&& f.last_len() <= f1.last_len()
    &&& f1.blocks.last().instructions.take(f.last_len() as int) == f.blocks.last().instructions
    &&& forall|i: int| f.last_len() <= i < f1.last_len() ==> #[trigger] in_order(f1.blocks.last().instructions, lo, i)
}

/// Whether `f1` is `f` with at least one instruction appended to its last
/// block, in SSA order with operands defined by those appended instructions,
/// the last of them defining a value.
pub open spec fn lowers_straight(f: FunctionV, f1: FunctionV) -> bool {
    &&& appends(f, f1, f.last_len() as int)
    &&& f1.last_len() > f.last_len()
    &&& dest_of(f1.blocks.last().instructions.last()) == Some(stack_val(f1.last_len() - 1))
}

/// Whether the instructions at indices `[lo, hi)` are numbered by their
/// place: each that defines a value at index `i` defines the stack value
/// numbered `i`, and each value it reads is the stack value numbered `j` for
/// an index `j` in `[lo, i)`.
pub open spec fn ssa_numbered(instrs: Seq<InstrV>, lo: int, hi: int) -> bool {
    forall|i: int|
        lo <= i < hi ==> {
            &&& (dest_of(#[trigger] instrs[i]) matches Some(d) ==> d == stack_val(i))
            &&& forall|k: int|
                0 <= k < reads(instrs[i]).len() ==> exists|j: int| lo <= j < i && #[trigger] reads(instrs[i])[k] == stack_val(j)
        }
}

/// Whether `f1` is `f` after lowering straight-line code: only the block
/// being filled changed, by instructions appended to it, at least one, and
/// these are numbered by their place.
pub open spec fn numbered_lowering(f: FunctionV, f1: FunctionV) -> bool {
    &&& f1.blocks.len() == f.blocks.len()
    &&& forall|j: int| 0 <= j < f.blocks.len() - 1 ==> #[trigger] f1.blocks[j] == f.blocks[j]
    &&& f1.blocks.last().id == f.blocks.last().id
    &&& f1.last_len() > f.last_len()
    &&& f1.blocks.last().instructions.take(f.last_len() as int) == f.blocks.last().instructions
    &&& ssa_numbered(f1.blocks.last().instructions, f.last_len() as int, f1.last_len() as int)
}

// ============================================================================
// LEMMAS
// ============================================================================

proof fn lemma_numbered(f: FunctionV, f1: FunctionV)
    requires
        lowers_straight(f, f1),
    ensures
        numbered_lowering(f, f1),
{
    let x = f1.blocks.last().instructions;
    let lo = f.last_len() as int;
    assert forall|i: int| lo <= i < f1.last_len() implies {
        &&& (dest_of(#[trigger] x[i]) matches Some(d) ==> d == stack_val(i))
        &&& forall|k: int| 0 <= k < reads(x[i]).len() ==> exists|j: int| lo <= j < i && #[trigger] reads(x[i])[k] == stack_val(j)
    } by {
        assert(in_order(x, lo, i));
        assert forall|k: int| 0 <= k < reads(x[i]).len() implies exists|j: int| lo <= j < i && #[trigger] reads(x[i])[k] == stack_val(j) by {
            assert(defined_in(x, reads(x[i])[k], lo, i));
            let j = choose|j: int| lo <= j < i && #[trigger] dest_of(x[j]) == Some(reads(x[i])[k]);
            assert(in_order(x, lo, j));
        }
    }
}

proof fn lemma_appends_refl(f: FunctionV, lo: int)
    requires
        f.blocks.len() > 0,
    ensures
        appends(f, f, lo),
{
    assert(f.blocks.last().instructions.take(f.last_len() as int) =~= f.blocks.last().instructions);
}

proof fn lemma_appends_trans(f: FunctionV, f1: FunctionV, f2: FunctionV, lo: int)
    requires
        appends(f, f1, lo),
        appends(f1, f2, lo),
        0 <= lo,
    ensures
        appends(f, f2, lo),
{
    let a = f.blocks.last().instructions;
    let b = f1.blocks.last().instructions;
    let c = f2.blocks.last().instructions;
    assert forall|j: int| 0 <= j < b.len() implies c[j] == #[trigger] b[j] by {
        assert(c.take(b.len() as int)[j] == c[j]);
    }
    assert(c.take(a.len() as int) =~= a) by {
        assert forall|j: int| 0 <= j < a.len() implies c.take(a.len() as int)[j] == a[j] by {
            assert(b.take(a.len() as int)[j] == b[j]);
        }
    }
    assert forall|i: int| f.last_len() <= i < f2.last_len() implies #[trigger] in_order(c, lo, i) by {
        if i >= f1.last_len() {
            assert(in_order(c, lo, i));
        } else {
            assert(in_order(b, lo, i));
            assert(c[i] == b[i]);
            assert forall|k: int| 0 <= k < reads(c[i]).len() implies defined_in(c, #[trigger] reads(c[i])[k], lo, i) by {
                assert(defined_in(b, reads(b[i])[k], lo, i));
                let j = choose|j: int| lo <= j < i && #[trigger] dest_of(b[j]) == Some(reads(b[i])[k]);
                assert(c[j] == b[j]);
                assert(dest_of(c[j]) == Some(reads(c[i])[k]));
            }
        }
    }
}

proof fn lemma_appends_weaken(f: FunctionV, f1: FunctionV, lo: int, lo2: int)
    requires
        appends(f, f1, lo),
        lo2 <= lo,
    ensures
        appends(f, f1, lo2),
{
    let b = f1.blocks.last().instructions;
    assert forall|i: int| f.last_len() <= i < f1.last_len() implies #[trigger] in_order(b, lo2, i) by {
        assert(in_order(b, lo, i));
        assert forall|k: int| 0 <= k < reads(b[i]).len() implies defined_in(b, #[trigger] reads(b[i])[k], lo2, i) by {
            assert(defined_in(b, reads(b[i])[k], lo, i));
            let j = choose|j: int| lo <= j < i && #[trigger] dest_of(b[j]) == Some(reads(b[i])[k]);
        }
    }
}

/// Pushing an instruction in SSA order appends it.
proof fn lemma_appends_push(f: FunctionV, ins: InstrV, lo: int)
    requires
        f.blocks.len() > 0,
        in_order(f.push_instr(ins).blocks.last().instructions, lo, f.last_len() as int),
    ensures
        appends(f, f.push_instr(ins), lo),
        f.push_instr(ins).last_len() == f.last_len() + 1,
        f.push_instr(ins).blocks.last().instructions.last() == ins,
{
    let g = f.push_instr(ins);
    assert(g.blocks.last().instructions.take(f.last_len() as int) =~= f.blocks.last().instructions);
}

/// Values defined in `f1`'s appended part stay defined there in `f2`.
proof fn lemma_defined_kept(f1: FunctionV, f2: FunctionV, lo: int, v: SsaValue, a: int, b: int)
    requires
        appends(f1, f2, lo),
        defined_in(f1.blocks.last().instructions, v, a, b),
        0 <= a,
        b <= f1.last_len(),
    ensures
        defined_in(f2.blocks.last().instructions, v, a, b),
{
    let x = f1.blocks.last().instructions;
    let y = f2.blocks.last().instructions;
    let j = choose|j: int| a <= j < b && #[trigger] dest_of(x[j]) == Some(v);
    assert(y.take(x.len() as int)[j] == y[j]);
    assert(dest_of(y[j]) == Some(v));
}

/// Lowering straight-line code always completes and appends instructions to
/// the block being filled, leaving every other block and the instructions
/// already there as they were; each appended instruction that defines a value
/// at index `i` of the block defines the stack value numbered `i`, each value
/// it reads is defined by an instruction appended before it, and the last
/// appended instruction defines a value. No lambda is numbered.
pub proof fn law_straight_line_ssa_order(f: FunctionV, c: nat, e: Expr)
    requires
        straight(e),
        f.blocks.len() > 0,
    ensures
        lower(f, c, e) matches Some((f1, c1)) && c1 == c && lowers_straight(f, f1) && numbered_lowering(f, f1),
    decreases e, 0nat,
{
    lemma_straight(f, c, e);
    let (f1, c1) = lower(f, c, e)->Some_0;
    lemma_numbered(f, f1);
}

proof fn lemma_straight(f: FunctionV, c: nat, e: Expr)
    requires
        straight(e),
        f.blocks.len() > 0,
    ensures
        lower(f, c, e) matches Some((f1, c1)) && c1 == c && lowers_straight(f, f1),
    decreases e, 0nat,
{
    let n = f.last_len() as int;
    match e {
        Expr::Atom(k) => {
            let ins = atom_instr(k, next_value(f));
            assert(dest_of(ins) == Some(next_value(f)));
            lemma_appends_push(f, ins, n);
        },
        Expr::App(op, args) => {
            lemma_straight_args(f, c, args@, args@.len());
            let (f1, c1, vals) = lower_args(f, c, args@, args@.len())->Some_0;
            let ins = if is_builtin(op@) {
                InstrV::BinOp { op: crate::lowering::builtin_binop(op@), left: vals[0], right: vals[1], dest: next_value(f1) }
            } else {
                InstrV::Call { func: crate::ir::IrValueV::FuncRef(op@), args: vals, dest: next_value(f1) }
            };
            if is_builtin(op@) {
                assert(seq![vals[0], vals[1]] =~= vals);
            }
            lemma_push_operands(f, f1, ins, vals);
            lemma_appends_trans(f, f1, f1.push_instr(ins), n);
            assert(lower(f, c, e) == Some((f1.push_instr(ins), c)));
        },
        Expr::FfiCall { name, args, timeout_ms } => {
            lemma_straight_args(f, c, args@, args@.len());
            let (f1, c1, vals) = lower_args(f, c, args@, args@.len())->Some_0;
            let ins = InstrV::FfiCall { name: name@, args: vals, timeout_ms, dest: next_value(f1) };
            lemma_push_operands(f, f1, ins, vals);
            lemma_appends_trans(f, f1, f1.push_instr(ins), n);
            assert(lower(f, c, e) == Some((f1.push_instr(ins), c)));
        },
        Expr::Let { name, value, body } => {
            lemma_straight(f, c, *value);
            let (f1, c1) = lower(f, c, *value)->Some_0;
            let v = last_value(f1)->Some_0;
            assert(lower_value(f, c, *value) == Some((f1, c1, v)));
            let ins = InstrV::Store { name: name@, value: v, region: Region::Stack };
            let b1 = f1.blocks.last().instructions;
            assert(dest_of(b1[b1.len() - 1]) == Some(v));
            assert(defined_in(b1, v, n, f1.last_len() as int));
            lemma_push_operands(f, f1, ins, seq![v]);
            let f2 = f1.push_instr(ins);
            lemma_appends_trans(f, f1, f2, n);
            lemma_straight(f2, c, *body);
            let (f3, c3) = lower(f2, c, *body)->Some_0;
            lemma_appends_weaken(f2, f3, f2.last_len() as int, n);
            lemma_appends_trans(f, f2, f3, n);
            assert(lower(f, c, e) == Some((f3, c)));
        },
        Expr::Begin(es) => {
            lemma_straight_all(f, c, es@, es@.len());
            assert(lower(f, c, e) == lower_all(f, c, es@, es@.len()));
        },
        _ => {},
    }
}

/// Pushing an instruction that defines the next value and reads values
/// defined by what `f1` appended to `f` keeps the appending in SSA order.
proof fn lemma_push_operands(f: FunctionV, f1: FunctionV, ins: InstrV, vals: Seq<SsaValue>)
    requires
        appends(f, f1, f.last_len() as int),
        reads(ins) == vals,
        dest_of(ins) matches Some(d) ==> d == next_value(f1),
        forall|j: int| 0 <= j < vals.len() ==> defined_in(f1.blocks.last().instructions, #[trigger] vals[j], f.last_len() as int, f1.last_len() as int),
    ensures
        appends(f1, f1.push_instr(ins), f.last_len() as int),
        f1.push_instr(ins).last_len() == f1.last_len() + 1,
        f1.push_instr(ins).blocks.last().instructions.last() == ins,
{
    let g = f1.push_instr(ins);
    let x = f1.blocks.last().instructions;
    let y = g.blocks.last().instructions;
    let i = f1.last_len() as int;
    assert(y[i] == ins);
    assert forall|k: int| 0 <= k < reads(y[i]).len() implies defined_in(y, #[trigger] reads(y[i])[k], f.last_len() as int, i) by {
        assert(defined_in(x, vals[k], f.last_len() as int, i));
        let j = choose|j: int| f.last_len() <= j < i && #[trigger] dest_of(x[j]) == Some(vals[k]);
        assert(y[j] == x[j]);
        assert(dest_of(y[j]) == Some(vals[k]));
    }
    lemma_appends_push(f1, ins, f.last_len() as int);
}

/// Lowering the first `k` straight-line arguments appends their instructions
/// in SSA order; each argument's value is defined by what was appended.
pub(crate) proof fn lemma_straight_args(f: FunctionV, c: nat, es: Seq<Expr>, k: nat)
    requires
        all_straight(es),
        k <= es.len(),
        f.blocks.len() > 0,
    ensures
        lower_args(f, c, es, k) matches Some((f1, c1, vals)) && c1 == c && appends(f, f1, f.last_len() as int)
            && vals.len() == k && forall|j: int|
            0 <= j < k ==> defined_in(f1.blocks.last().instructions, #[trigger] vals[j], f.last_len() as int, f1.last_len() as int),
    decreases es, k,
{
    let n = f.last_len() as int;
    if k == 0 {
        lemma_appends_refl(f, n);
    } else {
        lemma_straight_args(f, c, es, (k - 1) as nat);
        let (f1, c1, vals) = lower_args(f, c, es, (k - 1) as nat)->Some_0;
        assert(straight(es[k - 1]));
        lemma_straight(f1, c1, es[k - 1]);
        let (f2, c2) = lower(f1, c1, es[k - 1])->Some_0;
        let v = last_value(f2)->Some_0;
        assert(lower_value(f1, c1, es[k - 1]) == Some((f2, c2, v)));
        lemma_appends_weaken(f1, f2, f1.last_len() as int, n);
        lemma_appends_trans(f, f1, f2, n);
        let b2 = f2.blocks.last().instructions;
        assert(dest_of(b2[b2.len() - 1]) == Some(v));
        let all = vals.push(v);
        assert forall|j: int| 0 <= j < k implies defined_in(b2, #[trigger] all[j], n, f2.last_len() as int) by {
            if j < k - 1 {
                assert(all[j] == vals[j]);
                lemma_defined_kept(f1, f2, n, vals[j], n, f1.last_len() as int);
                let x = choose|x: int| n <= x < f1.last_len() && #[trigger] dest_of(b2[x]) == Some(vals[j]);
                assert(n <= x < f2.last_len());
            } else {
                assert(all[j] == v);
            }
        }
    }
}

/// Lowering the first `k` of a list of straight-line expressions appends their
/// instructions in SSA order; where `k` is positive the last of them defines a
/// value.
proof fn lemma_straight_all(f: FunctionV, c: nat, es: Seq<Expr>, k: nat)
    requires
        all_straight(es),
        k <= es.len(),
        f.blocks.len() > 0,
    ensures
        lower_all(f, c, es, k) matches Some((f1, c1)) && c1 == c && appends(f, f1, f.last_len() as int)
            && (k > 0 ==> lowers_straight(f, f1)),
    decreases es, k,
{
    let n = f.last_len() as int;
    if k == 0 {
        lemma_appends_refl(f, n);
    } else {
        lemma_straight_all(f, c, es, (k - 1) as nat);
        let (f1, c1) = lower_all(f, c, es, (k - 1) as nat)->Some_0;
        assert(straight(es[k - 1]));
        lemma_straight(f1, c1, es[k - 1]);
        let (f2, c2) = lower(f1, c1, es[k - 1])->Some_0;
        lemma_appends_weaken(f1, f2, f1.last_len() as int, n);
        lemma_appends_trans(f, f1, f2, n);
    }
}


/// Lowering `(let name value body)` of straight-line code: the instructions of
/// `value` follow those already in the block, then a store of the value that
/// `value` defines last under `name`, then the instructions of `body`.
pub proof fn law_let_lowering(f: FunctionV, c: nat, name: String, value: Expr, body: Expr)
    requires
        straight(value),
        straight(body),
        f.blocks.len() > 0,
    ensures
        lower(f, c, value) matches Some((f1, c1)) && c1 == c && f1.last_len() > f.last_len()
            && f1.blocks.len() == f.blocks.len()
            && f1.blocks.last().instructions.take(f.last_len() as int) == f.blocks.last().instructions
            && (lower(f, c, (Expr::Let { name, value: Box::new(value), body: Box::new(body) })) matches Some((g, c2))
            && c2 == c && g.blocks.len() == f.blocks.len() && g.last_len() > f1.last_len() + 1
            && g.blocks.last().instructions.take(f1.last_len() as int) == f1.blocks.last().instructions
            && g.blocks.last().instructions[f1.last_len() as int] == (InstrV::Store {
                name: name@,
                value: stack_val(f1.last_len() - 1),
                region: Region::Stack,
            })
            && lower(f1.push_instr(g.blocks.last().instructions[f1.last_len() as int]), c, body) == Some((g, c))),
{
    let e = Expr::Let { name, value: Box::new(value), body: Box::new(body) };
    law_straight_line_ssa_order(f, c, e);
    law_straight_line_ssa_order(f, c, value);
    let (f1, c1) = lower(f, c, value)->Some_0;
    let v = last_value(f1)->Some_0;
    assert(lower_value(f, c, value) == Some((f1, c1, v)));
    let ins = InstrV::Store { name: name@, value: v, region: Region::Stack };
    let f2 = f1.push_instr(ins);
    law_straight_line_ssa_order(f2, c, body);
    let (g, c2) = lower(f2, c, body)->Some_0;
    assert(lower(f, c, e) == Some((g, c2)));
    let x = f2.blocks.last().instructions;
    let y = g.blocks.last().instructions;
    assert(x == f1.blocks.last().instructions.push(ins));
    assert(y.take(x.len() as int) == x);
    assert(y[f1.last_len() as int] == y.take(x.len() as int)[f1.last_len() as int]);
    assert(y.take(f1.last_len() as int) =~= f1.blocks.last().instructions) by {
        assert forall|j: int| 0 <= j < f1.last_len() implies y.take(f1.last_len() as int)[j] == f1.blocks.last().instructions[j] by {
            assert(y.take(x.len() as int)[j] == y[j]);
        }
    }
}

} // verus!
