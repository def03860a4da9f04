//! Lowering of checked programs to the IR: each expression appends
//! instructions to the block being filled, opening blocks for branches and
//! loops; lambdas become functions of their own. The specification, the shape
//! it keeps, the lowering itself, and its laws.

use vstd::prelude::*;
use crate::ast::{AtomKind, Expr, MatchClause, PrimType, TypeExpr};
use crate::codegen::{function_fits, instr_fits};
use crate::dce::{entry_falls_through, is_branch};
use crate::straight_line::{law_straight_line_ssa_order, numbered_lowering, straight};
use crate::ir::{
    BinOp, BlockId, FloatLit, Function, FunctionV, InstrV, Instruction, IrType, IrValue, IrValueV, Region,
    SsaId, SsaValue,
};
use crate::text::{nat_text, push_usize, string_of, text_is};

verus! {

// ============================================================================
// SPECIFICATION
// ============================================================================

/// The stack value numbered `n`.
pub open spec fn stack_val(n: int) -> SsaValue {
    SsaValue { id: SsaId(n as usize), region: Region::Stack }
}

/// The value defined last in the block being filled, if that block holds any
/// instruction.
pub open spec fn last_value(f: FunctionV) -> Option<SsaValue> {
    if f.last_len() == 0 {
        None
    } else {
        Some(stack_val(f.last_len() - 1))
    }
}

/// The value that the next instruction of the block being filled defines.
pub open spec fn next_value(f: FunctionV) -> SsaValue {
    stack_val(f.last_len() as int)
}

/// The label of the next block to be added.
pub open spec fn next_label(f: FunctionV, k: nat) -> BlockId {
    BlockId((f.blocks.len() + k) as usize)
}

/// The operators that lower to a single binary instruction.
pub open spec fn is_builtin(op: Seq<char>) -> bool {
    ||| op == "+"@
    ||| op == "-"@
    ||| op == "*"@
    ||| op == "/"@
    ||| op == "=="@
    ||| op == "!="@
    ||| op == "<"@
    ||| op == ">"@
    ||| op == "<="@
    ||| op == ">="@
    ||| op == "not"@
    ||| op == "and"@
    ||| op == "or"@
}

/// The binary instruction a builtin operator lowers to (addition for those
/// without one of their own).
pub open spec fn builtin_binop(op: Seq<char>) -> BinOp {
    if op == "+"@ {
        BinOp::Add
    } else if op == "-"@ {
        BinOp::Sub
    } else if op == "*"@ {
        BinOp::Mul
    } else if op == "/"@ {
        BinOp::Div
    } else if op == "=="@ {
        BinOp::Eq
    } else if op == "!="@ {
        BinOp::Ne
    } else if op == "<"@ {
        BinOp::Lt
    } else if op == ">"@ {
        BinOp::Gt
    } else {
        BinOp::Add
    }
}

/// The instruction an atom lowers to.
pub open spec fn atom_instr(k: AtomKind, dest: SsaValue) -> InstrV {
    match k {
        AtomKind::Int(v) => InstrV::Const { value: IrValueV::Int(v), dest },
        AtomKind::Float(x) => InstrV::Const { value: IrValueV::Float(x@), dest },
        AtomKind::Bool(b) => InstrV::Const { value: IrValueV::Bool(b), dest },
        AtomKind::StringLit(s) => InstrV::Const { value: IrValueV::StringLit(s@), dest },
        AtomKind::Ident(name) => InstrV::Load { name: name@, region: Region::Stack, dest },
    }
}

/// The unit constant, defined at the next value.
pub open spec fn unit_instr(f: FunctionV) -> InstrV {
    InstrV::Const { value: IrValueV::Unit, dest: next_value(f) }
}

/// A jump to `target` whose condition is value 0.
pub open spec fn jump_to(target: BlockId, other: BlockId) -> InstrV {
    InstrV::Branch { cond: stack_val(0), then_block: target, else_block: other }
}

/// The name of the lambda numbered `c`.
pub open spec fn lambda_name(c: nat) -> Seq<char> {
    "lambda_"@ + nat_text(c)
}

/// The parameters of a lambda: each name prefixed with `arg_`, all integers.
pub open spec fn lambda_params(params: Seq<String>) -> Seq<(Seq<char>, IrType)> {
    params.map_values(|p: String| ("arg_"@ + p@, IrType::Int))
}

/// The function with the return of its last value appended.
pub open spec fn finish_function(f: FunctionV) -> FunctionV {
    f.push_instr(InstrV::Return { value: last_value(f) })
}

/// The constants 0, 1, .., n - 1 defined one after another, and their values.
pub open spec fn param_consts(f: FunctionV, n: nat) -> (FunctionV, Seq<SsaValue>)
    decreases n,
{
    if n == 0 {
        (f, seq![])
    } else {
        let (f1, vs) = param_consts(f, (n - 1) as nat);
        (
            f1.push_instr(InstrV::Const { value: IrValueV::Int((n - 1) as i64), dest: next_value(f1) }),
            vs.push(next_value(f1)),
        )
    }
}

/// Lowering of `e` into the block being filled of `f`, with lambda counter `c`:
/// the function after it and the counter after it. `None` where the lowering
/// cannot complete: an operand whose block defines no value, or a lambda
/// counter at the largest machine integer.
pub open spec fn lower(f: FunctionV, c: nat, e: Expr) -> Option<(FunctionV, nat)>
    decreases e, 0nat,
{
    match e {
        Expr::Atom(k) => Some((f.push_instr(atom_instr(k, next_value(f))), c)),
        Expr::App(op, args) => match lower_args(f, c, args@, args@.len()) {
            None => None,
            Some((f1, c1, vals)) => if is_builtin(op@) {
                if vals.len() == 2 {
                    Some((f1.push_instr(InstrV::BinOp {
                        op: builtin_binop(op@),
                        left: vals[0],
                        right: vals[1],
                        dest: next_value(f1),
                    }), c1))
                } else {
                    Some((f1, c1))
                }
            } else {
                Some((f1.push_instr(InstrV::Call {
                    func: IrValueV::FuncRef(op@),
                    args: vals,
                    dest: next_value(f1),
                }), c1))
            },
        },
        Expr::AppExpr(operator, args) => match lower_value(f, c, *operator) {
            None => None,
            Some((f1, c1, fv)) => match lower_args(f1, c1, args@, args@.len()) {
                None => None,
                Some((f2, c2, vals)) => Some((f2.push_instr(InstrV::CallIndirect {
                    func: fv,
                    args: vals,
                    dest: next_value(f2),
                }), c2)),
            },
        },
        Expr::If { cond, then_branch, else_branch } => match lower_value(f, c, *cond) {
            None => None,
            Some((f1, c1, cv)) => {
                let t = next_label(f1, 0);
                let el = next_label(f1, 1);
                let m = next_label(f1, 2);
                let f2 = f1.add_block().add_block().add_block().push_instr(
                    InstrV::CondBranch { cond: cv, then_block: t, else_block: el },
                ).relabel_last(t);
                match lower_value(f2, c1, *then_branch) {
                    None => None,
                    Some((f3, c3, tv)) => {
                        let f4 = f3.push_instr(
                            InstrV::Branch { cond: tv, then_block: m, else_block: m },
                        ).add_block();
                        match lower_value(f4, c3, *else_branch) {
                            None => None,
                            Some((f5, c5, ev)) => {
                                let f6 = f5.push_instr(
                                    InstrV::Branch { cond: ev, then_block: m, else_block: m },
                                ).relabel_last(m);
                                Some((f6.push_instr(InstrV::Phi {
                                    inputs: seq![(t, tv), (el, ev)],
                                    dest: next_value(f6),
                                }), c5))
                            },
                        }
                    },
                }
            },
        },
        Expr::Defn { name, params, .. } => {
            let (f1, vals) = param_consts(f, params@.len());
            Some((f1.push_instr(InstrV::Call {
                func: IrValueV::FuncRef(name@),
                args: vals,
                dest: next_value(f1),
            }), c))
        },
        Expr::Let { name, value, body } => match lower_value(f, c, *value) {
            None => None,
            Some((f1, c1, v)) => lower(
                f1.push_instr(InstrV::Store { name: name@, value: v, region: Region::Stack }),
                c1,
                *body,
            ),
        },
        Expr::TryCatch { body, handler, .. } => {
            let t = next_label(f, 0);
            let m = next_label(f, 2);
            let f1 = f.add_block().add_block().add_block().relabel_last(t);
            match lower(f1, c, *body) {
                None => None,
                Some((f2, c2)) => match lower(f2.push_instr(jump_to(m, m)).add_block(), c2, *handler) {
                    None => None,
                    Some((f3, c3)) => Some((f3.push_instr(jump_to(m, m)).relabel_last(m), c3)),
                },
            }
        },
        Expr::Spawn(body) => match lower_value(f, c, *body) {
            None => None,
            Some((f1, c1, v)) => Some((f1.push_instr(InstrV::Spawn { body: v, dest: next_value(f1) }), c1)),
        },
        Expr::Send { target, message } => match lower_value(f, c, *target) {
            None => None,
            Some((f1, c1, tv)) => match lower_value(f1, c1, *message) {
                None => None,
                Some((f2, c2, mv)) => Some((f2.push_instr(InstrV::Send { target: tv, message: mv }), c2)),
            },
        },
        Expr::FfiCall { name, args, timeout_ms } => match lower_args(f, c, args@, args@.len()) {
            None => None,
            Some((f1, c1, vals)) => Some((f1.push_instr(InstrV::FfiCall {
                name: name@,
                args: vals,
                timeout_ms,
                dest: next_value(f1),
            }), c1)),
        },
        Expr::Assert { condition, message } => match lower_value(f, c, *condition) {
            None => None,
            Some((f1, c1, v)) => Some((f1.push_instr(InstrV::Assert { condition: v, message: message@ }), c1)),
        },
        Expr::Fn { params, body } => if c >= usize::MAX {
            None
        } else {
            let name = lambda_name(c);
            let start = crate::ir::new_function_view(name, lambda_params(params@), IrType::Int);
            match lower(start, c + 1, *body) {
                None => None,
                Some((lf, c1)) => {
                    let f1 = FunctionV { extra_functions: f.extra_functions.push(finish_function(lf)), ..f };
                    Some((f1.push_instr(InstrV::ClosureCreate {
                        func_name: name,
                        env_values: seq![],
                        dest: next_value(f1),
                    }), c1))
                },
            }
        },
        Expr::While { condition, body } => {
            let s = next_label(f, 0);
            let en = next_label(f, 1);
            match lower_value(f.add_block().add_block().relabel_last(s), c, *condition) {
                None => None,
                Some((f1, c1, cv)) => match lower(
                    f1.push_instr(InstrV::CondBranch { cond: cv, then_block: s, else_block: en }),
                    c1,
                    *body,
                ) {
                    None => None,
                    Some((f2, c2)) => Some((f2.push_instr(jump_to(s, en)).add_block(), c2)),
                },
            }
        },
        Expr::For { name, iterator, body } => match lower_value(f, c, *iterator) {
            None => None,
            Some((f1, c1, v)) => lower(
                f1.push_instr(InstrV::Store { name: name@, value: v, region: Region::Stack }),
                c1,
                *body,
            ),
        },
        Expr::Cond(clauses) => if clauses@.len() == 0 {
            Some((f.push_instr(unit_instr(f)), c))
        } else {
            match lower_clauses(f.add_block(), c, clauses@, clauses@.len(), next_label(f, 0)) {
                None => None,
                Some((f1, c1)) => Some((f1.add_block(), c1)),
            }
        },
        Expr::Match { scrutinee, clauses } => match lower_value(f, c, *scrutinee) {
            None => None,
            Some((f1, c1, sv)) => match lower_match(
                f1.add_block(),
                c1,
                clauses@,
                clauses@.len(),
                sv,
                next_label(f1, 0),
            ) {
                None => None,
                Some((f2, c2)) => Some((f2.add_block(), c2)),
            },
        },
        Expr::Deftype { .. } | Expr::TraitDecl { .. } | Expr::Impl { .. } | Expr::Use { .. }
        | Expr::Requires(_) | Expr::Invariant(_) | Expr::Contracts(_) => Some((f, c)),
        Expr::Export(body) => lower(f, c, *body),
        Expr::Pub(body) => lower(f, c, *body),
        Expr::Ensures { body, .. } => lower(f, c, *body),
        Expr::Recover { body, .. } => lower(f, c, *body),
        Expr::Checkpoint(body) => lower(f, c, *body),
        Expr::Begin(exprs) => lower_all(f, c, exprs@, exprs@.len()),
        _ => Some((f.push_instr(unit_instr(f)), c)),
    }
}

/// Lowering of `e` followed by the value it defines last.
pub open spec fn lower_value(f: FunctionV, c: nat, e: Expr) -> Option<(FunctionV, nat, SsaValue)>
    decreases e, 1nat,
{
    match lower(f, c, e) {
        None => None,
        Some((f1, c1)) => match last_value(f1) {
            None => None,
            Some(v) => Some((f1, c1, v)),
        },
    }
}

/// Lowering of the first `k` arguments, left to right, with their values.
pub open spec fn lower_args(f: FunctionV, c: nat, es: Seq<Expr>, k: nat) -> Option<(FunctionV, nat, Seq<SsaValue>)>
    decreases es, k,
{
    if k == 0 || k > es.len() {
        Some((f, c, seq![]))
    } else {
        match lower_args(f, c, es, (k - 1) as nat) {
            None => None,
            Some((f1, c1, vals)) => match lower_value(f1, c1, es[k - 1]) {
                None => None,
                Some((f2, c2, v)) => Some((f2, c2, vals.push(v))),
            },
        }
    }
}

/// Lowering of the first `k` expressions of a sequence, one after another.
pub open spec fn lower_all(f: FunctionV, c: nat, es: Seq<Expr>, k: nat) -> Option<(FunctionV, nat)>
    decreases es, k,
{
    if k == 0 || k > es.len() {
        Some((f, c))
    } else {
        match lower_all(f, c, es, (k - 1) as nat) {
            None => None,
            Some((f1, c1)) => lower(f1, c1, es[k - 1]),
        }
    }
}

/// Lowering of the first `k` clauses of a `cond` whose merge block is `merge`:
/// each clause tests its condition; all but the last then open a block for
/// their body, which jumps to the merge block.
pub open spec fn lower_clauses(f: FunctionV, c: nat, cl: Seq<(Expr, Expr)>, k: nat, merge: BlockId) -> Option<(FunctionV, nat)>
    decreases cl, k,
{
    if k == 0 || k > cl.len() {
        Some((f, c))
    } else {
        match lower_clauses(f, c, cl, (k - 1) as nat, merge) {
            None => None,
            Some((f1, c1)) => match lower_value(f1, c1, cl[k - 1].0) {
                None => None,
                Some((f2, c2, cv)) => if k == cl.len() {
                    Some((f2.push_instr(InstrV::CondBranch { cond: cv, then_block: merge, else_block: merge }), c2))
                } else {
                    let next = next_label(f2, 0);
                    match lower(
                        f2.add_block().push_instr(InstrV::CondBranch { cond: cv, then_block: next, else_block: merge }),
                        c2,
                        cl[k - 1].1,
                    ) {
                        None => None,
                        Some((f3, c3)) => Some((f3.push_instr(jump_to(merge, merge)), c3)),
                    }
                },
            },
        }
    }
}

/// Lowering of the first `k` clauses of a `match` on `sv` whose merge block is
/// `merge`: all but the last open a block for their body, which jumps to the
/// merge block; the last branches to the merge block.
pub open spec fn lower_match(f: FunctionV, c: nat, cl: Seq<MatchClause>, k: nat, sv: SsaValue, merge: BlockId) -> Option<(FunctionV, nat)>
    decreases cl, k,
{
    if k == 0 || k > cl.len() {
        Some((f, c))
    } else {
        match lower_match(f, c, cl, (k - 1) as nat, sv, merge) {
            None => None,
            Some((f1, c1)) => if k == cl.len() {
                Some((f1.push_instr(InstrV::Branch { cond: sv, then_block: merge, else_block: merge }), c1))
            } else {
                let next = next_label(f1, 0);
                match lower(
                    f1.add_block().push_instr(InstrV::Branch { cond: sv, then_block: next, else_block: merge }),
                    c1,
                    *cl[k - 1].body,
                ) {
                    None => None,
                    Some((f2, c2)) => Some((f2.push_instr(jump_to(merge, merge)), c2)),
                }
            },
        }
    }
}

// ============================================================================
// THE SHAPE OF LOWERED FUNCTIONS
// ============================================================================

/// The shape a lowered function has: its entry falls through, and its closures
/// fit the machine.
pub open spec fn lowered_shape(f: FunctionV) -> bool {
    entry_falls_through(f) && function_fits(f)
}

/// The shape of a function being lowered and of the lambdas it generated.
pub open spec fn well_lowered(f: FunctionV) -> bool {
    &&& lowered_shape(f)
    &&& forall|k: int| 0 <= k < f.extra_functions.len() ==> lowered_shape(#[trigger] f.extra_functions[k])
}

pub(crate) proof fn lemma_push_shape(f: FunctionV, i: InstrV)
    requires
        well_lowered(f),
        f.blocks.len() >= 2 || !is_branch(i),
        instr_fits(i),
    ensures
        well_lowered(f.push_instr(i)),
{
    let g = f.push_instr(i);
    let n = f.blocks.len() - 1;
    assert(g.blocks[n].instructions == f.blocks[n].instructions.push(i));
    assert forall|b: int, j: int|
        0 <= b < g.blocks.len() && 0 <= j < g.blocks[b].instructions.len() implies #[trigger] instr_fits(
            g.blocks[b].instructions[j],
        ) by {
        if b == n && j == f.blocks[n].instructions.len() {
        } else {
            assert(g.blocks[b].instructions[j] == f.blocks[b].instructions[j]);
        }
    }
    if n == 0 {
        assert forall|j: int| 0 <= j < g.blocks[0].instructions.len() implies !is_branch(#[trigger] g.blocks[0].instructions[j]) by {
            if j < f.blocks[0].instructions.len() {
                assert(g.blocks[0].instructions[j] == f.blocks[0].instructions[j]);
            }
        }
    }
    assert(g.extra_functions == f.extra_functions);
}

proof fn lemma_add_block_shape(f: FunctionV)
    requires
        well_lowered(f),
    ensures
        well_lowered(f.add_block()),
{
    let g = f.add_block();
    assert forall|b: int, j: int|
        0 <= b < g.blocks.len() && 0 <= j < g.blocks[b].instructions.len() implies #[trigger] instr_fits(
            g.blocks[b].instructions[j],
        ) by {
        assert(b < f.blocks.len());
        assert(g.blocks[b] == f.blocks[b]);
    }
    assert(g.blocks[0] == f.blocks[0]);
}

proof fn lemma_relabel_shape(f: FunctionV, id: BlockId)
    requires
        well_lowered(f),
        f.blocks.len() >= 2,
    ensures
        well_lowered(f.relabel_last(id)),
{
    let g = f.relabel_last(id);
    assert forall|b: int, j: int|
        0 <= b < g.blocks.len() && 0 <= j < g.blocks[b].instructions.len() implies #[trigger] instr_fits(
            g.blocks[b].instructions[j],
        ) by {
        assert(g.blocks[b].instructions == f.blocks[b].instructions);
    }
    assert(g.blocks[0] == f.blocks[0]);
}

// ============================================================================
// LOWERING
// ============================================================================

/// Appends an instruction to the block being filled.
fn emit(func: &mut Function, instr: Instruction)
    requires
        old(func).blocks@.len() > 0,
    ensures
        final(func)@ == old(func)@.push_instr(instr@),
        final(func).blocks@.len() == old(func).blocks@.len(),
        well_lowered(old(func)@) && (old(func).blocks@.len() >= 2 || !is_branch(instr@)) && instr_fits(
            instr@,
        ) ==> well_lowered(final(func)@),
{
    let ghost i = instr@;
    let ghost f0 = func@;
    func.add_instruction(instr);
    proof {
        if well_lowered(f0) && (f0.blocks.len() >= 2 || !is_branch(i)) && instr_fits(i) {
            lemma_push_shape(f0, i);
        }
    }
}

/// Opens a fresh block and returns its label.
fn open_block(func: &mut Function) -> (id: BlockId)
    ensures
        id == next_label(old(func)@, 0),
        final(func)@ == old(func)@.add_block(),
        final(func).blocks@.len() == old(func).blocks@.len() + 1,
        well_lowered(old(func)@) ==> well_lowered(final(func)@),
{
    let ghost f0 = func@;
    let id = func.add_block();
    proof {
        if well_lowered(f0) {
            lemma_add_block_shape(f0);
        }
    }
    id
}

/// Relabels the block being filled.
fn relabel(func: &mut Function, id: BlockId)
    requires
        old(func).blocks@.len() >= 2,
    ensures
        final(func)@ == old(func)@.relabel_last(id),
        final(func).blocks@.len() == old(func).blocks@.len(),
        well_lowered(old(func)@) ==> well_lowered(final(func)@),
{
    let ghost f0 = func@;
    func.relabel_current(id);
    proof {
        if well_lowered(f0) {
            lemma_relabel_shape(f0, id);
        }
    }
}

/// The value that the next instruction of the block being filled defines.
fn ssa_val(func: &Function) -> (v: SsaValue)
    requires
        func.blocks@.len() > 0,
    ensures
        v == next_value(func@),
{
    SsaValue { id: SsaId(func.current_len()), region: Region::Stack }
}

/// The value defined last in the block being filled, if any.
fn last_val(func: &Function) -> (v: Option<SsaValue>)
    requires
        func.blocks@.len() > 0,
    ensures
        v == last_value(func@),
{
    let n = func.current_len();
    if n == 0 {
        None
    } else {
        Some(SsaValue { id: SsaId(n - 1), region: Region::Stack })
    }
}

/// Whether `f`/`c` are the function and counter that a lowering outcome `r`
/// gives, with `ok` telling whether it completed.
pub open spec fn outcome(r: Option<(FunctionV, nat)>, ok: bool, f: FunctionV, c: usize) -> bool {
    match r {
        None => !ok,
        Some((f1, c1)) => ok && f == f1 && c as nat == c1,
    }
}

/// Lowering only adds blocks and keeps the shape of a well-lowered function.
pub open spec fn kept_shape(f0: FunctionV, f1: FunctionV) -> bool {
    &&& f1.blocks.len() >= f0.blocks.len()
    &&& well_lowered(f0) ==> well_lowered(f1)
}

/// Whether `op` lowers to a single binary instruction.
fn is_icnf_builtin(op: &String) -> (b: bool)
    ensures
        b == is_builtin(op@),
{
    text_is(op.as_str(), "+") || text_is(op.as_str(), "-") || text_is(op.as_str(), "*") || text_is(op.as_str(), "/")
        || text_is(op.as_str(), "==") || text_is(op.as_str(), "!=") || text_is(op.as_str(), "<") || text_is(op.as_str(), ">")
        || text_is(op.as_str(), "<=") || text_is(op.as_str(), ">=") || text_is(op.as_str(), "not") || text_is(op.as_str(), "and")
        || text_is(op.as_str(), "or")
}

/// The binary instruction that a builtin operator lowers to.
fn builtin_op(op: &String) -> (b: BinOp)
    ensures
        b == builtin_binop(op@),
{
    if text_is(op.as_str(), "+") {
        BinOp::Add
    } else if text_is(op.as_str(), "-") {
        BinOp::Sub
    } else if text_is(op.as_str(), "*") {
        BinOp::Mul
    } else if text_is(op.as_str(), "/") {
        BinOp::Div
    } else if text_is(op.as_str(), "==") {
        BinOp::Eq
    } else if text_is(op.as_str(), "!=") {
        BinOp::Ne
    } else if text_is(op.as_str(), "<") {
        BinOp::Lt
    } else if text_is(op.as_str(), ">") {
        BinOp::Gt
    } else {
        BinOp::Add
    }
}

/// A copy of a floating-point constant.
fn copy_float(x: &FloatLit) -> (r: FloatLit)
    ensures
        r@ == x@,
{
    FloatLit { bits: x.bits, text: x.text.clone() }
}

/// The instruction that an atom lowers to.
fn atom_instruction(k: &AtomKind, dest: SsaValue) -> (i: Instruction)
    ensures
        i@ == atom_instr(*k, dest),
{
    match k {
        AtomKind::Int(v) => Instruction::Const { value: IrValue::Int(*v), dest },
        AtomKind::Float(x) => Instruction::Const { value: IrValue::Float(copy_float(x)), dest },
        AtomKind::Bool(b) => Instruction::Const { value: IrValue::Bool(*b), dest },
        AtomKind::StringLit(s) => Instruction::Const { value: IrValue::StringLit(s.clone()), dest },
        AtomKind::Ident(name) => Instruction::Load { name: name.clone(), region: Region::Stack, dest },
    }
}

/// The name of the lambda numbered `c`.
fn fresh_lambda_name(c: usize) -> (s: String)
    ensures
        s@ == lambda_name(c as nat),
{
    let mut s = string_of("lambda_");
    push_usize(&mut s, c);
    s
}

/// The parameters of a lambda.
fn lambda_param_list(params: &Vec<String>) -> (r: Vec<(String, IrType)>)
    ensures
        r@.map_values(|p: (String, IrType)| (p.0@, p.1)) == lambda_params(params@),
{
    let ghost want = lambda_params(params@);
    assert(want.len() == params@.len());
    let mut r: Vec<(String, IrType)> = Vec::new();
    let mut i: usize = 0;
    while i < params.len()
        invariant
            i <= params@.len(),
            want == lambda_params(params@),
            want.len() == params@.len(),
            r@.map_values(|p: (String, IrType)| (p.0@, p.1)) == want.take(i as int),
        decreases params.len() - i,
    {
        assert(r@.map_values(|p: (String, IrType)| (p.0@, p.1)).len() == r@.len());
        assert(r@.len() == i);
        let mut n = string_of("arg_");
        n.append(params[i].as_str());
        let ghost prev = r@;
        let ghost pv = prev.map_values(|p: (String, IrType)| (p.0@, p.1));
        assert(pv == want.take(i as int));
        let ghost nv = n@;
        assert(prev.len() == i);
        r.push((n, IrType::Int));
        assert(r@.len() == i + 1);
        assert(r@[i as int].0@ == nv);
        assert(r@.map_values(|p: (String, IrType)| (p.0@, p.1)) =~= pv.push((nv, IrType::Int)));
        assert(want.take(i + 1) =~= want.take(i as int).push(want[i as int]));
        assert(r@.map_values(|p: (String, IrType)| (p.0@, p.1)) =~= want.take(i + 1));
        i = i + 1;
    }
    assert(want.take(params@.len() as int) =~= want);
    r
}

/// The parameters of a defined function: each an integer.
pub(crate) fn defn_param_list(params: &Vec<String>) -> (r: Vec<(String, IrType)>)
    ensures
        r@.map_values(|p: (String, IrType)| (p.0@, p.1)) == params@.map_values(
            |p: String| (p@, IrType::Int),
        ),
{
    let ghost want = params@.map_values(|p: String| (p@, IrType::Int));
    let mut r: Vec<(String, IrType)> = Vec::new();
    let mut i: usize = 0;
    while i < params.len()
        invariant
            i <= params@.len(),
            want == params@.map_values(|p: String| (p@, IrType::Int)),
            r@.map_values(|p: (String, IrType)| (p.0@, p.1)) == want.take(i as int),
        decreases params.len() - i,
    {
        let ghost prev = r@;
        let ghost pv = prev.map_values(|p: (String, IrType)| (p.0@, p.1));
        assert(pv == want.take(i as int));
        r.push((params[i].clone(), IrType::Int));
        assert(r@ == prev.push(r@[i as int]));
        assert(r@.map_values(|p: (String, IrType)| (p.0@, p.1)) =~= pv.push((params@[i as int]@, IrType::Int)));
        assert(want.take(i + 1) =~= want.take(i as int).push(want[i as int]));
        assert(r@.map_values(|p: (String, IrType)| (p.0@, p.1)) =~= want.take(i + 1));
        i = i + 1;
    }
    assert(want.take(params@.len() as int) =~= want);
    r
}

/// Defines the constants 0, 1, .., n - 1 one after another.
fn push_param_consts(func: &mut Function, n: usize) -> (vals: Vec<SsaValue>)
    requires
        old(func)@.blocks.len() > 0,
    ensures
        param_consts(old(func)@, n as nat) == (final(func)@, vals@),
        kept_shape(old(func)@, final(func)@),
{
    let ghost f0 = func@;
    let mut vals: Vec<SsaValue> = Vec::new();
    let mut i: usize = 0;
    while i < n
        invariant
            i <= n,
            func@.blocks.len() > 0,
            param_consts(f0, i as nat) == (func@, vals@),
            kept_shape(f0, func@),
        decreases n - i,
    {
        let dest = ssa_val(func);
        let v: i64 = i as i64;
        emit(func, Instruction::Const { value: IrValue::Int(v), dest });
        vals.push(dest);
        i = i + 1;
    }
    vals
}

/// Lowers `e` into the block being filled. Straight-line code (atoms,
/// applications, `let`, `begin`, foreign calls) always lowers, appending to
/// that block only, with each value numbered by its place in the block and
/// reading only values numbered below it.
#[verifier::spinoff_prover]
#[verifier::rlimit(60)]
pub fn expr_to_blocks(e: &Expr, func: &mut Function, counter: &mut usize) -> (ok: bool)
    requires
        old(func)@.blocks.len() > 0,
    ensures
        outcome(lower(old(func)@, *old(counter) as nat, *e), ok, final(func)@, *final(counter)),
        ok ==> kept_shape(old(func)@, final(func)@),
        straight(*e) ==> ok && *final(counter) == *old(counter) && numbered_lowering(old(func)@, final(func)@),
    decreases *e, 1nat,
{
    proof {
        if straight(*e) {
            law_straight_line_ssa_order(func@, *counter as nat, *e);
        }
    }
    match e {
        Expr::Atom(kind) => {
            let dest = ssa_val(func);
            emit(func, atom_instruction(kind, dest));
            true
        },
        Expr::App(..) | Expr::AppExpr(..) | Expr::FfiCall { .. } => lower_call(e, func, counter),
        Expr::If { .. } => lower_if(e, func, counter),
        Expr::Defn { name, params, .. } => {
            let vals = push_param_consts(func, params.len());
            let dest = ssa_val(func);
            emit(func, Instruction::Call { func: IrValue::FuncRef(name.clone()), args: vals, dest });
            true
        },
        Expr::Let { name, value, body } => match expr_value(value, func, counter) {
            None => false,
            Some(v) => {
                emit(func, Instruction::Store { name: name.clone(), value: v, region: Region::Stack });
                expr_to_blocks(body, func, counter)
            },
        },
        Expr::TryCatch { .. } => lower_try(e, func, counter),
        Expr::Spawn(body) => match expr_value(body, func, counter) {
            None => false,
            Some(v) => {
                let dest = ssa_val(func);
                emit(func, Instruction::Spawn { body: v, dest });
                true
            },
        },
        Expr::Send { target, message } => match expr_value(target, func, counter) {
            None => false,
            Some(tv) => match expr_value(message, func, counter) {
                None => false,
                Some(mv) => {
                    emit(func, Instruction::Send { target: tv, message: mv });
                    true
                },
            },
        },
        Expr::Assert { condition, message } => match expr_value(condition, func, counter) {
            None => false,
            Some(v) => {
                emit(func, Instruction::Assert { condition: v, message: message.clone() });
                true
            },
        },
        Expr::Fn { .. } => lower_lambda(e, func, counter),
        Expr::While { .. } => lower_while(e, func, counter),
        Expr::For { name, iterator, body } => match expr_value(iterator, func, counter) {
            None => false,
            Some(v) => {
                emit(func, Instruction::Store { name: name.clone(), value: v, region: Region::Stack });
                expr_to_blocks(body, func, counter)
            },
        },
        Expr::Cond(..) | Expr::Match { .. } => lower_branches(e, func, counter),
        Expr::Deftype { .. } | Expr::TraitDecl { .. } | Expr::Impl { .. } | Expr::Use { .. }
        | Expr::Requires(_) | Expr::Invariant(_) | Expr::Contracts(_) => true,
        Expr::Export(body) => expr_to_blocks(body, func, counter),
        Expr::Pub(body) => expr_to_blocks(body, func, counter),
        Expr::Ensures { body, .. } => expr_to_blocks(body, func, counter),
        Expr::Recover { body, .. } => expr_to_blocks(body, func, counter),
        Expr::Checkpoint(body) => expr_to_blocks(body, func, counter),
        Expr::Begin(exprs) => exprs_to_blocks(exprs, exprs.len(), func, counter),
        _ => {
            let dest = ssa_val(func);
            emit(func, Instruction::Const { value: IrValue::Unit, dest });
            true
        },
    }
}

/// Lowers `e` and returns the value it defines last.
fn expr_value(e: &Expr, func: &mut Function, counter: &mut usize) -> (v: Option<SsaValue>)
    requires
        old(func)@.blocks.len() > 0,
    ensures
        match lower_value(old(func)@, *old(counter) as nat, *e) {
            None => v is None,
            Some((f1, c1, x)) => v == Some(x) && final(func)@ == f1 && *final(counter) as nat == c1,
        },
        v is Some ==> kept_shape(old(func)@, final(func)@),
    decreases *e, 2nat,
{
    if !expr_to_blocks(e, func, counter) {
        return None;
    }
    last_val(func)
}

/// Lowers the first `k` arguments, left to right, and returns their values.
fn args_values(args: &Vec<Expr>, k: usize, func: &mut Function, counter: &mut usize) -> (r: Option<Vec<SsaValue>>)
    requires
        old(func)@.blocks.len() > 0,
        k <= args@.len(),
    ensures
        match lower_args(old(func)@, *old(counter) as nat, args@, k as nat) {
            None => r is None,
            Some((f1, c1, vals)) => r is Some && r->0@ == vals && final(func)@ == f1 && *final(counter) as nat == c1,
        },
        r is Some ==> kept_shape(old(func)@, final(func)@),
    decreases args@, k,
{
    if k == 0 {
        return Some(Vec::new());
    }
    let mut vals = match args_values(args, k - 1, func, counter) {
        None => return None,
        Some(vals) => vals,
    };
    match expr_value(&args[k - 1], func, counter) {
        None => None,
        Some(v) => {
            vals.push(v);
            Some(vals)
        },
    }
}

/// Lowers the first `k` expressions one after another.
fn exprs_to_blocks(es: &Vec<Expr>, k: usize, func: &mut Function, counter: &mut usize) -> (ok: bool)
    requires
        old(func)@.blocks.len() > 0,
        k <= es@.len(),
    ensures
        outcome(lower_all(old(func)@, *old(counter) as nat, es@, k as nat), ok, final(func)@, *final(counter)),
        ok ==> kept_shape(old(func)@, final(func)@),
    decreases es@, k,
{
    if k == 0 {
        return true;
    }
    if !exprs_to_blocks(es, k - 1, func, counter) {
        return false;
    }
    expr_to_blocks(&es[k - 1], func, counter)
}

/// Lowers a call: of a named operator or function, of a computed function
/// value, or of a foreign function.
fn lower_call(e: &Expr, func: &mut Function, counter: &mut usize) -> (ok: bool)
    requires
        old(func)@.blocks.len() > 0,
        e is App || e is AppExpr || e is FfiCall,
    ensures
        outcome(lower(old(func)@, *old(counter) as nat, *e), ok, final(func)@, *final(counter)),
        ok ==> kept_shape(old(func)@, final(func)@),
    decreases *e, 0nat,
{
    match e {
        Expr::App(op, args) => {
            let vals = match args_values(args, args.len(), func, counter) {
                None => return false,
                Some(vals) => vals,
            };
            let dest = ssa_val(func);
            if is_icnf_builtin(op) {
                if vals.len() == 2 {
                    let bop = builtin_op(op);
                    emit(func, Instruction::BinOp { op: bop, left: vals[0], right: vals[1], dest });
                }
            } else {
                emit(func, Instruction::Call { func: IrValue::FuncRef(op.clone()), args: vals, dest });
            }
            true
        },
        Expr::AppExpr(operator, args) => {
            let fv = match expr_value(operator, func, counter) {
                None => return false,
                Some(v) => v,
            };
            let vals = match args_values(args, args.len(), func, counter) {
                None => return false,
                Some(vals) => vals,
            };
            let dest = ssa_val(func);
            emit(func, Instruction::CallIndirect { func: fv, args: vals, dest });
            true
        },
        Expr::FfiCall { name, args, timeout_ms } => {
            let vals = match args_values(args, args.len(), func, counter) {
                None => return false,
                Some(vals) => vals,
            };
            let dest = ssa_val(func);
            emit(
                func,
                Instruction::FfiCall { name: name.clone(), args: vals, timeout_ms: *timeout_ms, dest },
            );
            true
        },
        _ => false,
    }
}

/// Lowers a conditional: the condition, a branch into a block for each arm,
/// and a merge block that joins the arms' values.
#[verifier::spinoff_prover]
#[verifier::rlimit(60)]
fn lower_if(e: &Expr, func: &mut Function, counter: &mut usize) -> (ok: bool)
    requires
        old(func)@.blocks.len() > 0,
        e is If,
    ensures
        outcome(lower(old(func)@, *old(counter) as nat, *e), ok, final(func)@, *final(counter)),
        ok ==> kept_shape(old(func)@, final(func)@),
    decreases *e, 0nat,
{
    match e {
        Expr::If { cond, then_branch, else_branch } => {
            let cv = match expr_value(cond, func, counter) {
                None => return false,
                Some(v) => v,
            };
            let then_block = open_block(func);
            let else_block = open_block(func);
            let merge_block = open_block(func);
            emit(func, Instruction::CondBranch { cond: cv, then_block, else_block });
            relabel(func, then_block);
            let tv = match expr_value(then_branch, func, counter) {
                None => return false,
                Some(v) => v,
            };
            emit(func, Instruction::Branch { cond: tv, then_block: merge_block, else_block: merge_block });
            open_block(func);
            let ev = match expr_value(else_branch, func, counter) {
                None => return false,
                Some(v) => v,
            };
            emit(func, Instruction::Branch { cond: ev, then_block: merge_block, else_block: merge_block });
            relabel(func, merge_block);
            let dest = ssa_val(func);
            emit(func, Instruction::Phi { inputs: vec![(then_block, tv), (else_block, ev)], dest });
            true
        },
        _ => false,
    }
}

/// Lowers a `try`: the body in a block of its own, the handler in the next,
/// both jumping to the merge block, which is filled next.
fn lower_try(e: &Expr, func: &mut Function, counter: &mut usize) -> (ok: bool)
    requires
        old(func)@.blocks.len() > 0,
        e is TryCatch,
    ensures
        outcome(lower(old(func)@, *old(counter) as nat, *e), ok, final(func)@, *final(counter)),
        ok ==> kept_shape(old(func)@, final(func)@),
    decreases *e, 0nat,
{
    match e {
        Expr::TryCatch { body, handler, .. } => {
            let try_block = open_block(func);
            open_block(func);
            let merge_block = open_block(func);
            relabel(func, try_block);
            if !expr_to_blocks(body, func, counter) {
                return false;
            }
            let zero = SsaValue { id: SsaId(0), region: Region::Stack };
            emit(func, Instruction::Branch { cond: zero, then_block: merge_block, else_block: merge_block });
            open_block(func);
            if !expr_to_blocks(handler, func, counter) {
                return false;
            }
            emit(func, Instruction::Branch { cond: zero, then_block: merge_block, else_block: merge_block });
            relabel(func, merge_block);
            true
        },
        _ => false,
    }
}

/// Lowers a `while` loop: the test in the loop block, which branches back to
/// itself or to the exit, then the body, then a fresh block after the loop.
fn lower_while(e: &Expr, func: &mut Function, counter: &mut usize) -> (ok: bool)
    requires
        old(func)@.blocks.len() > 0,
        e is While,
    ensures
        outcome(lower(old(func)@, *old(counter) as nat, *e), ok, final(func)@, *final(counter)),
        ok ==> kept_shape(old(func)@, final(func)@),
    decreases *e, 0nat,
{
    match e {
        Expr::While { condition, body } => {
            let loop_start = open_block(func);
            let loop_end = open_block(func);
            relabel(func, loop_start);
            let cv = match expr_value(condition, func, counter) {
                None => return false,
                Some(v) => v,
            };
            emit(func, Instruction::CondBranch { cond: cv, then_block: loop_start, else_block: loop_end });
            if !expr_to_blocks(body, func, counter) {
                return false;
            }
            let zero = SsaValue { id: SsaId(0), region: Region::Stack };
            emit(func, Instruction::Branch { cond: zero, then_block: loop_start, else_block: loop_end });
            open_block(func);
            true
        },
        _ => false,
    }
}

/// Lowers a lambda into a function of its own, kept among the generated
/// functions, and creates a closure of it with an empty environment.
fn lower_lambda(e: &Expr, func: &mut Function, counter: &mut usize) -> (ok: bool)
    requires
        old(func)@.blocks.len() > 0,
        e is Fn,
    ensures
        outcome(lower(old(func)@, *old(counter) as nat, *e), ok, final(func)@, *final(counter)),
        ok ==> kept_shape(old(func)@, final(func)@),
    decreases *e, 0nat,
{
    match e {
        Expr::Fn { params, body } => {
            if *counter == usize::MAX {
                return false;
            }
            let id = *counter;
            *counter = id + 1;
            let func_name = fresh_lambda_name(id);
            let param_types = lambda_param_list(params);
            let mut lambda = Function::new(func_name.clone(), param_types, IrType::Int);
            let ghost start = lambda@;
            assert(well_lowered(start)) by {
                assert(start.blocks[0].instructions.len() == 0);
            }
            if !expr_to_blocks(body, &mut lambda, counter) {
                return false;
            }
            let ret_value = last_val(&lambda);
            emit(&mut lambda, Instruction::Return { value: ret_value });
            let ghost lv = lambda@;
            let ghost f0 = func@;
            func.extra_functions.push(lambda);
            proof {
                assert(func@.extra_functions =~= f0.extra_functions.push(lv));
                assert(func@ == (FunctionV { extra_functions: f0.extra_functions.push(lv), ..f0 }));
                if well_lowered(f0) {
                    assert forall|k: int| 0 <= k < func@.extra_functions.len() implies lowered_shape(
                        #[trigger] func@.extra_functions[k],
                    ) by {
                        if k < f0.extra_functions.len() {
                            assert(func@.extra_functions[k] == f0.extra_functions[k]);
                        }
                    }
                }
            }
            let dest = ssa_val(func);
            emit(func, Instruction::ClosureCreate { func_name, env_values: Vec::new(), dest });
            true
        },
        _ => false,
    }
}

/// Lowers a `cond` or a `match`: its clauses branch to blocks of their own
/// or to the merge block, which is followed by a fresh block.
fn lower_branches(e: &Expr, func: &mut Function, counter: &mut usize) -> (ok: bool)
    requires
        old(func)@.blocks.len() > 0,
        e is Cond || e is Match,
    ensures
        outcome(lower(old(func)@, *old(counter) as nat, *e), ok, final(func)@, *final(counter)),
        ok ==> kept_shape(old(func)@, final(func)@),
    decreases *e, 0nat,
{
    match e {
        Expr::Cond(clauses) => {
            if clauses.len() == 0 {
                let dest = ssa_val(func);
                emit(func, Instruction::Const { value: IrValue::Unit, dest });
                return true;
            }
            let merge_block = open_block(func);
            if !cond_clauses(clauses, clauses.len(), merge_block, func, counter) {
                return false;
            }
            open_block(func);
            true
        },
        Expr::Match { scrutinee, clauses } => {
            let sv = match expr_value(scrutinee, func, counter) {
                None => return false,
                Some(v) => v,
            };
            let merge_block = open_block(func);
            if !match_clauses(clauses, clauses.len(), sv, merge_block, func, counter) {
                return false;
            }
            open_block(func);
            true
        },
        _ => false,
    }
}

/// Lowers the first `k` clauses of a `cond`.
#[verifier::rlimit(30)]
fn cond_clauses(
    cl: &Vec<(Expr, Expr)>,
    k: usize,
    merge: BlockId,
    func: &mut Function,
    counter: &mut usize,
) -> (ok: bool)
    requires
        old(func)@.blocks.len() >= 2,
        k <= cl@.len(),
    ensures
        outcome(lower_clauses(old(func)@, *old(counter) as nat, cl@, k as nat, merge), ok, final(func)@, *final(counter)),
        ok ==> kept_shape(old(func)@, final(func)@),
    decreases cl@, k,
{
    if k == 0 {
        return true;
    }
    if !cond_clauses(cl, k - 1, merge, func, counter) {
        return false;
    }
    let cv = match expr_value(&cl[k - 1].0, func, counter) {
        None => return false,
        Some(v) => v,
    };
    if k == cl.len() {
        emit(func, Instruction::CondBranch { cond: cv, then_block: merge, else_block: merge });
    } else {
        let next = open_block(func);
        emit(func, Instruction::CondBranch { cond: cv, then_block: next, else_block: merge });
        if !expr_to_blocks(&cl[k - 1].1, func, counter) {
            return false;
        }
        let zero = SsaValue { id: SsaId(0), region: Region::Stack };
        emit(func, Instruction::Branch { cond: zero, then_block: merge, else_block: merge });
    }
    true
}

/// Lowers the first `k` clauses of a `match` on `sv`.
#[verifier::rlimit(30)]
fn match_clauses(
    cl: &Vec<MatchClause>,
    k: usize,
    sv: SsaValue,
    merge: BlockId,
    func: &mut Function,
    counter: &mut usize,
) -> (ok: bool)
    requires
        old(func)@.blocks.len() >= 2,
        k <= cl@.len(),
    ensures
        outcome(lower_match(old(func)@, *old(counter) as nat, cl@, k as nat, sv, merge), ok, final(func)@, *final(counter)),
        ok ==> kept_shape(old(func)@, final(func)@),
    decreases cl@, k,
{
    if k == 0 {
        return true;
    }
    if !match_clauses(cl, k - 1, sv, merge, func, counter) {
        return false;
    }
    if k == cl.len() {
        emit(func, Instruction::Branch { cond: sv, then_block: merge, else_block: merge });
    } else {
        let next = open_block(func);
        emit(func, Instruction::Branch { cond: sv, then_block: next, else_block: merge });
        if !expr_to_blocks(&cl[k - 1].body, func, counter) {
            return false;
        }
        let zero = SsaValue { id: SsaId(0), region: Region::Stack };
        emit(func, Instruction::Branch { cond: zero, then_block: merge, else_block: merge });
    }
    true
}

// ============================================================================
// FUNCTIONS
// ============================================================================

/// The function that `body` lowers to from `start`, with the return of its
/// last value appended, and the counter after it.
pub open spec fn lowered_function(start: FunctionV, c: nat, body: Expr) -> Option<(FunctionV, nat)> {
    match lower(start, c, body) {
        None => None,
        Some((f, c1)) => Some((finish_function(f), c1)),
    }
}

/// The empty `main` function.
pub open spec fn main_start() -> FunctionV {
    crate::ir::new_function_view("main"@, seq![], IrType::Int)
}

/// The IR type of a declared return type (integers where none is declared).
pub open spec fn ret_ir_type(t: Option<TypeExpr>) -> IrType {
    match t {
        Some(TypeExpr::Prim(PrimType::Int)) => IrType::Int,
        Some(TypeExpr::Prim(PrimType::Float)) => IrType::Float,
        Some(TypeExpr::Prim(PrimType::Bool)) => IrType::Bool,
        Some(TypeExpr::Prim(PrimType::String)) => IrType::String,
        Some(TypeExpr::Prim(PrimType::Unit)) => IrType::Unit,
        _ => IrType::Int,
    }
}

/// The empty function of a definition: its integer parameters and its return type.
pub open spec fn defn_start(name: Seq<char>, params: Seq<String>, ret: Option<TypeExpr>) -> FunctionV {
    crate::ir::new_function_view(name, params.map_values(|p: String| (p@, IrType::Int)), ret_ir_type(ret))
}

/// The functions that a lowered function contributes to the program: the
/// lambdas it generated, then itself without them.
pub open spec fn hoisted(f: FunctionV) -> Seq<FunctionV> {
    f.extra_functions.push(FunctionV { extra_functions: seq![], ..f })
}

pub(crate) proof fn lemma_hoisted_shape(f: FunctionV)
    requires
        well_lowered(f),
    ensures
        forall|k: int| 0 <= k < hoisted(f).len() ==> lowered_shape(#[trigger] hoisted(f)[k]),
{
    let h = hoisted(f);
    let g = FunctionV { extra_functions: seq![], ..f };
    assert(function_fits(g));
    assert forall|k: int| 0 <= k < h.len() implies lowered_shape(#[trigger] h[k]) by {
        if k < f.extra_functions.len() {
            assert(h[k] == f.extra_functions[k]);
        } else {
            assert(h[k] == g);
        }
    }
}

/// Finishes a function: appends the return of its last value.
pub(crate) fn finish(func: &mut Function)
    requires
        old(func)@.blocks.len() > 0,
    ensures
        final(func)@ == finish_function(old(func)@),
        well_lowered(old(func)@) ==> well_lowered(final(func)@),
{
    let ret_value = last_val(func);
    emit(func, Instruction::Return { value: ret_value });
}

/// Moves the generated lambdas of `func` into `functions`, then `func` itself.
pub(crate) fn hoist_into(functions: &mut Vec<Function>, func: Function)
    ensures
        final(functions)@.map_values(|f: Function| f@) == old(functions)@.map_values(|f: Function| f@) + hoisted(func@),
{
    let Function { name, params, ret_type, blocks, entry_block, extra_functions } = func;
    let ghost fv = func@;
    let ghost start = functions@.map_values(|f: Function| f@);
    let mut extras = extra_functions;
    let ghost ev = fv.extra_functions;
    let ghost mut i: int = 0;
    while extras.len() > 0
        invariant
            0 <= i <= ev.len(),
            extras@.len() == ev.len() - i,
            forall|j: int| 0 <= j < extras@.len() ==> #[trigger] extras@[j]@ == ev[i + j],
            functions@.map_values(|f: Function| f@) == start + ev.take(i),
        decreases extras@.len(),
    {
        let ghost before = extras@;
        let ghost fs0 = functions@;
        let g = extras.remove(0);
        proof {
            assert(g@ == ev[i]);
            assert forall|j: int| 0 <= j < extras@.len() implies #[trigger] extras@[j]@ == ev[i + 1 + j] by {
                assert(extras@[j] == before[j + 1]);
            }
        }
        functions.push(g);
        proof {
            assert(functions@.map_values(|f: Function| f@) =~= fs0.map_values(|f: Function| f@).push(ev[i]));
            assert(ev.take(i + 1) =~= ev.take(i).push(ev[i]));
            assert(start + ev.take(i + 1) =~= (start + ev.take(i)).push(ev[i]));
            i = i + 1;
        }
    }
    assert(ev.take(i) =~= ev);
    let bare = Function { name, params, ret_type, blocks, entry_block, extra_functions: Vec::new() };
    let ghost fs1 = functions@;
    functions.push(bare);
    proof {
        assert(bare@.extra_functions =~= Seq::<FunctionV>::empty());
        assert(bare@ == (FunctionV { extra_functions: seq![], ..fv }));
        assert(functions@.map_values(|f: Function| f@) =~= fs1.map_values(|f: Function| f@).push(bare@));
        assert(start + hoisted(fv) =~= (start + ev).push(bare@));
    }
}

// ============================================================================
// LAWS: LAMBDA NAMES
// ============================================================================

proof fn lemma_nat_text_len(n: nat)
    ensures
        nat_text(n).len() >= 1,
        n >= 10 ==> nat_text(n).len() >= 2,
    decreases n,
{
    if n >= 10 {
        lemma_nat_text_len(n / 10);
    }
}

proof fn lemma_nat_text_injective(a: nat, b: nat)
    requires
        nat_text(a) == nat_text(b),
    ensures
        a == b,
    decreases a,
{
    lemma_nat_text_len(a);
    lemma_nat_text_len(b);
    if a >= 10 && b >= 10 {
        let ta = nat_text(a / 10);
        let tb = nat_text(b / 10);
        assert(nat_text(a).drop_last() =~= ta);
        assert(nat_text(b).drop_last() =~= tb);
        assert(nat_text(a).last() == crate::text::digit_char((a % 10) as nat));
        assert(nat_text(b).last() == crate::text::digit_char((b % 10) as nat));
        lemma_nat_text_injective(a / 10, b / 10);
        lemma_digit_injective((a % 10) as nat, (b % 10) as nat);
    } else if a < 10 && b < 10 {
        assert(nat_text(a) == seq![crate::text::digit_char(a)]);
        assert(nat_text(b) == seq![crate::text::digit_char(b)]);
        assert(seq![crate::text::digit_char(a)][0] == crate::text::digit_char(a));
        assert(seq![crate::text::digit_char(b)][0] == crate::text::digit_char(b));
        assert(nat_text(a)[0] == nat_text(b)[0]);
        lemma_digit_injective(a, b);
    } else {
        assert(nat_text(a).len() != nat_text(b).len());
    }
}

/// Distinct lambda numbers give distinct lambda names.
pub proof fn law_lambda_names_distinct(a: nat, b: nat)
    ensures
        a != b ==> lambda_name(a) != lambda_name(b),
{
    if lambda_name(a) == lambda_name(b) {
        let p = "lambda_"@;
        assert(lambda_name(a).subrange(p.len() as int, lambda_name(a).len() as int) =~= nat_text(a));
        assert(lambda_name(b).subrange(p.len() as int, lambda_name(b).len() as int) =~= nat_text(b));
        lemma_nat_text_injective(a, b);
    }
}

/// Whether `name` is the name of a lambda numbered in `lo..hi`.
pub open spec fn names_lambda_in(name: Seq<char>, lo: nat, hi: nat) -> bool {
    exists|n: nat| lo <= n < hi && name == #[trigger] lambda_name(n)
}

/// Whether the functions `xs` have pairwise distinct names, each the name of a
/// lambda numbered in `lo..hi`.
pub open spec fn distinct_lambda_names(xs: Seq<FunctionV>, lo: nat, hi: nat) -> bool {
    &&& forall|k: int| 0 <= k < xs.len() ==> names_lambda_in(#[trigger] xs[k].name, lo, hi)
    &&& forall|j: int, k: int|
        #![trigger xs[j], xs[k]]
        0 <= j < xs.len() && 0 <= k < xs.len() && j != k ==> xs[j].name != xs[k].name
}

/// Whether the lambdas generated for `f` have pairwise distinct names, each
/// the name of a number in `lo..hi`.
pub open spec fn lambdas_named(f: FunctionV, lo: nat, hi: nat) -> bool {
    distinct_lambda_names(f.extra_functions, lo, hi)
}

proof fn lemma_digit_injective(x: nat, y: nat)
    requires
        x < 10,
        y < 10,
        crate::text::digit_char(x) == crate::text::digit_char(y),
    ensures
        x == y,
{
}

proof fn lemma_named_push(f: FunctionV, lo: nat, c: nat, g: FunctionV, hi: nat)
    requires
        lambdas_named(f, lo, c),
        lo <= c < hi,
        g.name == lambda_name(c),
    ensures
        lambdas_named(FunctionV { extra_functions: f.extra_functions.push(g), ..f }, lo, hi),
{
    let f2 = FunctionV { extra_functions: f.extra_functions.push(g), ..f };
    let xs = f2.extra_functions;
    let n0 = f.extra_functions.len();
    assert forall|k: int| 0 <= k < xs.len() implies names_lambda_in(#[trigger] xs[k].name, lo, hi) by {
        if k < n0 {
            assert(xs[k] == f.extra_functions[k]);
            assert(names_lambda_in(f.extra_functions[k].name, lo, c));
            let n = choose|n: nat| lo <= n < c && f.extra_functions[k].name == #[trigger] lambda_name(n);
            assert(lo <= n < hi && xs[k].name == lambda_name(n));
        } else {
            assert(xs[k] == g);
            assert(lo <= c < hi && xs[k].name == lambda_name(c));
        }
    }
    assert forall|j: int, k: int| #![trigger xs[j], xs[k]] 0 <= j < xs.len() && 0 <= k < xs.len() && j != k implies xs[j].name != xs[k].name by {
        if j < n0 && k < n0 {
            assert(xs[j] == f.extra_functions[j]);
            assert(xs[k] == f.extra_functions[k]);
        } else if j < n0 {
            assert(xs[j] == f.extra_functions[j]);
            assert(names_lambda_in(f.extra_functions[j].name, lo, c));
            let n = choose|n: nat| lo <= n < c && f.extra_functions[j].name == #[trigger] lambda_name(n);
            law_lambda_names_distinct(n, c);
        } else if k < n0 {
            assert(xs[k] == f.extra_functions[k]);
            assert(names_lambda_in(f.extra_functions[k].name, lo, c));
            let n = choose|n: nat| lo <= n < c && f.extra_functions[k].name == #[trigger] lambda_name(n);
            law_lambda_names_distinct(n, c);
        }
    }
}

/// Lowering never lowers the lambda counter, and the lambdas it generates get
/// pairwise distinct names, numbered from the counter it starts with up.
#[verifier::spinoff_prover]
#[verifier::rlimit(80)]
pub proof fn law_lambdas_fresh(f: FunctionV, c: nat, e: Expr, lo: nat)
    requires
        lambdas_named(f, lo, c),
        lo <= c,
    ensures
        lower(f, c, e) matches Some((f1, c1)) ==> c <= c1 && lambdas_named(f1, lo, c1) && f1.name == f.name,
    decreases e, 1nat,
{
    match e {
        Expr::App(..) => lemma_call_lambdas(f, c, e, lo),
        Expr::AppExpr(..) => lemma_call_lambdas(f, c, e, lo),
        Expr::FfiCall { .. } => lemma_call_lambdas(f, c, e, lo),
        Expr::Let { .. } | Expr::For { .. } => lemma_bind_lambdas(f, c, e, lo),
        Expr::Send { .. } => lemma_send_lambdas(f, c, e, lo),
        Expr::Cond(..) | Expr::Match { .. } => lemma_branch_lambdas(f, c, e, lo),
        Expr::If { .. } => lemma_if_lambdas(f, c, e, lo),
        Expr::TryCatch { .. } => lemma_try_lambdas(f, c, e, lo),
        Expr::Fn { .. } => lemma_fn_lambdas(f, c, e, lo),
        Expr::While { .. } => lemma_while_lambdas(f, c, e, lo),
        Expr::Spawn(body) => {
            lemma_value_lambdas(f, c, *body, lo);
        },
        Expr::Assert { condition, .. } => {
            lemma_value_lambdas(f, c, *condition, lo);
        },
        Expr::Export(body) => law_lambdas_fresh(f, c, *body, lo),
        Expr::Pub(body) => law_lambdas_fresh(f, c, *body, lo),
        Expr::Ensures { body, .. } => law_lambdas_fresh(f, c, *body, lo),
        Expr::Recover { body, .. } => law_lambdas_fresh(f, c, *body, lo),
        Expr::Checkpoint(body) => law_lambdas_fresh(f, c, *body, lo),
        Expr::Begin(exprs) => lemma_all_lambdas(f, c, exprs@, exprs@.len(), lo),
        Expr::Defn { params, .. } => lemma_param_consts_keep(f, params@.len()),
        _ => {},
    }
}

proof fn lemma_param_consts_keep(f: FunctionV, n: nat)
    ensures
        param_consts(f, n).0.extra_functions == f.extra_functions,
        param_consts(f, n).0.name == f.name,
    decreases n,
{
    if n > 0 {
        lemma_param_consts_keep(f, (n - 1) as nat);
    }
}

proof fn lemma_call_lambdas(f: FunctionV, c: nat, e: Expr, lo: nat)
    requires
        lambdas_named(f, lo, c),
        lo <= c,
        e is App || e is AppExpr || e is FfiCall,
    ensures
        lower(f, c, e) matches Some((f1, c1)) ==> c <= c1 && lambdas_named(f1, lo, c1) && f1.name == f.name,
    decreases e, 0nat,
{
    match e {
        Expr::App(op, args) => {
            lemma_args_lambdas(f, c, args@, args@.len(), lo);
        },
        Expr::AppExpr(operator, args) => {
            lemma_value_lambdas(f, c, *operator, lo);
            if let Some((f1, c1, fv)) = lower_value(f, c, *operator) {
                lemma_args_lambdas(f1, c1, args@, args@.len(), lo);
            }
        },
        Expr::FfiCall { args, .. } => {
            lemma_args_lambdas(f, c, args@, args@.len(), lo);
        },
        _ => {},
    }
}

proof fn lemma_bind_lambdas(f: FunctionV, c: nat, e: Expr, lo: nat)
    requires
        lambdas_named(f, lo, c),
        lo <= c,
        e is Let || e is For,
    ensures
        lower(f, c, e) matches Some((f1, c1)) ==> c <= c1 && lambdas_named(f1, lo, c1) && f1.name == f.name,
    decreases e, 0nat,
{
    match e {
        Expr::Let { value, body, name } => {
            lemma_value_lambdas(f, c, *value, lo);
            if let Some((f1, c1, v)) = lower_value(f, c, *value) {
                law_lambdas_fresh(
                    f1.push_instr(InstrV::Store { name: name@, value: v, region: Region::Stack }),
                    c1,
                    *body,
                    lo,
                );
            }
        },
        Expr::For { name, iterator, body } => {
            lemma_value_lambdas(f, c, *iterator, lo);
            if let Some((f1, c1, v)) = lower_value(f, c, *iterator) {
                law_lambdas_fresh(
                    f1.push_instr(InstrV::Store { name: name@, value: v, region: Region::Stack }),
                    c1,
                    *body,
                    lo,
                );
            }
        },
        _ => {},
    }
}

proof fn lemma_send_lambdas(f: FunctionV, c: nat, e: Expr, lo: nat)
    requires
        lambdas_named(f, lo, c),
        lo <= c,
        e is Send,
    ensures
        lower(f, c, e) matches Some((f1, c1)) ==> c <= c1 && lambdas_named(f1, lo, c1) && f1.name == f.name,
    decreases e, 0nat,
{
    match e {
        Expr::Send { target, message } => {
            lemma_value_lambdas(f, c, *target, lo);
            if let Some((f1, c1, tv)) = lower_value(f, c, *target) {
                lemma_value_lambdas(f1, c1, *message, lo);
            }
        },
        _ => {},
    }
}

proof fn lemma_branch_lambdas(f: FunctionV, c: nat, e: Expr, lo: nat)
    requires
        lambdas_named(f, lo, c),
        lo <= c,
        e is Cond || e is Match,
    ensures
        lower(f, c, e) matches Some((f1, c1)) ==> c <= c1 && lambdas_named(f1, lo, c1) && f1.name == f.name,
    decreases e, 0nat,
{
    match e {
        Expr::Cond(clauses) => {
            if clauses@.len() > 0 {
                lemma_clauses_lambdas(f.add_block(), c, clauses@, clauses@.len(), next_label(f, 0), lo);
            }
        },
        Expr::Match { scrutinee, clauses } => {
            lemma_value_lambdas(f, c, *scrutinee, lo);
            if let Some((f1, c1, sv)) = lower_value(f, c, *scrutinee) {
                lemma_match_lambdas(f1.add_block(), c1, clauses@, clauses@.len(), sv, next_label(f1, 0), lo);
            }
        },
        _ => {},
    }
}

/// The lambdas generated while lowering a function body from counter `c` to
/// counter `c1` have pairwise distinct names `lambda_c` .. `lambda_(c1 - 1)`.
pub proof fn law_function_lambdas_distinct(start: FunctionV, c: nat, body: Expr)
    requires
        start.extra_functions.len() == 0,
    ensures
        lowered_function(start, c, body) matches Some((g, c1)) ==> c <= c1 && distinct_lambda_names(
            g.extra_functions,
            c,
            c1,
        ),
{
    assert(lambdas_named(start, c, c));
    law_lambdas_fresh(start, c, body, c);
}

proof fn lemma_if_lambdas(f: FunctionV, c: nat, e: Expr, lo: nat)
    requires
        lambdas_named(f, lo, c),
        lo <= c,
        e is If,
    ensures
        lower(f, c, e) matches Some((f1, c1)) ==> c <= c1 && lambdas_named(f1, lo, c1) && f1.name == f.name,
    decreases e, 0nat,
{
    match e {
        Expr::If { cond, then_branch, else_branch } => {
            lemma_value_lambdas(f, c, *cond, lo);
            if let Some((f1, c1, cv)) = lower_value(f, c, *cond) {
                let t = next_label(f1, 0);
                let el = next_label(f1, 1);
                let m = next_label(f1, 2);
                let f2 = f1.add_block().add_block().add_block().push_instr(
                    InstrV::CondBranch { cond: cv, then_block: t, else_block: el },
                ).relabel_last(t);
                lemma_value_lambdas(f2, c1, *then_branch, lo);
                if let Some((f3, c3, tv)) = lower_value(f2, c1, *then_branch) {
                    let f4 = f3.push_instr(InstrV::Branch { cond: tv, then_block: m, else_block: m }).add_block();
                    lemma_value_lambdas(f4, c3, *else_branch, lo);
                }
            }
        },
        _ => {},
    }
}

proof fn lemma_try_lambdas(f: FunctionV, c: nat, e: Expr, lo: nat)
    requires
        lambdas_named(f, lo, c),
        lo <= c,
        e is TryCatch,
    ensures
        lower(f, c, e) matches Some((f1, c1)) ==> c <= c1 && lambdas_named(f1, lo, c1) && f1.name == f.name,
    decreases e, 0nat,
{
    match e {
        Expr::TryCatch { body, handler, .. } => {
            let t = next_label(f, 0);
            let m = next_label(f, 2);
            let f1 = f.add_block().add_block().add_block().relabel_last(t);
            law_lambdas_fresh(f1, c, *body, lo);
            if let Some((f2, c2)) = lower(f1, c, *body) {
                law_lambdas_fresh(f2.push_instr(jump_to(m, m)).add_block(), c2, *handler, lo);
            }
        },
        _ => {},
    }
}

proof fn lemma_fn_lambdas(f: FunctionV, c: nat, e: Expr, lo: nat)
    requires
        lambdas_named(f, lo, c),
        lo <= c,
        e is Fn,
    ensures
        lower(f, c, e) matches Some((f1, c1)) ==> c <= c1 && lambdas_named(f1, lo, c1) && f1.name == f.name,
    decreases e, 0nat,
{
    match e {
        Expr::Fn { params, body } => {
            if c < usize::MAX {
                let name = lambda_name(c);
                let start = crate::ir::new_function_view(name, lambda_params(params@), IrType::Int);
                law_lambdas_fresh(start, c + 1, *body, c + 1);
                if let Some((lf, c1)) = lower(start, c + 1, *body) {
                    lemma_named_push(f, lo, c, finish_function(lf), c1);
                }
            }
        },
        _ => {},
    }
}

proof fn lemma_while_lambdas(f: FunctionV, c: nat, e: Expr, lo: nat)
    requires
        lambdas_named(f, lo, c),
        lo <= c,
        e is While,
    ensures
        lower(f, c, e) matches Some((f1, c1)) ==> c <= c1 && lambdas_named(f1, lo, c1) && f1.name == f.name,
    decreases e, 0nat,
{
    match e {
        Expr::While { condition, body } => {
            let s = next_label(f, 0);
            let en = next_label(f, 1);
            lemma_value_lambdas(f.add_block().add_block().relabel_last(s), c, *condition, lo);
            if let Some((f1, c1, cv)) = lower_value(f.add_block().add_block().relabel_last(s), c, *condition) {
                law_lambdas_fresh(
                    f1.push_instr(InstrV::CondBranch { cond: cv, then_block: s, else_block: en }),
                    c1,
                    *body,
                    lo,
                );
            }
        },
        _ => {},
    }
}

proof fn lemma_value_lambdas(f: FunctionV, c: nat, e: Expr, lo: nat)
    requires
        lambdas_named(f, lo, c),
        lo <= c,
    ensures
        lower_value(f, c, e) matches Some((f1, c1, v)) ==> c <= c1 && lambdas_named(f1, lo, c1) && f1.name == f.name,
    decreases e, 2nat,
{
    law_lambdas_fresh(f, c, e, lo);
}

proof fn lemma_args_lambdas(f: FunctionV, c: nat, es: Seq<Expr>, k: nat, lo: nat)
    requires
        lambdas_named(f, lo, c),
        lo <= c,
    ensures
        lower_args(f, c, es, k) matches Some((f1, c1, vals)) ==> c <= c1 && lambdas_named(f1, lo, c1) && f1.name == f.name,
    decreases es, k,
{
    if k > 0 && k <= es.len() {
        lemma_args_lambdas(f, c, es, (k - 1) as nat, lo);
        if let Some((f1, c1, vals)) = lower_args(f, c, es, (k - 1) as nat) {
            lemma_value_lambdas(f1, c1, es[k - 1], lo);
        }
    }
}

proof fn lemma_all_lambdas(f: FunctionV, c: nat, es: Seq<Expr>, k: nat, lo: nat)
    requires
        lambdas_named(f, lo, c),
        lo <= c,
    ensures
        lower_all(f, c, es, k) matches Some((f1, c1)) ==> c <= c1 && lambdas_named(f1, lo, c1) && f1.name == f.name,
    decreases es, k,
{
    if k > 0 && k <= es.len() {
        lemma_all_lambdas(f, c, es, (k - 1) as nat, lo);
        if let Some((f1, c1)) = lower_all(f, c, es, (k - 1) as nat) {
            law_lambdas_fresh(f1, c1, es[k - 1], lo);
        }
    }
}

proof fn lemma_clauses_lambdas(f: FunctionV, c: nat, cl: Seq<(Expr, Expr)>, k: nat, merge: BlockId, lo: nat)
    requires
        lambdas_named(f, lo, c),
        lo <= c,
    ensures
        lower_clauses(f, c, cl, k, merge) matches Some((f1, c1)) ==> c <= c1 && lambdas_named(f1, lo, c1) && f1.name == f.name,
    decreases cl, k,
{
    if k > 0 && k <= cl.len() {
        lemma_clauses_lambdas(f, c, cl, (k - 1) as nat, merge, lo);
        if let Some((f1, c1)) = lower_clauses(f, c, cl, (k - 1) as nat, merge) {
            lemma_value_lambdas(f1, c1, cl[k - 1].0, lo);
            if let Some((f2, c2, cv)) = lower_value(f1, c1, cl[k - 1].0) {
                if k != cl.len() {
                    let next = next_label(f2, 0);
                    law_lambdas_fresh(
                        f2.add_block().push_instr(InstrV::CondBranch { cond: cv, then_block: next, else_block: merge }),
                        c2,
                        cl[k - 1].1,
                        lo,
                    );
                }
            }
        }
    }
}

proof fn lemma_match_lambdas(f: FunctionV, c: nat, cl: Seq<MatchClause>, k: nat, sv: SsaValue, merge: BlockId, lo: nat)
    requires
        lambdas_named(f, lo, c),
        lo <= c,
    ensures
        lower_match(f, c, cl, k, sv, merge) matches Some((f1, c1)) ==> c <= c1 && lambdas_named(f1, lo, c1) && f1.name == f.name,
    decreases cl, k,
{
    if k > 0 && k <= cl.len() {
        lemma_match_lambdas(f, c, cl, (k - 1) as nat, sv, merge, lo);
        if let Some((f1, c1)) = lower_match(f, c, cl, (k - 1) as nat, sv, merge) {
            if k != cl.len() {
                let next = next_label(f1, 0);
                law_lambdas_fresh(
                    f1.add_block().push_instr(InstrV::Branch { cond: sv, then_block: next, else_block: merge }),
                    c1,
                    *cl[k - 1].body,
                    lo,
                );
            }
        }
    }
}

// ============================================================================
// LAWS: SHAPE
// ============================================================================

pub(crate) proof fn lemma_start_shape(name: Seq<char>, params: Seq<(Seq<char>, IrType)>, ret: IrType)
    ensures
        well_lowered(crate::ir::new_function_view(name, params, ret)),
{
    let f = crate::ir::new_function_view(name, params, ret);
    assert(f.blocks[0].instructions.len() == 0);
}

proof fn lemma_param_consts_shape(f: FunctionV, n: nat)
    requires
        well_lowered(f),
        f.blocks.len() > 0,
    ensures
        well_lowered(param_consts(f, n).0),
        param_consts(f, n).0.blocks.len() == f.blocks.len(),
    decreases n,
{
    if n > 0 {
        lemma_param_consts_shape(f, (n - 1) as nat);
        let f1 = param_consts(f, (n - 1) as nat).0;
        lemma_push_shape(f1, InstrV::Const { value: IrValueV::Int((n - 1) as i64), dest: next_value(f1) });
    }
}

proof fn lemma_finish_shape(f: FunctionV)
    requires
        well_lowered(f),
        f.blocks.len() > 0,
    ensures
        well_lowered(finish_function(f)),
        finish_function(f).blocks.len() == f.blocks.len(),
{
    lemma_push_shape(f, InstrV::Return { value: last_value(f) });
}

/// Lowering keeps the shape that dead-block elimination needs: the entry
/// block of the function, and of each lambda it generates, holds no jump, and
/// every closure fits the machine; blocks are only added.
#[verifier::spinoff_prover]
pub proof fn law_lowering_keeps_shape(f: FunctionV, c: nat, e: Expr)
    requires
        well_lowered(f),
        f.blocks.len() > 0,
    ensures
        lower(f, c, e) matches Some((f1, c1)) ==> well_lowered(f1) && f1.blocks.len() >= f.blocks.len(),
    decreases e, 1nat,
{
    match e {
        Expr::Atom(k) => lemma_push_shape(f, atom_instr(k, next_value(f))),
        Expr::App(..) => lemma_call_shape(f, c, e),
        Expr::AppExpr(..) => lemma_call_shape(f, c, e),
        Expr::FfiCall { .. } => lemma_call_shape(f, c, e),
        Expr::If { .. } => lemma_if_shape(f, c, e),
        Expr::Defn { name, params, .. } => {
            lemma_param_consts_shape(f, params@.len());
            let (f1, vals) = param_consts(f, params@.len());
            lemma_push_shape(f1, InstrV::Call { func: IrValueV::FuncRef(name@), args: vals, dest: next_value(f1) });
        },
        Expr::Let { .. } | Expr::For { .. } | Expr::Spawn(_) | Expr::Send { .. } | Expr::Assert { .. } => lemma_value_use_shape(f, c, e),
        Expr::TryCatch { .. } => lemma_try_shape(f, c, e),
        Expr::Fn { .. } => lemma_fn_shape(f, c, e),
        Expr::While { .. } => lemma_while_shape(f, c, e),
        Expr::Cond(..) | Expr::Match { .. } => lemma_branch_shape(f, c, e),
        Expr::Export(body) => law_lowering_keeps_shape(f, c, *body),
        Expr::Pub(body) => law_lowering_keeps_shape(f, c, *body),
        Expr::Ensures { body, .. } => law_lowering_keeps_shape(f, c, *body),
        Expr::Recover { body, .. } => law_lowering_keeps_shape(f, c, *body),
        Expr::Checkpoint(body) => law_lowering_keeps_shape(f, c, *body),
        Expr::Begin(exprs) => lemma_all_shape(f, c, exprs@, exprs@.len()),
        Expr::Deftype { .. } | Expr::TraitDecl { .. } | Expr::Impl { .. } | Expr::Use { .. }
        | Expr::Requires(_) | Expr::Invariant(_) | Expr::Contracts(_) => {},
        _ => lemma_push_shape(f, unit_instr(f)),
    }
}

proof fn lemma_value_shape(f: FunctionV, c: nat, e: Expr)
    requires
        well_lowered(f),
        f.blocks.len() > 0,
    ensures
        lower_value(f, c, e) matches Some((f1, c1, v)) ==> well_lowered(f1) && f1.blocks.len() >= f.blocks.len(),
    decreases e, 2nat,
{
    law_lowering_keeps_shape(f, c, e);
}

proof fn lemma_call_shape(f: FunctionV, c: nat, e: Expr)
    requires
        well_lowered(f),
        f.blocks.len() > 0,
        e is App || e is AppExpr || e is FfiCall,
    ensures
        lower(f, c, e) matches Some((f1, c1)) ==> well_lowered(f1) && f1.blocks.len() >= f.blocks.len(),
    decreases e, 0nat,
{
    match e {
        Expr::App(op, args) => {
            lemma_args_shape(f, c, args@, args@.len());
            if let Some((f1, c1, vals)) = lower_args(f, c, args@, args@.len()) {
                if is_builtin(op@) {
                    if vals.len() == 2 {
                        lemma_push_shape(f1, InstrV::BinOp {
                            op: builtin_binop(op@),
                            left: vals[0],
                            right: vals[1],
                            dest: next_value(f1),
                        });
                    }
                } else {
                    lemma_push_shape(f1, InstrV::Call { func: IrValueV::FuncRef(op@), args: vals, dest: next_value(f1) });
                }
            }
        },
        Expr::AppExpr(operator, args) => {
            lemma_value_shape(f, c, *operator);
            if let Some((f1, c1, fv)) = lower_value(f, c, *operator) {
                lemma_args_shape(f1, c1, args@, args@.len());
                if let Some((f2, c2, vals)) = lower_args(f1, c1, args@, args@.len()) {
                    lemma_push_shape(f2, InstrV::CallIndirect { func: fv, args: vals, dest: next_value(f2) });
                }
            }
        },
        Expr::FfiCall { name, args, timeout_ms } => {
            lemma_args_shape(f, c, args@, args@.len());
            if let Some((f1, c1, vals)) = lower_args(f, c, args@, args@.len()) {
                lemma_push_shape(f1, InstrV::FfiCall { name: name@, args: vals, timeout_ms, dest: next_value(f1) });
            }
        },
        _ => {},
    }
}

proof fn lemma_value_use_shape(f: FunctionV, c: nat, e: Expr)
    requires
        well_lowered(f),
        f.blocks.len() > 0,
        e is Let || e is For || e is Spawn || e is Send || e is Assert,
    ensures
        lower(f, c, e) matches Some((f1, c1)) ==> well_lowered(f1) && f1.blocks.len() >= f.blocks.len(),
    decreases e, 0nat,
{
    match e {
        Expr::Let { name, value, body } => {
            lemma_value_shape(f, c, *value);
            if let Some((f1, c1, v)) = lower_value(f, c, *value) {
                let i = InstrV::Store { name: name@, value: v, region: Region::Stack };
                lemma_push_shape(f1, i);
                law_lowering_keeps_shape(f1.push_instr(i), c1, *body);
            }
        },
        Expr::For { name, iterator, body } => {
            lemma_value_shape(f, c, *iterator);
            if let Some((f1, c1, v)) = lower_value(f, c, *iterator) {
                let i = InstrV::Store { name: name@, value: v, region: Region::Stack };
                lemma_push_shape(f1, i);
                law_lowering_keeps_shape(f1.push_instr(i), c1, *body);
            }
        },
        Expr::Spawn(body) => {
            lemma_value_shape(f, c, *body);
            if let Some((f1, c1, v)) = lower_value(f, c, *body) {
                lemma_push_shape(f1, InstrV::Spawn { body: v, dest: next_value(f1) });
            }
        },
        Expr::Send { target, message } => {
            lemma_value_shape(f, c, *target);
            if let Some((f1, c1, tv)) = lower_value(f, c, *target) {
                lemma_value_shape(f1, c1, *message);
                if let Some((f2, c2, mv)) = lower_value(f1, c1, *message) {
                    lemma_push_shape(f2, InstrV::Send { target: tv, message: mv });
                }
            }
        },
        Expr::Assert { condition, message } => {
            lemma_value_shape(f, c, *condition);
            if let Some((f1, c1, v)) = lower_value(f, c, *condition) {
                lemma_push_shape(f1, InstrV::Assert { condition: v, message: message@ });
            }
        },
        _ => {},
    }
}

proof fn lemma_if_shape(f: FunctionV, c: nat, e: Expr)
    requires
        well_lowered(f),
        f.blocks.len() > 0,
        e is If,
    ensures
        lower(f, c, e) matches Some((f1, c1)) ==> well_lowered(f1) && f1.blocks.len() >= f.blocks.len(),
    decreases e, 0nat,
{
    match e {
        Expr::If { cond, then_branch, else_branch } => {
            lemma_value_shape(f, c, *cond);
            if let Some((f1, c1, cv)) = lower_value(f, c, *cond) {
                let t = next_label(f1, 0);
                let el = next_label(f1, 1);
                let m = next_label(f1, 2);
                let a1 = f1.add_block();
                let a2 = a1.add_block();
                let a3 = a2.add_block();
                lemma_add_block_shape(f1);
                lemma_add_block_shape(a1);
                lemma_add_block_shape(a2);
                let br = InstrV::CondBranch { cond: cv, then_block: t, else_block: el };
                lemma_push_shape(a3, br);
                lemma_relabel_shape(a3.push_instr(br), t);
                let f2 = a3.push_instr(br).relabel_last(t);
                lemma_value_shape(f2, c1, *then_branch);
                if let Some((f3, c3, tv)) = lower_value(f2, c1, *then_branch) {
                    let j = InstrV::Branch { cond: tv, then_block: m, else_block: m };
                    lemma_push_shape(f3, j);
                    lemma_add_block_shape(f3.push_instr(j));
                    let f4 = f3.push_instr(j).add_block();
                    lemma_value_shape(f4, c3, *else_branch);
                    if let Some((f5, c5, ev)) = lower_value(f4, c3, *else_branch) {
                        let j2 = InstrV::Branch { cond: ev, then_block: m, else_block: m };
                        lemma_push_shape(f5, j2);
                        lemma_relabel_shape(f5.push_instr(j2), m);
                        let f6 = f5.push_instr(j2).relabel_last(m);
                        lemma_push_shape(f6, InstrV::Phi { inputs: seq![(t, tv), (el, ev)], dest: next_value(f6) });
                    }
                }
            }
        },
        _ => {},
    }
}

proof fn lemma_try_shape(f: FunctionV, c: nat, e: Expr)
    requires
        well_lowered(f),
        f.blocks.len() > 0,
        e is TryCatch,
    ensures
        lower(f, c, e) matches Some((f1, c1)) ==> well_lowered(f1) && f1.blocks.len() >= f.blocks.len(),
    decreases e, 0nat,
{
    match e {
        Expr::TryCatch { body, handler, .. } => {
            let t = next_label(f, 0);
            let m = next_label(f, 2);
            let a1 = f.add_block();
            let a2 = a1.add_block();
            let a3 = a2.add_block();
            lemma_add_block_shape(f);
            lemma_add_block_shape(a1);
            lemma_add_block_shape(a2);
            lemma_relabel_shape(a3, t);
            let f1 = a3.relabel_last(t);
            law_lowering_keeps_shape(f1, c, *body);
            if let Some((f2, c2)) = lower(f1, c, *body) {
                lemma_push_shape(f2, jump_to(m, m));
                lemma_add_block_shape(f2.push_instr(jump_to(m, m)));
                let f3 = f2.push_instr(jump_to(m, m)).add_block();
                law_lowering_keeps_shape(f3, c2, *handler);
                if let Some((f4, c4)) = lower(f3, c2, *handler) {
                    lemma_push_shape(f4, jump_to(m, m));
                    lemma_relabel_shape(f4.push_instr(jump_to(m, m)), m);
                }
            }
        },
        _ => {},
    }
}

proof fn lemma_fn_shape(f: FunctionV, c: nat, e: Expr)
    requires
        well_lowered(f),
        f.blocks.len() > 0,
        e is Fn,
    ensures
        lower(f, c, e) matches Some((f1, c1)) ==> well_lowered(f1) && f1.blocks.len() >= f.blocks.len(),
    decreases e, 0nat,
{
    match e {
        Expr::Fn { params, body } => {
            if c < usize::MAX {
                let name = lambda_name(c);
                let start = crate::ir::new_function_view(name, lambda_params(params@), IrType::Int);
                lemma_start_shape(name, lambda_params(params@), IrType::Int);
                law_lowering_keeps_shape(start, c + 1, *body);
                if let Some((lf, c1)) = lower(start, c + 1, *body) {
                    lemma_finish_shape(lf);
                    let g = finish_function(lf);
                    let f1 = FunctionV { extra_functions: f.extra_functions.push(g), ..f };
                    assert forall|k: int| 0 <= k < f1.extra_functions.len() implies lowered_shape(
                        #[trigger] f1.extra_functions[k],
                    ) by {
                        if k < f.extra_functions.len() {
                            assert(f1.extra_functions[k] == f.extra_functions[k]);
                        }
                    }
                    assert(well_lowered(f1));
                    lemma_push_shape(f1, InstrV::ClosureCreate { func_name: name, env_values: seq![], dest: next_value(f1) });
                }
            }
        },
        _ => {},
    }
}

proof fn lemma_while_shape(f: FunctionV, c: nat, e: Expr)
    requires
        well_lowered(f),
        f.blocks.len() > 0,
        e is While,
    ensures
        lower(f, c, e) matches Some((f1, c1)) ==> well_lowered(f1) && f1.blocks.len() >= f.blocks.len(),
    decreases e, 0nat,
{
    match e {
        Expr::While { condition, body } => {
            let s = next_label(f, 0);
            let en = next_label(f, 1);
            let a1 = f.add_block();
            let a2 = a1.add_block();
            lemma_add_block_shape(f);
            lemma_add_block_shape(a1);
            lemma_relabel_shape(a2, s);
            let f0 = a2.relabel_last(s);
            lemma_value_shape(f0, c, *condition);
            if let Some((f1, c1, cv)) = lower_value(f0, c, *condition) {
                let br = InstrV::CondBranch { cond: cv, then_block: s, else_block: en };
                lemma_push_shape(f1, br);
                law_lowering_keeps_shape(f1.push_instr(br), c1, *body);
                if let Some((f2, c2)) = lower(f1.push_instr(br), c1, *body) {
                    lemma_push_shape(f2, jump_to(s, en));
                    lemma_add_block_shape(f2.push_instr(jump_to(s, en)));
                }
            }
        },
        _ => {},
    }
}

proof fn lemma_branch_shape(f: FunctionV, c: nat, e: Expr)
    requires
        well_lowered(f),
        f.blocks.len() > 0,
        e is Cond || e is Match,
    ensures
        lower(f, c, e) matches Some((f1, c1)) ==> well_lowered(f1) && f1.blocks.len() >= f.blocks.len(),
    decreases e, 0nat,
{
    match e {
        Expr::Cond(clauses) => {
            if clauses@.len() == 0 {
                lemma_push_shape(f, unit_instr(f));
            } else {
                lemma_add_block_shape(f);
                lemma_clauses_shape(f.add_block(), c, clauses@, clauses@.len(), next_label(f, 0));
                if let Some((f1, c1)) = lower_clauses(f.add_block(), c, clauses@, clauses@.len(), next_label(f, 0)) {
                    lemma_add_block_shape(f1);
                }
            }
        },
        Expr::Match { scrutinee, clauses } => {
            lemma_value_shape(f, c, *scrutinee);
            if let Some((f1, c1, sv)) = lower_value(f, c, *scrutinee) {
                lemma_add_block_shape(f1);
                lemma_match_shape(f1.add_block(), c1, clauses@, clauses@.len(), sv, next_label(f1, 0));
                if let Some((f2, c2)) = lower_match(f1.add_block(), c1, clauses@, clauses@.len(), sv, next_label(f1, 0)) {
                    lemma_add_block_shape(f2);
                }
            }
        },
        _ => {},
    }
}

proof fn lemma_args_shape(f: FunctionV, c: nat, es: Seq<Expr>, k: nat)
    requires
        well_lowered(f),
        f.blocks.len() > 0,
    ensures
        lower_args(f, c, es, k) matches Some((f1, c1, vals)) ==> well_lowered(f1) && f1.blocks.len() >= f.blocks.len(),
    decreases es, k,
{
    if k > 0 && k <= es.len() {
        lemma_args_shape(f, c, es, (k - 1) as nat);
        if let Some((f1, c1, vals)) = lower_args(f, c, es, (k - 1) as nat) {
            lemma_value_shape(f1, c1, es[k - 1]);
        }
    }
}

proof fn lemma_all_shape(f: FunctionV, c: nat, es: Seq<Expr>, k: nat)
    requires
        well_lowered(f),
        f.blocks.len() > 0,
    ensures
        lower_all(f, c, es, k) matches Some((f1, c1)) ==> well_lowered(f1) && f1.blocks.len() >= f.blocks.len(),
    decreases es, k,
{
    if k > 0 && k <= es.len() {
        lemma_all_shape(f, c, es, (k - 1) as nat);
        if let Some((f1, c1)) = lower_all(f, c, es, (k - 1) as nat) {
            law_lowering_keeps_shape(f1, c1, es[k - 1]);
        }
    }
}

proof fn lemma_clauses_shape(f: FunctionV, c: nat, cl: Seq<(Expr, Expr)>, k: nat, merge: BlockId)
    requires
        well_lowered(f),
        f.blocks.len() >= 2,
    ensures
        lower_clauses(f, c, cl, k, merge) matches Some((f1, c1)) ==> well_lowered(f1) && f1.blocks.len() >= f.blocks.len(),
    decreases cl, k,
{
    if k > 0 && k <= cl.len() {
        lemma_clauses_shape(f, c, cl, (k - 1) as nat, merge);
        if let Some((f1, c1)) = lower_clauses(f, c, cl, (k - 1) as nat, merge) {
            lemma_value_shape(f1, c1, cl[k - 1].0);
            if let Some((f2, c2, cv)) = lower_value(f1, c1, cl[k - 1].0) {
                if k == cl.len() {
                    lemma_push_shape(f2, InstrV::CondBranch { cond: cv, then_block: merge, else_block: merge });
                } else {
                    let next = next_label(f2, 0);
                    let br = InstrV::CondBranch { cond: cv, then_block: next, else_block: merge };
                    lemma_add_block_shape(f2);
                    lemma_push_shape(f2.add_block(), br);
                    law_lowering_keeps_shape(f2.add_block().push_instr(br), c2, cl[k - 1].1);
                    if let Some((f3, c3)) = lower(f2.add_block().push_instr(br), c2, cl[k - 1].1) {
                        lemma_push_shape(f3, jump_to(merge, merge));
                    }
                }
            }
        }
    }
}

proof fn lemma_match_shape(f: FunctionV, c: nat, cl: Seq<MatchClause>, k: nat, sv: SsaValue, merge: BlockId)
    requires
        well_lowered(f),
        f.blocks.len() >= 2,
    ensures
        lower_match(f, c, cl, k, sv, merge) matches Some((f1, c1)) ==> well_lowered(f1) && f1.blocks.len() >= f.blocks.len(),
    decreases cl, k,
{
    if k > 0 && k <= cl.len() {
        lemma_match_shape(f, c, cl, (k - 1) as nat, sv, merge);
        if let Some((f1, c1)) = lower_match(f, c, cl, (k - 1) as nat, sv, merge) {
            if k == cl.len() {
                lemma_push_shape(f1, InstrV::Branch { cond: sv, then_block: merge, else_block: merge });
            } else {
                let next = next_label(f1, 0);
                let br = InstrV::Branch { cond: sv, then_block: next, else_block: merge };
                lemma_add_block_shape(f1);
                lemma_push_shape(f1.add_block(), br);
                law_lowering_keeps_shape(f1.add_block().push_instr(br), c1, *cl[k - 1].body);
                if let Some((f2, c2)) = lower(f1.add_block().push_instr(br), c1, *cl[k - 1].body) {
                    lemma_push_shape(f2, jump_to(merge, merge));
                }
            }
        }
    }
}

pub(crate) proof fn lemma_lowered_function_shape(start: FunctionV, c: nat, body: Expr)
    requires
        well_lowered(start),
        start.blocks.len() > 0,
    ensures
        lowered_function(start, c, body) matches Some((g, c1)) ==> forall|j: int|
            0 <= j < hoisted(g).len() ==> lowered_shape(#[trigger] hoisted(g)[j]),
{
    law_lowering_keeps_shape(start, c, body);
    if let Some((f, c1)) = lower(start, c, body) {
        lemma_finish_shape(f);
        lemma_hoisted_shape(finish_function(f));
    }
}

} // verus!
