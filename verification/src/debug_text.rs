//! The debug text of IR values and instructions: the form that derived
//! `Debug` formatting gives them, built over their views.

use vstd::prelude::*;
use crate::ir::{BinOp, BlockId, InstrV, Instruction, IrType, IrValue, IrValueV, Region, SsaId, SsaValue, UnaryOp};
use crate::text::{int_text, join, nat_text, push_i64, push_u64, push_usize};

verus! {

// ============================================================================
// SPECIFICATION
// ============================================================================

/// The debug text of a string: quoted, with its special characters escaped.
pub uninterp spec fn str_debug_text(s: Seq<char>) -> Seq<char>;

/// A bracketed list of items, separated by `, `.
pub open spec fn list_debug(items: Seq<Seq<char>>) -> Seq<char> {
    "["@ + join(items, ", "@) + "]"@
}

/// The debug text of an SSA identifier.
pub open spec fn ssa_id_debug(id: SsaId) -> Seq<char> {
    "SsaId("@ + nat_text(id.0 as nat) + ")"@
}

/// The debug text of a block identifier.
pub open spec fn block_id_debug(id: BlockId) -> Seq<char> {
    "BlockId("@ + nat_text(id.0 as nat) + ")"@
}

/// The debug text of a region.
pub open spec fn region_debug(r: Region) -> Seq<char> {
    match r {
        Region::Stack => "Stack"@,
        Region::Heap => "Heap"@,
        Region::Pin => "Pin"@,
    }
}

/// The debug text of an SSA value.
pub open spec fn ssa_value_debug(v: SsaValue) -> Seq<char> {
    "SsaValue { id: "@ + ssa_id_debug(v.id) + ", region: "@ + region_debug(v.region) + " }"@
}

/// The debug text of a list of SSA values.
pub open spec fn ssa_values_debug(vs: Seq<SsaValue>) -> Seq<char> {
    list_debug(vs.map_values(|v: SsaValue| ssa_value_debug(v)))
}

/// The debug text of a phi input.
pub open spec fn phi_input_debug(p: (BlockId, SsaValue)) -> Seq<char> {
    "("@ + block_id_debug(p.0) + ", "@ + ssa_value_debug(p.1) + ")"@
}

/// The debug text of the inputs of a phi.
pub open spec fn phi_inputs_debug(ps: Seq<(BlockId, SsaValue)>) -> Seq<char> {
    list_debug(ps.map_values(|p: (BlockId, SsaValue)| phi_input_debug(p)))
}

/// The debug text of an optional SSA value.
pub open spec fn opt_ssa_debug(o: Option<SsaValue>) -> Seq<char> {
    match o {
        Some(v) => "Some("@ + ssa_value_debug(v) + ")"@,
        None => "None"@,
    }
}

/// The debug text of a binary operator.
pub open spec fn binop_debug(op: BinOp) -> Seq<char> {
    match op {
        BinOp::Add => "Add"@,
        BinOp::Sub => "Sub"@,
        BinOp::Mul => "Mul"@,
        BinOp::Div => "Div"@,
        BinOp::Mod => "Mod"@,
        BinOp::Eq => "Eq"@,
        BinOp::Ne => "Ne"@,
        BinOp::Lt => "Lt"@,
        BinOp::Gt => "Gt"@,
        BinOp::Le => "Le"@,
        BinOp::Ge => "Ge"@,
        BinOp::And => "And"@,
        BinOp::Or => "Or"@,
    }
}

/// The debug text of a unary operator.
pub open spec fn unaryop_debug(op: UnaryOp) -> Seq<char> {
    match op {
        UnaryOp::Neg => "Neg"@,
        UnaryOp::Not => "Not"@,
    }
}

/// The debug texts of a list of types.
pub open spec fn ir_types_debug(ts: Seq<IrType>) -> Seq<Seq<char>>
    decreases ts, 1int,
{
    Seq::new(ts.len(), |i: int| if 0 <= i < ts.len() { ir_type_debug(ts[i]) } else { seq![] })
}

/// The debug text of a type.
pub open spec fn ir_type_debug(t: IrType) -> Seq<char>
    decreases t, 0int,
{
    match t {
        IrType::Int => "Int"@,
        IrType::Float => "Float"@,
        IrType::Bool => "Bool"@,
        IrType::String => "String"@,
        IrType::Unit => "Unit"@,
        IrType::Fun(args, ret) => "Fun("@ + list_debug(ir_types_debug(args@)) + ", "@ + ir_type_debug(*ret) + ")"@,
        IrType::Tuple(ts) => "Tuple("@ + list_debug(ir_types_debug(ts@)) + ")"@,
        IrType::ActorRef => "ActorRef"@,
        IrType::Ptr(inner) => "Ptr("@ + ir_type_debug(*inner) + ")"@,
    }
}

/// The debug text of a constant value.
pub open spec fn ir_value_debug_text(v: IrValueV) -> Seq<char> {
    match v {
        IrValueV::Int(i) => "Int("@ + int_text(i as int) + ")"@,
        IrValueV::Float(f) => "Float(FloatLit { bits: "@ + nat_text(f.bits as nat) + ", text: "@ + str_debug_text(f.text)
            + " })"@,
        IrValueV::Bool(b) => if b {
            "Bool(true)"@
        } else {
            "Bool(false)"@
        },
        IrValueV::StringLit(s) => "StringLit("@ + str_debug_text(s) + ")"@,
        IrValueV::Unit => "Unit"@,
        IrValueV::FuncRef(s) => "FuncRef("@ + str_debug_text(s) + ")"@,
    }
}

/// The debug text of an instruction.
pub open spec fn instruction_debug_text(i: InstrV) -> Seq<char> {
    match i {
        InstrV::Const { value, dest } => "Const { value: "@ + ir_value_debug_text(value) + ", dest: "@ + ssa_value_debug(dest) + " }"@,
        InstrV::BinOp { op, left, right, dest } => "BinOp { op: "@ + binop_debug(op) + ", left: "@ + ssa_value_debug(left) + ", right: "@ + ssa_value_debug(right) + ", dest: "@ + ssa_value_debug(dest) + " }"@,
        InstrV::UnaryOp { op, operand, dest } => "UnaryOp { op: "@ + unaryop_debug(op) + ", operand: "@ + ssa_value_debug(operand) + ", dest: "@ + ssa_value_debug(dest) + " }"@,
        InstrV::Call { func, args, dest } => "Call { func: "@ + ir_value_debug_text(func) + ", args: "@ + ssa_values_debug(args) + ", dest: "@ + ssa_value_debug(dest) + " }"@,
        InstrV::CallIndirect { func, args, dest } => "CallIndirect { func: "@ + ssa_value_debug(func) + ", args: "@ + ssa_values_debug(args) + ", dest: "@ + ssa_value_debug(dest) + " }"@,
        InstrV::ClosureCreate { func_name, env_values, dest } => "ClosureCreate { func_name: "@ + str_debug_text(func_name) + ", env_values: "@ + ssa_values_debug(env_values) + ", dest: "@ + ssa_value_debug(dest) + " }"@,
        InstrV::Load { name, region, dest } => "Load { name: "@ + str_debug_text(name) + ", region: "@ + region_debug(region) + ", dest: "@ + ssa_value_debug(dest) + " }"@,
        InstrV::Store { name, value, region } => "Store { name: "@ + str_debug_text(name) + ", value: "@ + ssa_value_debug(value) + ", region: "@ + region_debug(region) + " }"@,
        InstrV::Branch { cond, then_block, else_block } => "Branch { cond: "@ + ssa_value_debug(cond) + ", then_block: "@ + block_id_debug(then_block) + ", else_block: "@ + block_id_debug(else_block) + " }"@,
        InstrV::CondBranch { cond, then_block, else_block } => "CondBranch { cond: "@ + ssa_value_debug(cond) + ", then_block: "@ + block_id_debug(then_block) + ", else_block: "@ + block_id_debug(else_block) + " }"@,
        InstrV::Return { value } => "Return { value: "@ + opt_ssa_debug(value) + " }"@,
        InstrV::Phi { inputs, dest } => "Phi { inputs: "@ + phi_inputs_debug(inputs) + ", dest: "@ + ssa_value_debug(dest) + " }"@,
        InstrV::Alloc { ty, region, dest } => "Alloc { ty: "@ + ir_type_debug(ty) + ", region: "@ + region_debug(region) + ", dest: "@ + ssa_value_debug(dest) + " }"@,
        InstrV::Cast { value, to, dest } => "Cast { value: "@ + ssa_value_debug(value) + ", to: "@ + ir_type_debug(to) + ", dest: "@ + ssa_value_debug(dest) + " }"@,
        InstrV::Spawn { body, dest } => "Spawn { body: "@ + ssa_value_debug(body) + ", dest: "@ + ssa_value_debug(dest) + " }"@,
        InstrV::Send { target, message } => "Send { target: "@ + ssa_value_debug(target) + ", message: "@ + ssa_value_debug(message) + " }"@,
        InstrV::FfiCall { name, args, timeout_ms, dest } => "FfiCall { name: "@ + str_debug_text(name) + ", args: "@ + ssa_values_debug(args) + ", timeout_ms: "@ + nat_text(timeout_ms as nat) + ", dest: "@ + ssa_value_debug(dest) + " }"@,
        InstrV::Assert { condition, message } => "Assert { condition: "@ + ssa_value_debug(condition) + ", message: "@ + str_debug_text(message) + " }"@,
        InstrV::Nop => "Nop"@,
    }
}

// ============================================================================
// RENDERING
// ============================================================================

/// Renders a string with std's `Debug` formatting for `str`
/// (`format!("{:?}", s)`): the text in double quotes, with quotes,
/// backslashes and unprintable characters escaped.
#[verifier::external_body]
fn str_debug(s: &str) -> (r: String)
    ensures
        r@ == str_debug_text(s@),
{
    format!("{:?}", s)
}

fn push_str_debug(s: &mut String, t: &str)
    ensures
        final(s)@ == old(s)@ + str_debug_text(t@),
{
    let d = str_debug(t);
    s.append(d.as_str());
}

fn push_ssa_id_debug(s: &mut String, id: SsaId)
    ensures
        final(s)@ == old(s)@ + ssa_id_debug(id),
{
    s.append("SsaId(");
    push_usize(s, id.0);
    s.append(")");
    assert(s@ =~= old(s)@ + ssa_id_debug(id));
}

fn push_block_id_debug(s: &mut String, id: BlockId)
    ensures
        final(s)@ == old(s)@ + block_id_debug(id),
{
    s.append("BlockId(");
    push_usize(s, id.0);
    s.append(")");
    assert(s@ =~= old(s)@ + block_id_debug(id));
}

fn push_region_debug(s: &mut String, r: Region)
    ensures
        final(s)@ == old(s)@ + region_debug(r),
{
    match r {
        Region::Stack => s.append("Stack"),
        Region::Heap => s.append("Heap"),
        Region::Pin => s.append("Pin"),
    }
}

fn push_ssa_value_debug(s: &mut String, v: SsaValue)
    ensures
        final(s)@ == old(s)@ + ssa_value_debug(v),
{
    s.append("SsaValue { id: ");
    push_ssa_id_debug(s, v.id);
    s.append(", region: ");
    push_region_debug(s, v.region);
    s.append(" }");
    assert(s@ =~= old(s)@ + ssa_value_debug(v));
}

proof fn lemma_join_step(items: Seq<Seq<char>>, i: int)
    requires
        0 <= i < items.len(),
    ensures
        join(items.take(i + 1), ", "@) == if i == 0 {
            items[0]
        } else {
            join(items.take(i), ", "@) + ", "@ + items[i]
        },
{
    assert(items.take(i + 1).drop_last() =~= items.take(i));
    assert(items.take(i + 1).last() == items[i]);
}

fn push_ssa_values_debug(s: &mut String, vs: &Vec<SsaValue>)
    ensures
        final(s)@ == old(s)@ + ssa_values_debug(vs@),
{
    let ghost items = vs@.map_values(|v: SsaValue| ssa_value_debug(v));
    let ghost start = s@;
    s.append("[");
    let mut i: usize = 0;
    while i < vs.len()
        invariant
            i <= vs@.len(),
            items == vs@.map_values(|v: SsaValue| ssa_value_debug(v)),
            s@ == start + "["@ + join(items.take(i as int), ", "@),
        decreases vs.len() - i,
    {
        proof {
            lemma_join_step(items, i as int);
        }
        if i > 0 {
            s.append(", ");
        }
        push_ssa_value_debug(s, vs[i]);
        assert(s@ =~= start + "["@ + join(items.take(i + 1), ", "@));
        i = i + 1;
    }
    assert(items.take(vs.len() as int) =~= items);
    s.append("]");
    assert(s@ =~= start + ssa_values_debug(vs@));
}

fn push_phi_inputs_debug(s: &mut String, ps: &Vec<(BlockId, SsaValue)>)
    ensures
        final(s)@ == old(s)@ + phi_inputs_debug(ps@),
{
    let ghost items = ps@.map_values(|p: (BlockId, SsaValue)| phi_input_debug(p));
    let ghost start = s@;
    s.append("[");
    let mut i: usize = 0;
    while i < ps.len()
        invariant
            i <= ps@.len(),
            items == ps@.map_values(|p: (BlockId, SsaValue)| phi_input_debug(p)),
            s@ == start + "["@ + join(items.take(i as int), ", "@),
        decreases ps.len() - i,
    {
        proof {
            lemma_join_step(items, i as int);
        }
        if i > 0 {
            s.append(", ");
        }
        let ghost before = s@;
        s.append("(");
        push_block_id_debug(s, ps[i].0);
        s.append(", ");
        push_ssa_value_debug(s, ps[i].1);
        s.append(")");
        assert(s@ =~= before + phi_input_debug(ps@[i as int]));
        assert(s@ =~= start + "["@ + join(items.take(i + 1), ", "@));
        i = i + 1;
    }
    assert(items.take(ps.len() as int) =~= items);
    s.append("]");
    assert(s@ =~= start + phi_inputs_debug(ps@));
}

fn push_opt_ssa_debug(s: &mut String, o: Option<SsaValue>)
    ensures
        final(s)@ == old(s)@ + opt_ssa_debug(o),
{
    match o {
        Some(v) => {
            s.append("Some(");
            push_ssa_value_debug(s, v);
            s.append(")");
            assert(s@ =~= old(s)@ + opt_ssa_debug(o));
        },
        None => s.append("None"),
    }
}

fn push_binop_debug(s: &mut String, op: BinOp)
    ensures
        final(s)@ == old(s)@ + binop_debug(op),
{
    match op {
        BinOp::Add => s.append("Add"),
        BinOp::Sub => s.append("Sub"),
        BinOp::Mul => s.append("Mul"),
        BinOp::Div => s.append("Div"),
        BinOp::Mod => s.append("Mod"),
        BinOp::Eq => s.append("Eq"),
        BinOp::Ne => s.append("Ne"),
        BinOp::Lt => s.append("Lt"),
        BinOp::Gt => s.append("Gt"),
        BinOp::Le => s.append("Le"),
        BinOp::Ge => s.append("Ge"),
        BinOp::And => s.append("And"),
        BinOp::Or => s.append("Or"),
    }
}

fn push_unaryop_debug(s: &mut String, op: UnaryOp)
    ensures
        final(s)@ == old(s)@ + unaryop_debug(op),
{
    match op {
        UnaryOp::Neg => s.append("Neg"),
        UnaryOp::Not => s.append("Not"),
    }
}

fn push_ir_types_debug(s: &mut String, ts: &Vec<IrType>)
    ensures
        final(s)@ == old(s)@ + list_debug(ir_types_debug(ts@)),
    decreases ts, 1int,
{
    let ghost items = ir_types_debug(ts@);
    let ghost start = s@;
    s.append("[");
    let mut i: usize = 0;
    while i < ts.len()
        invariant
            i <= ts@.len(),
            items == ir_types_debug(ts@),
            items.len() == ts@.len(),
            s@ == start + "["@ + join(items.take(i as int), ", "@),
        decreases ts.len() - i,
    {
        proof {
            lemma_join_step(items, i as int);
            assert(decreases_to!(ts => ts@[i as int]));
        }
        if i > 0 {
            s.append(", ");
        }
        push_ir_type_debug(s, &ts[i]);
        assert(items[i as int] == ir_type_debug(ts@[i as int]));
        assert(s@ =~= start + "["@ + join(items.take(i + 1), ", "@));
        i = i + 1;
    }
    assert(items.take(ts.len() as int) =~= items);
    s.append("]");
    assert(s@ =~= start + list_debug(ir_types_debug(ts@)));
}

fn push_ir_type_debug(s: &mut String, t: &IrType)
    ensures
        final(s)@ == old(s)@ + ir_type_debug(*t),
    decreases t, 0int,
{
    match t {
        IrType::Int => s.append("Int"),
        IrType::Float => s.append("Float"),
        IrType::Bool => s.append("Bool"),
        IrType::String => s.append("String"),
        IrType::Unit => s.append("Unit"),
        IrType::Fun(args, ret) => {
            s.append("Fun(");
            push_ir_types_debug(s, args);
            s.append(", ");
            push_ir_type_debug(s, ret);
            s.append(")");
            assert(s@ =~= old(s)@ + ir_type_debug(*t));
        },
        IrType::Tuple(ts) => {
            s.append("Tuple(");
            push_ir_types_debug(s, ts);
            s.append(")");
            assert(s@ =~= old(s)@ + ir_type_debug(*t));
        },
        IrType::ActorRef => s.append("ActorRef"),
        IrType::Ptr(inner) => {
            s.append("Ptr(");
            push_ir_type_debug(s, inner);
            s.append(")");
            assert(s@ =~= old(s)@ + ir_type_debug(*t));
        },
    }
}

fn push_ir_value_debug(s: &mut String, v: &IrValue)
    ensures
        final(s)@ == old(s)@ + ir_value_debug_text(v@),
{
    match v {
        IrValue::Int(i) => {
            s.append("Int(");
            push_i64(s, *i);
            s.append(")");
        },
        IrValue::Float(f) => {
            s.append("Float(FloatLit { bits: ");
            push_u64(s, f.bits);
            s.append(", text: ");
            push_str_debug(s, f.text.as_str());
            s.append(" })");
        },
        IrValue::Bool(b) => {
            if *b {
                s.append("Bool(true)");
            } else {
                s.append("Bool(false)");
            }
        },
        IrValue::StringLit(t) => {
            s.append("StringLit(");
            push_str_debug(s, t.as_str());
            s.append(")");
        },
        IrValue::Unit => s.append("Unit"),
        IrValue::FuncRef(t) => {
            s.append("FuncRef(");
            push_str_debug(s, t.as_str());
            s.append(")");
        },
    }
    assert(s@ =~= old(s)@ + ir_value_debug_text(v@));
}

/// The debug text of a constant value.
pub fn ir_value_debug(v: &IrValue) -> (s: String)
    ensures
        s@ == ir_value_debug_text(v@),
{
    let mut s = String::new();
    push_ir_value_debug(&mut s, v);
    assert(s@ =~= ir_value_debug_text(v@));
    s
}

/// The debug text of an instruction.
pub fn instruction_debug(i: &Instruction) -> (s: String)
    ensures
        s@ == instruction_debug_text(i@),
{
    let mut s = String::new();
    push_instruction_debug(&mut s, i);
    assert(s@ =~= instruction_debug_text(i@));
    s
}

fn push_const_debug(s: &mut String, value: &IrValue, dest: &SsaValue)
    ensures
        final(s)@ == old(s)@ + ("Const { value: "@ + ir_value_debug_text(value@) + ", dest: "@ + ssa_value_debug(*dest) + " }"@),
{
    s.append("Const { value: ");
    push_ir_value_debug(s, value);
    s.append(", dest: ");
    push_ssa_value_debug(s, *dest);
    s.append(" }");
    assert(s@ =~= old(s)@ + ("Const { value: "@ + ir_value_debug_text(value@) + ", dest: "@ + ssa_value_debug(*dest) + " }"@));
}

fn push_bin_op_debug(s: &mut String, op: &BinOp, left: &SsaValue, right: &SsaValue, dest: &SsaValue)
    ensures
        final(s)@ == old(s)@ + ("BinOp { op: "@ + binop_debug(*op) + ", left: "@ + ssa_value_debug(*left) + ", right: "@ + ssa_value_debug(*right) + ", dest: "@ + ssa_value_debug(*dest) + " }"@),
{
    s.append("BinOp { op: ");
    push_binop_debug(s, *op);
    s.append(", left: ");
    push_ssa_value_debug(s, *left);
    s.append(", right: ");
    push_ssa_value_debug(s, *right);
    s.append(", dest: ");
    push_ssa_value_debug(s, *dest);
    s.append(" }");
    assert(s@ =~= old(s)@ + ("BinOp { op: "@ + binop_debug(*op) + ", left: "@ + ssa_value_debug(*left) + ", right: "@ + ssa_value_debug(*right) + ", dest: "@ + ssa_value_debug(*dest) + " }"@));
}

fn push_unary_op_debug(s: &mut String, op: &UnaryOp, operand: &SsaValue, dest: &SsaValue)
    ensures
        final(s)@ == old(s)@ + ("UnaryOp { op: "@ + unaryop_debug(*op) + ", operand: "@ + ssa_value_debug(*operand) + ", dest: "@ + ssa_value_debug(*dest) + " }"@),
{
    s.append("UnaryOp { op: ");
    push_unaryop_debug(s, *op);
    s.append(", operand: ");
    push_ssa_value_debug(s, *operand);
    s.append(", dest: ");
    push_ssa_value_debug(s, *dest);
    s.append(" }");
    assert(s@ =~= old(s)@ + ("UnaryOp { op: "@ + unaryop_debug(*op) + ", operand: "@ + ssa_value_debug(*operand) + ", dest: "@ + ssa_value_debug(*dest) + " }"@));
}

fn push_call_debug(s: &mut String, func: &IrValue, args: &Vec<SsaValue>, dest: &SsaValue)
    ensures
        final(s)@ == old(s)@ + ("Call { func: "@ + ir_value_debug_text(func@) + ", args: "@ + ssa_values_debug(args@) + ", dest: "@ + ssa_value_debug(*dest) + " }"@),
{
    s.append("Call { func: ");
    push_ir_value_debug(s, func);
    s.append(", args: ");
    push_ssa_values_debug(s, args);
    s.append(", dest: ");
    push_ssa_value_debug(s, *dest);
    s.append(" }");
    assert(s@ =~= old(s)@ + ("Call { func: "@ + ir_value_debug_text(func@) + ", args: "@ + ssa_values_debug(args@) + ", dest: "@ + ssa_value_debug(*dest) + " }"@));
}

fn push_call_indirect_debug(s: &mut String, func: &SsaValue, args: &Vec<SsaValue>, dest: &SsaValue)
    ensures
        final(s)@ == old(s)@ + ("CallIndirect { func: "@ + ssa_value_debug(*func) + ", args: "@ + ssa_values_debug(args@) + ", dest: "@ + ssa_value_debug(*dest) + " }"@),
{
    s.append("CallIndirect { func: ");
    push_ssa_value_debug(s, *func);
    s.append(", args: ");
    push_ssa_values_debug(s, args);
    s.append(", dest: ");
    push_ssa_value_debug(s, *dest);
    s.append(" }");
    assert(s@ =~= old(s)@ + ("CallIndirect { func: "@ + ssa_value_debug(*func) + ", args: "@ + ssa_values_debug(args@) + ", dest: "@ + ssa_value_debug(*dest) + " }"@));
}

fn push_closure_create_debug(s: &mut String, func_name: &String, env_values: &Vec<SsaValue>, dest: &SsaValue)
    ensures
        final(s)@ == old(s)@ + ("ClosureCreate { func_name: "@ + str_debug_text(func_name@) + ", env_values: "@ + ssa_values_debug(env_values@) + ", dest: "@ + ssa_value_debug(*dest) + " }"@),
{
    s.append("ClosureCreate { func_name: ");
    push_str_debug(s, func_name.as_str());
    s.append(", env_values: ");
    push_ssa_values_debug(s, env_values);
    s.append(", dest: ");
    push_ssa_value_debug(s, *dest);
    s.append(" }");
    assert(s@ =~= old(s)@ + ("ClosureCreate { func_name: "@ + str_debug_text(func_name@) + ", env_values: "@ + ssa_values_debug(env_values@) + ", dest: "@ + ssa_value_debug(*dest) + " }"@));
}

fn push_load_debug(s: &mut String, name: &String, region: &Region, dest: &SsaValue)
    ensures
        final(s)@ == old(s)@ + ("Load { name: "@ + str_debug_text(name@) + ", region: "@ + region_debug(*region) + ", dest: "@ + ssa_value_debug(*dest) + " }"@),
{
    s.append("Load { name: ");
    push_str_debug(s, name.as_str());
    s.append(", region: ");
    push_region_debug(s, *region);
    s.append(", dest: ");
    push_ssa_value_debug(s, *dest);
    s.append(" }");
    assert(s@ =~= old(s)@ + ("Load { name: "@ + str_debug_text(name@) + ", region: "@ + region_debug(*region) + ", dest: "@ + ssa_value_debug(*dest) + " }"@));
}

fn push_store_debug(s: &mut String, name: &String, value: &SsaValue, region: &Region)
    ensures
        final(s)@ == old(s)@ + ("Store { name: "@ + str_debug_text(name@) + ", value: "@ + ssa_value_debug(*value) + ", region: "@ + region_debug(*region) + " }"@),
{
    s.append("Store { name: ");
    push_str_debug(s, name.as_str());
    s.append(", value: ");
    push_ssa_value_debug(s, *value);
    s.append(", region: ");
    push_region_debug(s, *region);
    s.append(" }");
    assert(s@ =~= old(s)@ + ("Store { name: "@ + str_debug_text(name@) + ", value: "@ + ssa_value_debug(*value) + ", region: "@ + region_debug(*region) + " }"@));
}

fn push_branch_debug(s: &mut String, cond: &SsaValue, then_block: &BlockId, else_block: &BlockId)
    ensures
        final(s)@ == old(s)@ + ("Branch { cond: "@ + ssa_value_debug(*cond) + ", then_block: "@ + block_id_debug(*then_block) + ", else_block: "@ + block_id_debug(*else_block) + " }"@),
{
    s.append("Branch { cond: ");
    push_ssa_value_debug(s, *cond);
    s.append(", then_block: ");
    push_block_id_debug(s, *then_block);
    s.append(", else_block: ");
    push_block_id_debug(s, *else_block);
    s.append(" }");
    assert(s@ =~= old(s)@ + ("Branch { cond: "@ + ssa_value_debug(*cond) + ", then_block: "@ + block_id_debug(*then_block) + ", else_block: "@ + block_id_debug(*else_block) + " }"@));
}

fn push_cond_branch_debug(s: &mut String, cond: &SsaValue, then_block: &BlockId, else_block: &BlockId)
    ensures
        final(s)@ == old(s)@ + ("CondBranch { cond: "@ + ssa_value_debug(*cond) + ", then_block: "@ + block_id_debug(*then_block) + ", else_block: "@ + block_id_debug(*else_block) + " }"@),
{
    s.append("CondBranch { cond: ");
    push_ssa_value_debug(s, *cond);
    s.append(", then_block: ");
    push_block_id_debug(s, *then_block);
    s.append(", else_block: ");
    push_block_id_debug(s, *else_block);
    s.append(" }");
    assert(s@ =~= old(s)@ + ("CondBranch { cond: "@ + ssa_value_debug(*cond) + ", then_block: "@ + block_id_debug(*then_block) + ", else_block: "@ + block_id_debug(*else_block) + " }"@));
}

fn push_return_debug(s: &mut String, value: &Option<SsaValue>)
    ensures
        final(s)@ == old(s)@ + ("Return { value: "@ + opt_ssa_debug(*value) + " }"@),
{
    s.append("Return { value: ");
    push_opt_ssa_debug(s, *value);
    s.append(" }");
    assert(s@ =~= old(s)@ + ("Return { value: "@ + opt_ssa_debug(*value) + " }"@));
}

fn push_phi_debug(s: &mut String, inputs: &Vec<(BlockId, SsaValue)>, dest: &SsaValue)
    ensures
        final(s)@ == old(s)@ + ("Phi { inputs: "@ + phi_inputs_debug(inputs@) + ", dest: "@ + ssa_value_debug(*dest) + " }"@),
{
    s.append("Phi { inputs: ");
    push_phi_inputs_debug(s, inputs);
    s.append(", dest: ");
    push_ssa_value_debug(s, *dest);
    s.append(" }");
    assert(s@ =~= old(s)@ + ("Phi { inputs: "@ + phi_inputs_debug(inputs@) + ", dest: "@ + ssa_value_debug(*dest) + " }"@));
}

fn push_alloc_debug(s: &mut String, ty: &IrType, region: &Region, dest: &SsaValue)
    ensures
        final(s)@ == old(s)@ + ("Alloc { ty: "@ + ir_type_debug(*ty) + ", region: "@ + region_debug(*region) + ", dest: "@ + ssa_value_debug(*dest) + " }"@),
{
    s.append("Alloc { ty: ");
    push_ir_type_debug(s, ty);
    s.append(", region: ");
    push_region_debug(s, *region);
    s.append(", dest: ");
    push_ssa_value_debug(s, *dest);
    s.append(" }");
    assert(s@ =~= old(s)@ + ("Alloc { ty: "@ + ir_type_debug(*ty) + ", region: "@ + region_debug(*region) + ", dest: "@ + ssa_value_debug(*dest) + " }"@));
}

fn push_cast_debug(s: &mut String, value: &SsaValue, to: &IrType, dest: &SsaValue)
    ensures
        final(s)@ == old(s)@ + ("Cast { value: "@ + ssa_value_debug(*value) + ", to: "@ + ir_type_debug(*to) + ", dest: "@ + ssa_value_debug(*dest) + " }"@),
{
    s.append("Cast { value: ");
    push_ssa_value_debug(s, *value);
    s.append(", to: ");
    push_ir_type_debug(s, to);
    s.append(", dest: ");
    push_ssa_value_debug(s, *dest);
    s.append(" }");
    assert(s@ =~= old(s)@ + ("Cast { value: "@ + ssa_value_debug(*value) + ", to: "@ + ir_type_debug(*to) + ", dest: "@ + ssa_value_debug(*dest) + " }"@));
}

fn push_spawn_debug(s: &mut String, body: &SsaValue, dest: &SsaValue)
    ensures
        final(s)@ == old(s)@ + ("Spawn { body: "@ + ssa_value_debug(*body) + ", dest: "@ + ssa_value_debug(*dest) + " }"@),
{
    s.append("Spawn { body: ");
    push_ssa_value_debug(s, *body);
    s.append(", dest: ");
    push_ssa_value_debug(s, *dest);
    s.append(" }");
    assert(s@ =~= old(s)@ + ("Spawn { body: "@ + ssa_value_debug(*body) + ", dest: "@ + ssa_value_debug(*dest) + " }"@));
}

fn push_send_debug(s: &mut String, target: &SsaValue, message: &SsaValue)
    ensures
        final(s)@ == old(s)@ + ("Send { target: "@ + ssa_value_debug(*target) + ", message: "@ + ssa_value_debug(*message) + " }"@),
{
    s.append("Send { target: ");
    push_ssa_value_debug(s, *target);
    s.append(", message: ");
    push_ssa_value_debug(s, *message);
    s.append(" }");
    assert(s@ =~= old(s)@ + ("Send { target: "@ + ssa_value_debug(*target) + ", message: "@ + ssa_value_debug(*message) + " }"@));
}

fn push_ffi_call_debug(s: &mut String, name: &String, args: &Vec<SsaValue>, timeout_ms: &u64, dest: &SsaValue)
    ensures
        final(s)@ == old(s)@ + ("FfiCall { name: "@ + str_debug_text(name@) + ", args: "@ + ssa_values_debug(args@) + ", timeout_ms: "@ + nat_text(*timeout_ms as nat) + ", dest: "@ + ssa_value_debug(*dest) + " }"@),
{
    s.append("FfiCall { name: ");
    push_str_debug(s, name.as_str());
    s.append(", args: ");
    push_ssa_values_debug(s, args);
    s.append(", timeout_ms: ");
    push_u64(s, *timeout_ms);
    s.append(", dest: ");
    push_ssa_value_debug(s, *dest);
    s.append(" }");
    assert(s@ =~= old(s)@ + ("FfiCall { name: "@ + str_debug_text(name@) + ", args: "@ + ssa_values_debug(args@) + ", timeout_ms: "@ + nat_text(*timeout_ms as nat) + ", dest: "@ + ssa_value_debug(*dest) + " }"@));
}

fn push_assert_debug(s: &mut String, condition: &SsaValue, message: &String)
    ensures
        final(s)@ == old(s)@ + ("Assert { condition: "@ + ssa_value_debug(*condition) + ", message: "@ + str_debug_text(message@) + " }"@),
{
    s.append("Assert { condition: ");
    push_ssa_value_debug(s, *condition);
    s.append(", message: ");
    push_str_debug(s, message.as_str());
    s.append(" }");
    assert(s@ =~= old(s)@ + ("Assert { condition: "@ + ssa_value_debug(*condition) + ", message: "@ + str_debug_text(message@) + " }"@));
}

/// Appends the debug text of an instruction.
fn push_instruction_debug(s: &mut String, i: &Instruction)
    ensures
        final(s)@ == old(s)@ + instruction_debug_text(i@),
{
    match i {
        Instruction::Const { value, dest } => push_const_debug(s, value, dest),
        Instruction::BinOp { op, left, right, dest } => push_bin_op_debug(s, op, left, right, dest),
        Instruction::UnaryOp { op, operand, dest } => push_unary_op_debug(s, op, operand, dest),
        Instruction::Call { func, args, dest } => push_call_debug(s, func, args, dest),
        Instruction::CallIndirect { func, args, dest } => push_call_indirect_debug(s, func, args, dest),
        Instruction::ClosureCreate { func_name, env_values, dest } => push_closure_create_debug(s, func_name, env_values, dest),
        Instruction::Load { name, region, dest } => push_load_debug(s, name, region, dest),
        Instruction::Store { name, value, region } => push_store_debug(s, name, value, region),
        Instruction::Branch { cond, then_block, else_block } => push_branch_debug(s, cond, then_block, else_block),
        Instruction::CondBranch { cond, then_block, else_block } => push_cond_branch_debug(s, cond, then_block, else_block),
        Instruction::Return { value } => push_return_debug(s, value),
        Instruction::Phi { inputs, dest } => push_phi_debug(s, inputs, dest),
        Instruction::Alloc { ty, region, dest } => push_alloc_debug(s, ty, region, dest),
        Instruction::Cast { value, to, dest } => push_cast_debug(s, value, to, dest),
        Instruction::Spawn { body, dest } => push_spawn_debug(s, body, dest),
        Instruction::Send { target, message } => push_send_debug(s, target, message),
        Instruction::FfiCall { name, args, timeout_ms, dest } => push_ffi_call_debug(s, name, args, timeout_ms, dest),
        Instruction::Assert { condition, message } => push_assert_debug(s, condition, message),
        Instruction::Nop => s.append("Nop"),
    }
}

} // verus!
