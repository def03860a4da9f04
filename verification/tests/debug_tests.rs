use zyl::debug_text::{instruction_debug, ir_value_debug};
use zyl::ir::{BinOp, BlockId, FloatLit, Instruction, IrType, IrValue, Region, SsaId, SsaValue, UnaryOp};

fn v(id: usize, region: Region) -> SsaValue {
    SsaValue { id: SsaId(id), region }
}

fn check_value(x: IrValue) {
    assert_eq!(ir_value_debug(&x), format!("{:?}", x));
}

fn check(i: Instruction) {
    assert_eq!(instruction_debug(&i), format!("{:?}", i));
}

#[test]
fn constant_values_render_as_their_debug_text() {
    check_value(IrValue::Int(-42));
    check_value(IrValue::Int(i64::MIN));
    check_value(IrValue::Bool(true));
    check_value(IrValue::Bool(false));
    check_value(IrValue::Unit);
    check_value(IrValue::StringLit("say \"hi\"\n\\ tab\t".to_string()));
    check_value(IrValue::FuncRef("main".to_string()));
    check_value(IrValue::Float(FloatLit { bits: 4614253070214989087, text: "3.14".to_string() }));
}

#[test]
fn constant_value_texts_are_exact() {
    assert_eq!(ir_value_debug(&IrValue::Int(7)), "Int(7)");
    assert_eq!(ir_value_debug(&IrValue::StringLit("a\"b".to_string())), "StringLit(\"a\\\"b\")");
    assert_eq!(ir_value_debug(&IrValue::Unit), "Unit");
}

#[test]
fn instructions_render_as_their_debug_text() {
    check(Instruction::Const { value: IrValue::Int(3), dest: v(0, Region::Stack) });
    check(Instruction::BinOp { op: BinOp::Le, left: v(1, Region::Heap), right: v(2, Region::Pin), dest: v(3, Region::Stack) });
    check(Instruction::UnaryOp { op: UnaryOp::Not, operand: v(1, Region::Stack), dest: v(2, Region::Stack) });
    check(Instruction::Call { func: IrValue::Unit, args: vec![], dest: v(9, Region::Stack) });
    check(Instruction::CallIndirect { func: v(1, Region::Stack), args: vec![v(2, Region::Stack), v(3, Region::Heap)], dest: v(4, Region::Stack) });
    check(Instruction::ClosureCreate { func_name: "lambda_0".to_string(), env_values: vec![v(5, Region::Heap)], dest: v(6, Region::Heap) });
    check(Instruction::Load { name: "x".to_string(), region: Region::Stack, dest: v(0, Region::Stack) });
    check(Instruction::Store { name: "y".to_string(), value: v(1, Region::Stack), region: Region::Pin });
    check(Instruction::Branch { cond: v(0, Region::Stack), then_block: BlockId(1), else_block: BlockId(2) });
    check(Instruction::CondBranch { cond: v(0, Region::Stack), then_block: BlockId(10), else_block: BlockId(20) });
    check(Instruction::Return { value: None });
    check(Instruction::Return { value: Some(v(7, Region::Stack)) });
    check(Instruction::Phi { inputs: vec![(BlockId(1), v(2, Region::Stack)), (BlockId(3), v(4, Region::Stack))], dest: v(5, Region::Stack) });
    check(Instruction::Phi { inputs: vec![], dest: v(5, Region::Stack) });
    check(Instruction::Alloc {
        ty: IrType::Fun(vec![IrType::Int, IrType::Tuple(vec![IrType::Bool, IrType::String])], Box::new(IrType::Ptr(Box::new(IrType::Unit)))),
        region: Region::Heap,
        dest: v(1, Region::Heap),
    });
    check(Instruction::Cast { value: v(1, Region::Stack), to: IrType::ActorRef, dest: v(2, Region::Stack) });
    check(Instruction::Cast { value: v(1, Region::Stack), to: IrType::Tuple(vec![]), dest: v(2, Region::Stack) });
    check(Instruction::Spawn { body: v(1, Region::Stack), dest: v(2, Region::Stack) });
    check(Instruction::Send { target: v(1, Region::Stack), message: v(2, Region::Stack) });
    check(Instruction::FfiCall { name: "c_sqrt".to_string(), args: vec![v(1, Region::Stack)], timeout_ms: 5000, dest: v(2, Region::Stack) });
    check(Instruction::Assert { condition: v(1, Region::Stack), message: "bad \u{1b} input".to_string() });
    check(Instruction::Nop);
}

#[test]
fn an_instruction_text_is_exact() {
    let i = Instruction::Return { value: Some(v(7, Region::Stack)) };
    assert_eq!(instruction_debug(&i), "Return { value: Some(SsaValue { id: SsaId(7), region: Stack }) }");
}
