use zyl::ast::{AtomKind, Expr};
use zyl::ir::{BinOp, Function, Instruction, IrType, IrValue, Region, SsaId, SsaValue};
use zyl::lowering::expr_to_blocks;

fn v(id: usize) -> SsaValue {
    SsaValue { id: SsaId(id), region: Region::Stack }
}

fn num(n: i64) -> Expr {
    Expr::Atom(AtomKind::Int(n))
}

fn lower_main(e: &Expr) -> Vec<String> {
    let mut f = Function::new("main".to_string(), vec![], IrType::Int);
    let mut counter: usize = 0;
    assert!(expr_to_blocks(e, &mut f, &mut counter));
    assert_eq!(counter, 0);
    assert_eq!(f.blocks.len(), 1);
    f.blocks[0].instructions.iter().map(|i| format!("{:?}", i)).collect()
}

fn texts(is: Vec<Instruction>) -> Vec<String> {
    is.iter().map(|i| format!("{:?}", i)).collect()
}

#[test]
fn let_lowers_value_then_store_then_body() {
    let e = Expr::Let {
        name: "x".to_string(),
        value: Box::new(num(1)),
        body: Box::new(Expr::App("+".to_string(), vec![Expr::Atom(AtomKind::Ident("x".to_string())), num(2)])),
    };
    let want = texts(vec![
        Instruction::Const { value: IrValue::Int(1), dest: v(0) },
        Instruction::Store { name: "x".to_string(), value: v(0), region: Region::Stack },
        Instruction::Load { name: "x".to_string(), region: Region::Stack, dest: v(2) },
        Instruction::Const { value: IrValue::Int(2), dest: v(3) },
        Instruction::BinOp { op: BinOp::Add, left: v(2), right: v(3), dest: v(4) },
    ]);
    assert_eq!(lower_main(&e), want);
}

#[test]
fn straight_line_values_are_numbered_by_their_place() {
    let e = Expr::Begin(vec![
        num(7),
        Expr::App("*".to_string(), vec![num(2), Expr::App("-".to_string(), vec![num(5), num(3)])]),
    ]);
    let want = texts(vec![
        Instruction::Const { value: IrValue::Int(7), dest: v(0) },
        Instruction::Const { value: IrValue::Int(2), dest: v(1) },
        Instruction::Const { value: IrValue::Int(5), dest: v(2) },
        Instruction::Const { value: IrValue::Int(3), dest: v(3) },
        Instruction::BinOp { op: BinOp::Sub, left: v(2), right: v(3), dest: v(4) },
        Instruction::BinOp { op: BinOp::Mul, left: v(1), right: v(4), dest: v(5) },
    ]);
    assert_eq!(lower_main(&e), want);
}

#[test]
fn a_foreign_call_reads_its_arguments() {
    let e = Expr::FfiCall { name: "print".to_string(), args: vec![num(1), num(2)], timeout_ms: 100 };
    let want = texts(vec![
        Instruction::Const { value: IrValue::Int(1), dest: v(0) },
        Instruction::Const { value: IrValue::Int(2), dest: v(1) },
        Instruction::FfiCall { name: "print".to_string(), args: vec![v(0), v(1)], timeout_ms: 100, dest: v(2) },
    ]);
    assert_eq!(lower_main(&e), want);
}
