use zyl::codegen::{
    block_label, compile, generate_llvm_ir, ssa_label, Arch, AsmGenerator, CodeGenerator, CodegenError,
    Reg, RegAllocator,
};
use zyl::ir::{
    BinOp, BlockId, FloatLit, Function, IcnfProgram, Instruction, IrType, IrValue, Region, SsaId, SsaValue,
    UnaryOp,
};

fn v(n: usize) -> SsaValue {
    SsaValue { id: SsaId(n), region: Region::Stack }
}

fn one_function(name: &str, params: Vec<(String, IrType)>, instrs: Vec<Instruction>) -> IcnfProgram {
    let mut f = Function::new(name.to_string(), params, IrType::Int);
    for i in instrs {
        f.add_instruction(i);
    }
    IcnfProgram { functions: vec![f], globals: vec![] }
}

#[test]
fn allocator_gives_first_register_of_class_and_keeps_it() {
    let mut a = RegAllocator::new();
    assert_eq!(a.get(SsaId(3)), None);
    assert_eq!(a.allocate(SsaId(3), false).unwrap(), Reg::Rax);
    assert_eq!(a.get(SsaId(3)), Some(Reg::Rax));
    // Asking again, even for another class, gives the same register.
    assert_eq!(a.allocate(SsaId(3), true).unwrap(), Reg::Rax);
    assert_eq!(a.allocate(SsaId(4), true).unwrap(), Reg::Xmm0);
    // An allocated register is no longer free: the next value gets the next one.
    assert_eq!(a.allocate(SsaId(5), false).unwrap(), Reg::Rcx);
    assert_eq!(a.allocate(SsaId(6), true).unwrap(), Reg::Xmm1);
    assert_eq!(a.get(SsaId(4)), Some(Reg::Xmm0));
    assert_eq!(a.get(SsaId(9)), None);
}

#[test]
fn allocation_fails_once_a_class_is_used_up() {
    let mut a = RegAllocator::new();
    let ints = [Reg::Rax, Reg::Rcx, Reg::Rdx, Reg::Rsi, Reg::Rdi, Reg::R8, Reg::R9, Reg::R10, Reg::R11];
    for (i, r) in ints.iter().enumerate() {
        assert_eq!(a.allocate(SsaId(i), false).unwrap(), *r);
    }
    match a.allocate(SsaId(100), false) {
        Err(CodegenError::RegisterAllocationFailed { id }) => assert_eq!(id, SsaId(100)),
        other => panic!("unexpected outcome: {:?}", other),
    }
    assert_eq!(a.allocate(SsaId(101), true).unwrap(), Reg::Xmm0);
}

#[test]
fn register_and_architecture_names() {
    assert_eq!(Reg::R10.name(), "r10");
    assert_eq!(Reg::Xmm3.name(), "xmm3");
    assert!(Reg::Xmm7.is_xmm());
    assert!(!Reg::Rbx.is_xmm());
    assert_eq!(Arch::X86_64.name(), "x86_64");
    assert_eq!(Arch::AArch64.name(), "aarch64");
    assert_eq!(Arch::Riscv64.name(), "riscv64");
}

#[test]
fn labels_of_blocks_and_values() {
    assert_eq!(block_label(BlockId(12)), "bb12");
    assert_eq!(ssa_label(SsaId(0)), "%0");
}

#[test]
fn globals_are_emitted_before_functions() {
    let p = IcnfProgram {
        functions: vec![],
        globals: vec![
            ("g".to_string(), IrType::Int, IrValue::Int(-5)),
            ("s".to_string(), IrType::String, IrValue::StringLit("hi".to_string())),
            ("b".to_string(), IrType::Bool, IrValue::Bool(true)),
            ("u".to_string(), IrType::Unit, IrValue::Unit),
        ],
    };
    let out = compile(&p, Arch::X86_64).unwrap();
    assert_eq!(
        out,
        ".extern malloc\n.globl g\ng:\n\t.quad -5\n.globl s\ns:\n.LC0:\n\t.string \"hi\"\n\t.quad .LC0\n.globl b\nb:\n\t.byte 1\n.globl u\nu:\n\t.zero 8"
    );
}

#[test]
fn arithmetic_and_comparison_lines() {
    let p = one_function(
        "f",
        vec![],
        vec![
            Instruction::Const { value: IrValue::Int(6), dest: v(0) },
            Instruction::Const { value: IrValue::Int(3), dest: v(1) },
            Instruction::BinOp { op: BinOp::Sub, left: v(0), right: v(1), dest: v(2) },
            Instruction::BinOp { op: BinOp::Div, left: v(0), right: v(1), dest: v(3) },
            Instruction::BinOp { op: BinOp::Lt, left: v(0), right: v(1), dest: v(4) },
            Instruction::UnaryOp { op: UnaryOp::Neg, operand: v(0), dest: v(5) },
            Instruction::Return { value: Some(v(4)) },
        ],
    );
    let out = CodeGenerator::new(Arch::X86_64).generate(&p).unwrap();
    let want = [
        ".extern malloc",
        "f:",
        "\tpushq %rbp",
        "\tmovq %rsp, %rbp",
        "bb0:",
        "\tmovq $6, %rax",
        "\tmovq $3, %rcx",
        "\tmovq %rax, %rdx",
        "\tsubq %rcx, %rdx",
        "\tmovq %rax, %rax",
        "\tcqo",
        "\tidivq %rcx",
        "\tmovq %rax, %rsi",
        "\tmovq %rax, %rax",
        "\tcmpq %rcx, %rax",
        "\tsetl %al",
        "\tmovzbq %al, %rdi",
        "\tnegq %rax",
        "\tmovq %rax, %r8",
        "\tmovq %rdi, %rax",
        "\tret",
        "\tmovq $0, %rax",
        "\tpopq %rbp",
        "\tret",
    ]
    .join("\n");
    assert_eq!(out, want);
}

#[test]
fn ssa_values_share_nine_registers() {
    let p = one_function(
        "f",
        vec![],
        vec![Instruction::Const { value: IrValue::Int(1), dest: v(9) }, Instruction::Const { value: IrValue::Int(2), dest: v(17) }],
    );
    let mut g = AsmGenerator::new(Arch::X86_64);
    let out = g.generate(&p).unwrap();
    assert!(out.contains("\tmovq $1, %rax\n"));
    assert!(out.contains("\tmovq $2, %r11\n"));
}

#[test]
fn parameters_are_saved_and_seven_are_refused() {
    let two = one_function("h", vec![("a".to_string(), IrType::Int), ("b".to_string(), IrType::Int)], vec![]);
    let out = compile(&two, Arch::X86_64).unwrap();
    assert!(out.contains("h:\n\tpushq %rbp\n\tmovq %rsp, %rbp\n\tmovq rdi, -16(%rbp)\n\tmovq rsi, -24(%rbp)\nbb0:\n"));
    let params: Vec<(String, IrType)> = (0..7).map(|i| (format!("p{}", i), IrType::Int)).collect();
    let seven = one_function("k", params, vec![]);
    match compile(&seven, Arch::X86_64) {
        Err(CodegenError::UnsupportedInstruction(msg)) => assert_eq!(msg, "Too many params: 6"),
        other => panic!("unexpected outcome: {:?}", other),
    }
}

#[test]
fn call_of_a_non_function_value_is_refused() {
    let p = one_function(
        "f",
        vec![],
        vec![Instruction::Call { func: IrValue::Int(3), args: vec![], dest: v(0) }],
    );
    match compile(&p, Arch::X86_64) {
        Err(CodegenError::UnsupportedInstruction(msg)) => {
            assert_eq!(msg, format!("Call with non-funcref value: {:?}", IrValue::Int(3)));
        },
        other => panic!("unexpected outcome: {:?}", other),
    }
}

#[test]
fn closure_with_captures_stores_them_after_the_code_pointer() {
    let p = one_function(
        "f",
        vec![],
        vec![Instruction::ClosureCreate { func_name: "cl".to_string(), env_values: vec![v(1), v(2)], dest: v(0) }],
    );
    let out = compile(&p, Arch::X86_64).unwrap();
    assert!(out.contains(
        "\tmovq $24, %rdi\n\tcall malloc\n\tmovq %rax, %rax\n\tlea cl(%rip), %rcx\n\tmovq %rcx, (%rax)\n\tmovq %rcx, 8(%%rax)\n\tmovq %rdx, 16(%%rax)\n"
    ));
}

#[test]
fn float_constant_loads_its_bits() {
    let p = one_function(
        "f",
        vec![],
        vec![Instruction::Const {
            value: IrValue::Float(FloatLit { bits: 4614253070214989087, text: "3.14".to_string() }),
            dest: v(0),
        }],
    );
    let out = compile(&p, Arch::X86_64).unwrap();
    assert!(out.contains("\tmovq $4614253070214989087, %rax\n"));
}

#[test]
fn llvm_text_of_a_function() {
    let p = one_function(
        "f",
        vec![("x".to_string(), IrType::Int)],
        vec![
            Instruction::Const { value: IrValue::Int(7), dest: v(0) },
            Instruction::BinOp { op: BinOp::Add, left: v(0), right: v(0), dest: v(1) },
            Instruction::Nop,
            Instruction::Return { value: Some(v(1)) },
        ],
    );
    let text = generate_llvm_ir(&p).unwrap();
    assert_eq!(
        text,
        "; Zyl ICNF -> LLVM IR\ntarget triple = \"x86_64-unknown-linux-gnu\"\n\ndefine i64 @f(i64 %x)\n{\n  bb0:\n    %0 = const i64 7\n    %1 = add i64 %0, %0\n    Nop\n    ret i64 %1\n}\n\n"
    );
    let same = CodeGenerator::new(Arch::AArch64).generate_llvm(&p).unwrap();
    assert_eq!(same, text);
}
