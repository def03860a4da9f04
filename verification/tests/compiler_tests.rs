use zyl::ast::{AtomKind, Expr, MatchClause, PrimType, Program, TypeExpr};
use zyl::codegen::{Arch, CodegenError};
use zyl::compiler::{compile, compile_optimized, compile_with_arch, CompilationResult, Compiler, CompilerError};

fn num(v: i64) -> Expr {
    Expr::Atom(AtomKind::Int(v))
}

fn ident(name: &str) -> Expr {
    Expr::Atom(AtomKind::Ident(name.to_string()))
}

fn app(op: &str, args: Vec<Expr>) -> Expr {
    Expr::App(op.to_string(), args)
}

fn lines(ls: &[&str]) -> String {
    ls.join("\n")
}

const PROLOGUE: [&str; 2] = ["\tpushq %rbp", "\tmovq %rsp, %rbp"];
const EPILOGUE: [&str; 3] = ["\tmovq $0, %rax", "\tpopq %rbp", "\tret"];

fn function_text(name: &str, body: &[&str]) -> Vec<String> {
    let mut v = vec![format!("{}:", name)];
    v.extend(PROLOGUE.iter().map(|s| s.to_string()));
    v.extend(body.iter().map(|s| s.to_string()));
    v.extend(EPILOGUE.iter().map(|s| s.to_string()));
    v
}

fn program_text(functions: Vec<Vec<String>>) -> String {
    let mut all = vec![".extern malloc".to_string()];
    for f in functions {
        all.extend(f);
    }
    all.join("\n")
}

#[test]
fn constant_compiles_to_return_of_it() {
    let out = compile(Program::new(vec![], num(42))).unwrap();
    let want = program_text(vec![function_text(
        "main",
        &["bb0:", "\tmovq $42, %rax", "\tmovq %rax, %rax", "\tret"],
    )]);
    assert_eq!(out, want);
}

#[test]
fn builtin_addition_lowers_to_one_instruction() {
    let out = compile(Program::new(vec![], app("+", vec![num(1), num(2)]))).unwrap();
    let want = program_text(vec![function_text(
        "main",
        &[
            "bb0:",
            "\tmovq $1, %rax",
            "\tmovq $2, %rcx",
            "\taddq %rcx, %rax",
            "\tmovq %rax, %rdx",
            "\tmovq %rdx, %rax",
            "\tret",
        ],
    )]);
    assert_eq!(out, want);
}

#[test]
fn builtin_with_one_argument_defines_nothing_more() {
    // A builtin applied to other than two arguments adds no instruction.
    let out = compile(Program::new(vec![], app("not", vec![Expr::Atom(AtomKind::Bool(true))]))).unwrap();
    let want = program_text(vec![function_text(
        "main",
        &["bb0:", "\tmovq $1, %rax", "\tmovq %rax, %rax", "\tret"],
    )]);
    assert_eq!(out, want);
}

#[test]
fn named_call_passes_arguments_in_registers() {
    let out = compile(Program::new(vec![], app("f", vec![num(5)]))).unwrap();
    let want = program_text(vec![function_text(
        "main",
        &[
            "bb0:",
            "\tmovq $5, %rax",
            "\tmovq %rax, %rdi",
            "\tcall f",
            "\tmovq %rax, %rcx",
            "\tmovq %rcx, %rax",
            "\tret",
        ],
    )]);
    assert_eq!(out, want);
}

fn if_program() -> Program {
    Program::new(
        vec![],
        Expr::If {
            cond: Box::new(Expr::Atom(AtomKind::Bool(true))),
            then_branch: Box::new(num(1)),
            else_branch: Box::new(num(2)),
        },
    )
}

#[test]
fn unoptimized_if_keeps_every_block() {
    let out = compile_optimized(if_program(), 0).unwrap();
    let want = program_text(vec![function_text(
        "main",
        &[
            "bb0:",
            "\tmovq $1, %rax",
            "bb1:",
            "bb2:",
            "bb1:",
            "\ttestq %rax, %rax",
            "\tje bb2",
            "\tjmp bb1",
            "\tmovq $1, %rcx",
            "\ttestq %rcx, %rcx",
            "\tje bb3",
            "bb3:",
            "\tmovq $2, %rax",
            "\ttestq %rax, %rax",
            "\tje bb3",
            "\tmovq %rdx, %rax",
            "\tret",
        ],
    )]);
    assert_eq!(out, want);
}

#[test]
fn dead_block_elimination_keeps_only_reached_blocks() {
    let out = compile(if_program()).unwrap();
    let want = program_text(vec![function_text("main", &["bb0:", "\tmovq $1, %rax"])]);
    assert_eq!(out, want);
}

#[test]
fn optimization_level_is_capped_at_three() {
    let high = compile_optimized(if_program(), 7).unwrap();
    let one = compile(if_program()).unwrap();
    assert_eq!(high, one);
}

#[test]
fn lambda_becomes_function_before_main() {
    let prog = Program::new(
        vec![],
        Expr::Fn { params: vec!["x".to_string()], body: Box::new(ident("x")) },
    );
    let out = compile_optimized(prog, 0).unwrap();
    let mut lambda = vec!["lambda_0:".to_string()];
    lambda.extend(PROLOGUE.iter().map(|s| s.to_string()));
    lambda.push("\tmovq rdi, -16(%rbp)".to_string());
    lambda.extend(
        ["bb0:", "\tmovq -(%rbp), %rax", "\tmovq %rax, %rax", "\tret"].iter().map(|s| s.to_string()),
    );
    lambda.extend(EPILOGUE.iter().map(|s| s.to_string()));
    let main = function_text(
        "main",
        &[
            "bb0:",
            "\tmovq $8, %rdi",
            "\tcall malloc",
            "\tmovq %rax, %rax",
            "\tlea lambda_0(%rip), %rcx",
            "\tmovq %rcx, (%rax)",
            "\tmovq %rax, %rax",
            "\tret",
        ],
    );
    assert_eq!(out, program_text(vec![lambda, main]));
}

#[test]
fn lambdas_are_numbered_in_order() {
    let prog = Program::new(
        vec![],
        Expr::Begin(vec![
            Expr::Fn { params: vec![], body: Box::new(num(1)) },
            Expr::Fn { params: vec![], body: Box::new(num(2)) },
        ]),
    );
    let out = compile(prog).unwrap();
    assert!(out.contains("\nlambda_0:\n"));
    assert!(out.contains("\nlambda_1:\n"));
    assert!(out.find("lambda_0:").unwrap() < out.find("lambda_1:").unwrap());
    assert!(out.contains("\tlea lambda_1(%rip), %rcx"));
}

#[test]
fn definition_compiles_after_main() {
    let sq = Expr::Defn {
        name: "sq".to_string(),
        params: vec!["n".to_string()],
        body: Box::new(app("*", vec![ident("n"), ident("n")])),
        ret_type: Some(TypeExpr::Prim(PrimType::Int)),
    };
    let out = compile_with_arch(Program::new(vec![sq], num(0)), Arch::X86_64).unwrap();
    let main = function_text("main", &["bb0:", "\tmovq $0, %rax", "\tmovq %rax, %rax", "\tret"]);
    let mut f = vec!["sq:".to_string()];
    f.extend(PROLOGUE.iter().map(|s| s.to_string()));
    f.push("\tmovq rdi, -16(%rbp)".to_string());
    f.extend(
        [
            "bb0:",
            "\tmovq -(%rbp), %rax",
            "\tmovq -(%rbp), %rcx",
            "\tmovq %rax, %rax",
            "\timulq %rcx, %rax",
            "\tmovq %rax, %rdx",
            "\tmovq %rdx, %rax",
            "\tret",
        ]
        .iter()
        .map(|s| s.to_string()),
    );
    f.extend(EPILOGUE.iter().map(|s| s.to_string()));
    assert_eq!(out, program_text(vec![main, f]));
}

#[test]
fn definition_in_body_calls_with_parameter_positions() {
    let d = Expr::Defn {
        name: "g".to_string(),
        params: vec!["a".to_string(), "b".to_string()],
        body: Box::new(num(0)),
        ret_type: None,
    };
    let out = compile(Program::new(vec![], d)).unwrap();
    let want = program_text(vec![function_text(
        "main",
        &[
            "bb0:",
            "\tmovq $0, %rax",
            "\tmovq $1, %rcx",
            "\tmovq %rax, %rdi",
            "\tmovq %rcx, %rsi",
            "\tcall g",
            "\tmovq %rax, %rdx",
            "\tmovq %rdx, %rax",
            "\tret",
        ],
    )]);
    assert_eq!(out, want);
}

#[test]
fn compile_time_forms_define_no_value() {
    let out = compile(Program::new(vec![], Expr::Deftype { name: "T".to_string() })).unwrap();
    let want = program_text(vec![function_text("main", &["bb0:", "\tmovq $0, %rax", "\tret"])]);
    assert_eq!(out, want);
}

#[test]
fn unsupported_forms_lower_to_unit() {
    let out = compile(Program::new(vec![], Expr::Quote(Box::new(num(3))))).unwrap();
    let want = program_text(vec![function_text(
        "main",
        &["bb0:", "\tmovq $0, %rax", "\tmovq %rax, %rax", "\tret"],
    )]);
    assert_eq!(out, want);
}

#[test]
fn operand_without_value_stops_lowering() {
    let mut c = Compiler::new(Arch::X86_64);
    let prog = Program::new(vec![], app("f", vec![Expr::Use { path: "m".to_string() }]));
    assert!(c.compile_checked(prog).is_none());
}

#[test]
fn seven_arguments_fail_code_generation() {
    let args: Vec<Expr> = (1..=7).map(num).collect();
    match compile(Program::new(vec![], app("f", args))) {
        Err(CompilerError::Codegen(CodegenError::UnsupportedInstruction(msg))) => {
            assert_eq!(msg, "Too many call args: 6");
        },
        other => panic!("unexpected outcome: {:?}", other),
    }
}

#[test]
fn match_lowers_branches_to_merge_block() {
    let prog = Program::new(
        vec![],
        Expr::Match {
            scrutinee: Box::new(num(9)),
            clauses: vec![
                MatchClause { variant: "A".to_string(), patterns: vec![], body: Box::new(num(1)) },
                MatchClause { variant: "B".to_string(), patterns: vec![], body: Box::new(num(2)) },
            ],
        },
    );
    let out = compile_optimized(prog, 0).unwrap();
    let want = program_text(vec![function_text(
        "main",
        &[
            "bb0:",
            "\tmovq $9, %rax",
            "bb1:",
            "bb2:",
            "\ttestq %rax, %rax",
            "\tje bb1",
            "\tmovq $1, %rcx",
            "\ttestq %rax, %rax",
            "\tje bb1",
            "\ttestq %rax, %rax",
            "\tje bb1",
            "bb3:",
            "\tmovq $0, %rax",
            "\tret",
        ],
    )]);
    assert_eq!(out, want);
}

#[test]
fn warnings_at_level_two_and_hash_of_empty_code() {
    let mut c = Compiler::new(Arch::X86_64).with_optimization(2);
    let out = c.compile(Program::new(vec![], num(1)));
    assert!(out.is_ok());
    let r = c.finish(&[]);
    assert_eq!(r.warnings, vec!["Type inference complete".to_string(), "Region inference complete".to_string()]);
    assert_eq!(r.hash, "e3b0c44298fc1c149afbf4c8996fb92427ae41e4649b934ca495991b7852b855");
    assert!(r.object_code.is_empty());
    // The warnings were handed out.
    let again = c.finish(b"abc");
    assert!(again.warnings.is_empty());
    assert_eq!(again.hash, "ba7816bf8f01cfea414140de5dae2223b00361a396177a9cb410ff61f20015ad");
    assert_eq!(again.object_code, b"abc".to_vec());
}

#[test]
fn no_warnings_at_level_one() {
    let mut c = Compiler::new(Arch::X86_64);
    assert!(c.compile(Program::new(vec![], num(1))).is_ok());
    assert!(c.finish(&[7]).warnings.is_empty());
}

#[test]
fn lambda_counter_continues_across_compilations() {
    let mut c = Compiler::new(Arch::X86_64);
    let lam = || Program::new(vec![], Expr::Fn { params: vec![], body: Box::new(num(1)) });
    let first = c.compile(lam()).unwrap();
    let second = c.compile(lam()).unwrap();
    assert!(first.contains("lambda_0:"));
    assert!(second.contains("lambda_1:"));
}

#[test]
fn same_program_compiles_to_same_text() {
    let a = compile(if_program()).unwrap();
    let b = compile(if_program()).unwrap();
    assert_eq!(a, b);
}

#[test]
fn report_lists_size_hash_and_warnings() {
    let r = CompilationResult {
        object_code: vec![0, 0, 0],
        hash: "ab".to_string(),
        warnings: vec!["w".to_string()],
    };
    assert_eq!(
        r.report(),
        "Compilation successful\n  Object code size: 3 bytes\n  Binary hash: ab\n  Warnings: 1\n    - w\n"
    );
    let quiet = CompilationResult { object_code: vec![], hash: "00".to_string(), warnings: vec![] };
    assert_eq!(quiet.report(), "Compilation successful\n  Object code size: 0 bytes\n  Binary hash: 00\n");
}

#[test]
fn default_compilations_agree_for_every_target() {
    let p = || Program::new(vec![], app("+", vec![num(4), num(5)]));
    let base = compile(p()).unwrap();
    assert_eq!(compile(p()).unwrap(), base);
    assert_eq!(compile_with_arch(p(), Arch::X86_64).unwrap(), base);
    assert_eq!(compile_with_arch(p(), Arch::AArch64).unwrap(), base);
    assert_eq!(compile_optimized(p(), 1).unwrap(), base);
}

#[test]
fn levels_above_three_compile_as_three() {
    assert_eq!(compile_optimized(if_program(), 3).unwrap(), compile_optimized(if_program(), 4).unwrap());
    assert_eq!(compile_optimized(if_program(), usize::MAX).unwrap(), compile_optimized(if_program(), 3).unwrap());
}
