//! Evaluation errors and the registry entries of the test framework.

use vstd::prelude::*;
use crate::ast::Expr;
use crate::text::text_is;

verus! {

/// Errors raised while evaluating a program.
#[derive(Debug)]
pub enum EvalError {
    UndefinedVariable { name: String },
    TypeError { msg: String },
    AssertFail { message: String },
    RuntimeError { msg: String },
    DivisionByZero,
    StackOverflow,
    ActorError(String),
    FfiError(String),
    TestFailure { msg: String },
    TestRunnerError { msg: String },
}

/// What a test registration registers: a suite or a single test, by name.
#[derive(Debug)]
pub enum TestKind {
    Suite(String),
    Test(String),
}

/// A registered test or suite: its kind, its tests, and its keywords.
#[derive(Debug)]
pub struct TestRegistration {
    pub kind: TestKind,
    pub tests: Vec<Expr>,
    pub keywords: Vec<(String, String)>,
}


/// The operators and forms that the evaluator provides itself.
pub open spec fn is_eval_builtin(op: Seq<char>) -> bool {
    ||| op == "+"@ ||| op == "-"@ ||| op == "*"@ ||| op == "/"@ ||| op == "%"@
    ||| op == "=="@ ||| op == "!="@ ||| op == "<"@ ||| op == ">"@ ||| op == "<="@ ||| op == ">="@
    ||| op == "not"@ ||| op == "and"@ ||| op == "or"@
    ||| op == "int?"@ ||| op == "float?"@ ||| op == "bool?"@ ||| op == "string?"@
    ||| op == "len"@ ||| op == "unit"@ ||| op == "print"@ ||| op == "read-line"@ ||| op == "exit"@
    ||| op == "begin"@ ||| op == "tuple"@ ||| op == "vec"@ ||| op == "map"@
    ||| op == "error"@ ||| op == "close"@ ||| op == "set!"@ ||| op == "receive"@
    ||| op == "first"@ ||| op == "rest"@ ||| op == "nth"@ ||| op == "length"@ ||| op == "cons"@
    ||| op == "append"@ ||| op == "list"@
}

/// Whether `op` names an operator or form that the evaluator provides itself.
pub fn is_builtin(op: &str) -> (b: bool)
    ensures
        b == is_eval_builtin(op@),
{
    text_is(op, "+") || text_is(op, "-") || text_is(op, "*") || text_is(op, "/") || text_is(op, "%")
        || text_is(op, "==") || text_is(op, "!=") || text_is(op, "<") || text_is(op, ">")
        || text_is(op, "<=") || text_is(op, ">=")
        || text_is(op, "not") || text_is(op, "and") || text_is(op, "or")
        || text_is(op, "int?") || text_is(op, "float?") || text_is(op, "bool?") || text_is(op, "string?")
        || text_is(op, "len") || text_is(op, "unit") || text_is(op, "print") || text_is(op, "read-line")
        || text_is(op, "exit")
        || text_is(op, "begin") || text_is(op, "tuple") || text_is(op, "vec") || text_is(op, "map")
        || text_is(op, "error") || text_is(op, "close") || text_is(op, "set!") || text_is(op, "receive")
        || text_is(op, "first") || text_is(op, "rest") || text_is(op, "nth") || text_is(op, "length")
        || text_is(op, "cons") || text_is(op, "append") || text_is(op, "list")
}

} // verus!
