//! Contract injection: turns the contract forms of a spanned syntax tree —
//! preconditions, postconditions, invariants, recovery handlers, checkpoints and
//! contracts-off regions — into plain checks before code generation.

use vstd::prelude::*;
use crate::error::{Span, ZylError};
use crate::text::string_of;

verus! {

// ============================================================================
// SYNTAX TREE
// ============================================================================

/// An atom of the spanned syntax tree.
#[derive(Debug)]
pub enum Atom {
    Ident(String),
    Int(i64),
    Bool(bool),
    Str(String),
}

/// A match arm: a pattern and the body it selects.
#[derive(Debug)]
pub struct MatchArm {
    pub pattern: String,
    pub body: Expr,
}

/// A function definition inside an impl block.
#[derive(Debug)]
pub struct DefnDecl {
    pub name: String,
    pub params: Vec<String>,
    pub body: Expr,
}

/// A method of an impl block.
#[derive(Debug)]
pub struct ImplMethod {
    pub defn: DefnDecl,
}

/// A variant of a type declaration: its name and field types.
#[derive(Debug)]
pub struct VariantDecl {
    pub name: String,
    pub fields: Vec<String>,
}

/// A test: its name and body.
#[derive(Debug)]
pub struct TestDef {
    pub name: String,
    pub body: Expr,
}

/// A test suite: its name and members.
#[derive(Debug)]
pub struct SuiteDef {
    pub name: String,
    pub tests: Vec<TestOrSuite>,
}

/// A member of a test suite.
#[derive(Debug)]
pub enum TestOrSuite {
    Test(TestDef),
    Suite(SuiteDef),
}

/// An expression with its source span.
#[derive(Debug)]
pub struct Expr {
    pub span: Span,
    pub inner: ExprInner,
}

/// The forms of expressions.
#[derive(Debug)]
pub enum ExprInner {
    Atom(Atom),
    Error(String),
    Defn(String, Vec<String>, Box<Expr>),
    Def(String, Box<Expr>),
    Let(String, Box<Expr>, Box<Expr>),
    LetMut(String, Box<Expr>, Box<Expr>),
    If(Box<Expr>, Box<Expr>, Box<Expr>),
    Begin(Vec<Expr>),
    Call(Box<Expr>, Vec<Expr>),
    Lambda(Vec<String>, Option<String>, Box<Expr>),
    Match(Box<Expr>, Vec<MatchArm>),
    TryCatch(Box<Expr>, String, Box<Expr>),
    Spawn(Box<Expr>),
    Send(Box<Expr>, Box<Expr>),
    StructDef(String),
    StructDefPlus(String),
    AliasDecl(String, Box<Expr>),
    ImplBlock(String, String, Vec<ImplMethod>),
    Deftype(String, Vec<VariantDecl>, Vec<String>, bool),
    TestSuite(String, Vec<TestOrSuite>, Vec<String>),
    TestDecl(String, Box<Expr>, Vec<String>),
    AssertEqual(Box<Expr>, Box<Expr>),
    AssertFail(Box<Expr>, Option<String>),
    AssertTrue(Box<Expr>, Option<String>),
    AssertFalse(Box<Expr>, Option<String>),
    TestProperty(String, String, Box<Expr>),
    Setup(Vec<Expr>),
    Teardown(Vec<Expr>),
    RunTests(bool),
    TestCompile(Box<Expr>, bool),
    Apply(String, Vec<Expr>),
    MacroDef(String, Vec<String>, Box<Expr>),
    Quote(Box<Expr>),
    // Contract forms
    Requires(Box<Expr>),
    Ensures(Box<Expr>),
    Invariant(Box<Expr>),
    Recover(Box<Expr>, Vec<(String, Box<Expr>)>),
    Checkpoint(Box<Expr>),
    ContractsOff(Box<Expr>),
}

// ============================================================================
// ABSTRACT VIEW
// ============================================================================

/// Abstract atom.
pub enum AtomV {
    Ident(Seq<char>),
    Int(i64),
    Bool(bool),
    Str(Seq<char>),
}

/// Abstract match arm.
pub struct MatchArmV {
    pub pattern: Seq<char>,
    pub body: ExprV,
}

/// Abstract impl method.
pub struct ImplMethodV {
    pub name: Seq<char>,
    pub params: Seq<Seq<char>>,
    pub body: ExprV,
}

/// Abstract variant declaration.
pub struct VariantDeclV {
    pub name: Seq<char>,
    pub fields: Seq<Seq<char>>,
}

/// Abstract suite member.
pub enum TestOrSuiteV {
    Test(Seq<char>, ExprV),
    Suite(Seq<char>, Seq<TestOrSuiteV>),
}

/// Abstract expression.
pub struct ExprV {
    pub span: Span,
    pub inner: InnerV,
}

/// Abstract expression forms.
pub enum InnerV {
    Atom(AtomV),
    Error(Seq<char>),
    Defn(Seq<char>, Seq<Seq<char>>, Box<ExprV>),
    Def(Seq<char>, Box<ExprV>),
    Let(Seq<char>, Box<ExprV>, Box<ExprV>),
    LetMut(Seq<char>, Box<ExprV>, Box<ExprV>),
    If(Box<ExprV>, Box<ExprV>, Box<ExprV>),
    Begin(Seq<ExprV>),
    Call(Box<ExprV>, Seq<ExprV>),
    Lambda(Seq<Seq<char>>, Option<Seq<char>>, Box<ExprV>),
    Match(Box<ExprV>, Seq<MatchArmV>),
    TryCatch(Box<ExprV>, Seq<char>, Box<ExprV>),
    Spawn(Box<ExprV>),
    Send(Box<ExprV>, Box<ExprV>),
    StructDef(Seq<char>),
    StructDefPlus(Seq<char>),
    AliasDecl(Seq<char>, Box<ExprV>),
    ImplBlock(Seq<char>, Seq<char>, Seq<ImplMethodV>),
    Deftype(Seq<char>, Seq<VariantDeclV>, Seq<Seq<char>>, bool),
    TestSuite(Seq<char>, Seq<TestOrSuiteV>, Seq<Seq<char>>),
    TestDecl(Seq<char>, Box<ExprV>, Seq<Seq<char>>),
    AssertEqual(Box<ExprV>, Box<ExprV>),
    AssertFail(Box<ExprV>, Option<Seq<char>>),
    AssertTrue(Box<ExprV>, Option<Seq<char>>),
    AssertFalse(Box<ExprV>, Option<Seq<char>>),
    TestProperty(Seq<char>, Seq<char>, Box<ExprV>),
    Setup(Seq<ExprV>),
    Teardown(Seq<ExprV>),
    RunTests(bool),
    TestCompile(Box<ExprV>, bool),
    Apply(Seq<char>, Seq<ExprV>),
    MacroDef(Seq<char>, Seq<Seq<char>>, Box<ExprV>),
    Quote(Box<ExprV>),
    Requires(Box<ExprV>),
    Ensures(Box<ExprV>),
    Invariant(Box<ExprV>),
    Recover(Box<ExprV>, Seq<(Seq<char>, ExprV)>),
    Checkpoint(Box<ExprV>),
    ContractsOff(Box<ExprV>),
}

/// The texts of a list of strings.
pub open spec fn strs_view(v: Seq<String>) -> Seq<Seq<char>> {
    v.map_values(|s: String| s@)
}

/// The text of an optional string.
pub open spec fn opt_str_view(o: Option<String>) -> Option<Seq<char>> {
    match o {
        Some(s) => Some(s@),
        None => None,
    }
}

/// The abstract view of an atom.
pub open spec fn atom_view(a: Atom) -> AtomV {
    match a {
        Atom::Ident(s) => AtomV::Ident(s@),
        Atom::Int(i) => AtomV::Int(i),
        Atom::Bool(b) => AtomV::Bool(b),
        Atom::Str(s) => AtomV::Str(s@),
    }
}

/// A placeholder expression (used only outside sequence bounds).
pub open spec fn dummy_v() -> ExprV {
    ExprV { span: Span { start: crate::error::Location { line: 0, col: 0 }, end: crate::error::Location { line: 0, col: 0 } }, inner: InnerV::RunTests(false) }
}

/// The abstract view of a list of expressions.
pub open spec fn exprs_view(v: Seq<Expr>) -> Seq<ExprV>
    decreases v, 1int,
{
    Seq::new(v.len(), |i: int| if 0 <= i < v.len() { expr_view(v[i]) } else { dummy_v() })
}

/// The abstract view of a list of match arms.
pub open spec fn arms_view(v: Seq<MatchArm>) -> Seq<MatchArmV>
    decreases v, 1int,
{
    Seq::new(
        v.len(),
        |i: int|
            if 0 <= i < v.len() {
                MatchArmV { pattern: v[i].pattern@, body: expr_view(v[i].body) }
            } else {
                MatchArmV { pattern: seq![], body: dummy_v() }
            },
    )
}

/// The abstract view of a list of impl methods.
pub open spec fn methods_view(v: Seq<ImplMethod>) -> Seq<ImplMethodV>
    decreases v, 1int,
{
    Seq::new(
        v.len(),
        |i: int|
            if 0 <= i < v.len() {
                ImplMethodV {
                    name: v[i].defn.name@,
                    params: strs_view(v[i].defn.params@),
                    body: expr_view(v[i].defn.body),
                }
            } else {
                ImplMethodV { name: seq![], params: seq![], body: dummy_v() }
            },
    )
}

/// The abstract view of a list of suite members.
pub open spec fn members_view(v: Seq<TestOrSuite>) -> Seq<TestOrSuiteV>
    decreases v, 1int,
{
    Seq::new(
        v.len(),
        |i: int| if 0 <= i < v.len() { tos_view(v[i]) } else { TestOrSuiteV::Suite(seq![], seq![]) },
    )
}

/// The abstract view of a list of recovery handlers.
pub open spec fn handlers_view(v: Seq<(String, Box<Expr>)>) -> Seq<(Seq<char>, ExprV)>
    decreases v, 1int,
{
    Seq::new(
        v.len(),
        |i: int| if 0 <= i < v.len() { (v[i].0@, expr_view(*v[i].1)) } else { (seq![], dummy_v()) },
    )
}

/// The abstract view of a list of variant declarations.
pub open spec fn variants_view(v: Seq<VariantDecl>) -> Seq<VariantDeclV> {
    v.map_values(|d: VariantDecl| VariantDeclV { name: d.name@, fields: strs_view(d.fields@) })
}

/// The abstract view of a suite member.
pub open spec fn tos_view(t: TestOrSuite) -> TestOrSuiteV
    decreases t, 0int,
{
    match t {
        TestOrSuite::Test(td) => TestOrSuiteV::Test(td.name@, expr_view(td.body)),
        TestOrSuite::Suite(sd) => TestOrSuiteV::Suite(sd.name@, members_view(sd.tests@)),
    }
}

/// The abstract view of an expression.
pub open spec fn expr_view(e: Expr) -> ExprV
    decreases e, 0int,
{
    let inner = match e.inner {
        ExprInner::Atom(a) => InnerV::Atom(atom_view(a)),
        ExprInner::Error(s) => InnerV::Error(s@),
        ExprInner::Defn(n, ps, b) => InnerV::Defn(n@, strs_view(ps@), Box::new(expr_view(*b))),
        ExprInner::Def(n, b) => InnerV::Def(n@, Box::new(expr_view(*b))),
        ExprInner::Let(n, v, b) => InnerV::Let(n@, Box::new(expr_view(*v)), Box::new(expr_view(*b))),
        ExprInner::LetMut(n, v, b) => InnerV::LetMut(
            n@,
            Box::new(expr_view(*v)),
            Box::new(expr_view(*b)),
        ),
        ExprInner::If(c, t, f) => InnerV::If(
            Box::new(expr_view(*c)),
            Box::new(expr_view(*t)),
            Box::new(expr_view(*f)),
        ),
        ExprInner::Begin(es) => InnerV::Begin(exprs_view(es@)),
        ExprInner::Call(f, args) => InnerV::Call(Box::new(expr_view(*f)), exprs_view(args@)),
        ExprInner::Lambda(ps, rt, b) => InnerV::Lambda(
            strs_view(ps@),
            opt_str_view(rt),
            Box::new(expr_view(*b)),
        ),
        ExprInner::Match(s, arms) => InnerV::Match(Box::new(expr_view(*s)), arms_view(arms@)),
        ExprInner::TryCatch(t, n, c) => InnerV::TryCatch(
            Box::new(expr_view(*t)),
            n@,
            Box::new(expr_view(*c)),
        ),
        ExprInner::Spawn(b) => InnerV::Spawn(Box::new(expr_view(*b))),
        ExprInner::Send(a, b) => InnerV::Send(Box::new(expr_view(*a)), Box::new(expr_view(*b))),
        ExprInner::StructDef(n) => InnerV::StructDef(n@),
        ExprInner::StructDefPlus(n) => InnerV::StructDefPlus(n@),
        ExprInner::AliasDecl(n, t) => InnerV::AliasDecl(n@, Box::new(expr_view(*t))),
        ExprInner::ImplBlock(tr, ty, ms) => InnerV::ImplBlock(tr@, ty@, methods_view(ms@)),
        ExprInner::Deftype(n, vs, ps, b) => InnerV::Deftype(
            n@,
            variants_view(vs@),
            strs_view(ps@),
            b,
        ),
        ExprInner::TestSuite(n, ts, kws) => InnerV::TestSuite(n@, members_view(ts@), strs_view(kws@)),
        ExprInner::TestDecl(n, b, kws) => InnerV::TestDecl(n@, Box::new(expr_view(*b)), strs_view(kws@)),
        ExprInner::AssertEqual(a, b) => InnerV::AssertEqual(Box::new(expr_view(*a)), Box::new(expr_view(*b))),
        ExprInner::AssertFail(a, m) => InnerV::AssertFail(Box::new(expr_view(*a)), opt_str_view(m)),
        ExprInner::AssertTrue(a, m) => InnerV::AssertTrue(Box::new(expr_view(*a)), opt_str_view(m)),
        ExprInner::AssertFalse(a, m) => InnerV::AssertFalse(Box::new(expr_view(*a)), opt_str_view(m)),
        ExprInner::TestProperty(n, g, b) => InnerV::TestProperty(n@, g@, Box::new(expr_view(*b))),
        ExprInner::Setup(es) => InnerV::Setup(exprs_view(es@)),
        ExprInner::Teardown(es) => InnerV::Teardown(exprs_view(es@)),
        ExprInner::RunTests(b) => InnerV::RunTests(b),
        ExprInner::TestCompile(a, b) => InnerV::TestCompile(Box::new(expr_view(*a)), b),
        ExprInner::Apply(n, args) => InnerV::Apply(n@, exprs_view(args@)),
        ExprInner::MacroDef(n, ps, t) => InnerV::MacroDef(n@, strs_view(ps@), Box::new(expr_view(*t))),
        ExprInner::Quote(a) => InnerV::Quote(Box::new(expr_view(*a))),
        ExprInner::Requires(a) => InnerV::Requires(Box::new(expr_view(*a))),
        ExprInner::Ensures(a) => InnerV::Ensures(Box::new(expr_view(*a))),
        ExprInner::Invariant(a) => InnerV::Invariant(Box::new(expr_view(*a))),
        ExprInner::Recover(a, arms) => InnerV::Recover(Box::new(expr_view(*a)), handlers_view(arms@)),
        ExprInner::Checkpoint(a) => InnerV::Checkpoint(Box::new(expr_view(*a))),
        ExprInner::ContractsOff(a) => InnerV::ContractsOff(Box::new(expr_view(*a))),
    };
    ExprV { span: e.span, inner }
}

impl View for Expr {
    type V = ExprV;

    open spec fn view(&self) -> ExprV {
        expr_view(*self)
    }
}


// ============================================================================
// SPECIFICATION OF THE INJECTION
// ============================================================================

/// The unit atom at a span.
pub open spec fn unit_at(span: Span) -> ExprV {
    ExprV { span, inner: InnerV::Atom(AtomV::Ident("Unit"@)) }
}

/// `(if cond Unit (error msg))`, every part at the span of `cond`.
pub open spec fn check_form(cond: ExprV, msg: Seq<char>) -> ExprV {
    ExprV {
        span: cond.span,
        inner: InnerV::If(
            Box::new(cond),
            Box::new(unit_at(cond.span)),
            Box::new(ExprV { span: cond.span, inner: InnerV::Error(msg) }),
        ),
    }
}

/// The recovery form of `x` under handlers `arms`: a try/catch with the first
/// handler, or `x` itself when there is none.
pub open spec fn recovery_of(x: ExprV, arms: Seq<(Seq<char>, ExprV)>) -> ExprV {
    if arms.len() > 0 {
        ExprV { span: x.span, inner: InnerV::TryCatch(Box::new(x), arms[0].0, Box::new(arms[0].1)) }
    } else {
        x
    }
}

/// Whether an expression form is a contract form.
pub open spec fn is_contract_form(i: InnerV) -> bool {
    match i {
        InnerV::Requires(_) | InnerV::Ensures(_) | InnerV::Invariant(_) | InnerV::Recover(_, _)
        | InnerV::Checkpoint(_) | InnerV::ContractsOff(_) => true,
        _ => false,
    }
}

/// Each expression of a list, injected (`off`: inside a contracts-off scope).
pub open spec fn inject_seq(s: Seq<ExprV>, off: bool) -> Seq<ExprV>
    decreases s, 1int,
{
    Seq::new(s.len(), |i: int| if 0 <= i < s.len() { inject_in(s[i], off) } else { dummy_v() })
}

/// Each match arm's body, injected.
pub open spec fn inject_arms(s: Seq<MatchArmV>, off: bool) -> Seq<MatchArmV>
    decreases s, 1int,
{
    Seq::new(
        s.len(),
        |i: int|
            if 0 <= i < s.len() {
                MatchArmV { pattern: s[i].pattern, body: inject_in(s[i].body, off) }
            } else {
                MatchArmV { pattern: seq![], body: dummy_v() }
            },
    )
}

/// Each impl method's body, injected.
pub open spec fn inject_methods(s: Seq<ImplMethodV>, off: bool) -> Seq<ImplMethodV>
    decreases s, 1int,
{
    Seq::new(
        s.len(),
        |i: int|
            if 0 <= i < s.len() {
                ImplMethodV { name: s[i].name, params: s[i].params, body: inject_in(s[i].body, off) }
            } else {
                ImplMethodV { name: seq![], params: seq![], body: dummy_v() }
            },
    )
}

/// Each member of a test suite, injected.
pub open spec fn inject_members(s: Seq<TestOrSuiteV>, off: bool) -> Seq<TestOrSuiteV>
    decreases s, 2int,
{
    Seq::new(
        s.len(),
        |i: int| if 0 <= i < s.len() { inject_member(s[i], off) } else { TestOrSuiteV::Suite(seq![], seq![]) },
    )
}

/// The tests directly inside a nested suite, with their bodies injected;
/// nested suites stay as they are.
pub open spec fn inject_suite_tests(s: Seq<TestOrSuiteV>, off: bool) -> Seq<TestOrSuiteV>
    decreases s, 1int,
{
    Seq::new(
        s.len(),
        |i: int|
            if 0 <= i < s.len() {
                match s[i] {
                    TestOrSuiteV::Test(n2, b2) => TestOrSuiteV::Test(n2, inject_in(b2, off)),
                    other => other,
                }
            } else {
                TestOrSuiteV::Suite(seq![], seq![])
            },
    )
}

/// A member of a test suite, injected: a test's body, or the bodies of the
/// tests directly inside a suite (deeper suites stay as they are).
pub open spec fn inject_member(t: TestOrSuiteV, off: bool) -> TestOrSuiteV
    decreases t, 1int,
{
    match t {
        TestOrSuiteV::Test(n, b) => TestOrSuiteV::Test(n, inject_in(b, off)),
        TestOrSuiteV::Suite(n, ts) => TestOrSuiteV::Suite(n, inject_suite_tests(ts, off)),
    }
}

/// The result of contract injection on an expression, inside a contracts-off
/// scope when `off` holds. Outside such a scope each contract form reached by
/// the walk becomes its check: `requires`, `ensures`, `invariant` become
/// `(if cond Unit (error ..))`; `recover` becomes a try/catch of its expression
/// with its first handler; `checkpoint` becomes its body; `contracts off`
/// becomes its body with every contract form in it removed. Inside such a scope
/// every contract form becomes the unit atom at its span. The walk descends
/// into the sub-expressions of the other forms.
pub open spec fn inject_in(e: ExprV, off: bool) -> ExprV
    decreases e, 0int,
{
    let span = e.span;
    if off && is_contract_form(e.inner) {
        unit_at(span)
    } else {
        match e.inner {
            InnerV::Requires(c) => check_form(*c, "precondition failed"@),
            InnerV::Ensures(c) => check_form(*c, "postcondition failed"@),
            InnerV::Invariant(c) => check_form(*c, "invariant violated"@),
            InnerV::Recover(x, arms) => recovery_of(*x, arms),
            InnerV::Checkpoint(c) => *c,
            InnerV::ContractsOff(c) => inject_in(*c, true),
            InnerV::Def(n, b) => ExprV { span, inner: InnerV::Def(n, Box::new(inject_in(*b, off))) },
            InnerV::Defn(n, ps, b) => ExprV { span, inner: InnerV::Defn(n, ps, Box::new(inject_in(*b, off))) },
            InnerV::Let(n, v, b) => ExprV {
                span,
                inner: InnerV::Let(n, Box::new(inject_in(*v, off)), Box::new(inject_in(*b, off))),
            },
            InnerV::LetMut(n, v, b) => ExprV {
                span,
                inner: InnerV::LetMut(n, Box::new(inject_in(*v, off)), Box::new(inject_in(*b, off))),
            },
            InnerV::If(c, t, f) => ExprV {
                span,
                inner: InnerV::If(
                    Box::new(inject_in(*c, off)),
                    Box::new(inject_in(*t, off)),
                    Box::new(inject_in(*f, off)),
                ),
            },
            InnerV::Begin(es) => ExprV { span, inner: InnerV::Begin(inject_seq(es, off)) },
            InnerV::Call(f, args) => ExprV {
                span,
                inner: InnerV::Call(Box::new(inject_in(*f, off)), inject_seq(args, off)),
            },
            InnerV::Lambda(ps, rt, b) => ExprV { span, inner: InnerV::Lambda(ps, rt, Box::new(inject_in(*b, off))) },
            InnerV::Match(sc, arms) => ExprV {
                span,
                inner: InnerV::Match(Box::new(inject_in(*sc, off)), inject_arms(arms, off)),
            },
            InnerV::TryCatch(t, n, c) => ExprV {
                span,
                inner: InnerV::TryCatch(Box::new(inject_in(*t, off)), n, Box::new(inject_in(*c, off))),
            },
            InnerV::Spawn(b) => ExprV { span, inner: InnerV::Spawn(Box::new(inject_in(*b, off))) },
            InnerV::Send(a, b) => ExprV {
                span,
                inner: InnerV::Send(Box::new(inject_in(*a, off)), Box::new(inject_in(*b, off))),
            },
            InnerV::AliasDecl(n, t) => ExprV { span, inner: InnerV::AliasDecl(n, Box::new(inject_in(*t, off))) },
            InnerV::ImplBlock(tr, ty, ms) => ExprV {
                span,
                inner: InnerV::ImplBlock(tr, ty, inject_methods(ms, off)),
            },
            InnerV::TestSuite(n, ts, kws) => ExprV {
                span,
                inner: InnerV::TestSuite(n, inject_members(ts, off), kws),
            },
            InnerV::TestDecl(n, b, kws) => ExprV {
                span,
                inner: InnerV::TestDecl(n, Box::new(inject_in(*b, off)), kws),
            },
            InnerV::AssertEqual(a, b) => ExprV {
                span,
                inner: InnerV::AssertEqual(Box::new(inject_in(*a, off)), Box::new(inject_in(*b, off))),
            },
            InnerV::AssertFail(a, m) => ExprV { span, inner: InnerV::AssertFail(Box::new(inject_in(*a, off)), m) },
            InnerV::AssertTrue(a, m) => ExprV { span, inner: InnerV::AssertTrue(Box::new(inject_in(*a, off)), m) },
            InnerV::AssertFalse(a, m) => ExprV { span, inner: InnerV::AssertFalse(Box::new(inject_in(*a, off)), m) },
            InnerV::TestProperty(n, g, b) => ExprV {
                span,
                inner: InnerV::TestProperty(n, g, Box::new(inject_in(*b, off))),
            },
            InnerV::Setup(es) => ExprV { span, inner: InnerV::Setup(inject_seq(es, off)) },
            InnerV::Teardown(es) => ExprV { span, inner: InnerV::Teardown(inject_seq(es, off)) },
            InnerV::TestCompile(a, b) => ExprV { span, inner: InnerV::TestCompile(Box::new(inject_in(*a, off)), b) },
            InnerV::Apply(n, args) => ExprV { span, inner: InnerV::Apply(n, inject_seq(args, off)) },
            InnerV::MacroDef(n, ps, t) => ExprV {
                span,
                inner: InnerV::MacroDef(n, ps, Box::new(inject_in(*t, off))),
            },
            _ => e,
        }
    }
}

/// The result of contract injection on a top-level expression.
pub open spec fn inject(e: ExprV) -> ExprV {
    inject_in(e, false)
}

// ============================================================================
// COPYING
// ============================================================================

fn copy_strings(v: &Vec<String>) -> (r: Vec<String>)
    ensures
        r@ == v@,
{
    let mut r: Vec<String> = Vec::new();
    let mut i: usize = 0;
    while i < v.len()
        invariant
            i <= v@.len(),
            r@ == v@.take(i as int),
        decreases v.len() - i,
    {
        r.push(v[i].clone());
        assert(r@ =~= v@.take(i + 1));
        i = i + 1;
    }
    assert(v@.take(v@.len() as int) =~= v@);
    r
}

fn copy_opt_string(o: &Option<String>) -> (r: Option<String>)
    ensures
        r == *o,
{
    match o {
        Some(s) => Some(s.clone()),
        None => None,
    }
}

fn copy_atom(a: &Atom) -> (r: Atom)
    ensures
        r == *a,
{
    match a {
        Atom::Ident(s) => Atom::Ident(s.clone()),
        Atom::Int(i) => Atom::Int(*i),
        Atom::Bool(b) => Atom::Bool(*b),
        Atom::Str(s) => Atom::Str(s.clone()),
    }
}

fn copy_variants(v: &Vec<VariantDecl>) -> (r: Vec<VariantDecl>)
    ensures
        variants_view(r@) == variants_view(v@),
{
    let mut r: Vec<VariantDecl> = Vec::new();
    let mut i: usize = 0;
    while i < v.len()
        invariant
            i <= v@.len(),
            r@.len() == i,
            forall|j: int| 0 <= j < i ==> #[trigger] r@[j].name == v@[j].name && r@[j].fields@ == v@[j].fields@,
        decreases v.len() - i,
    {
        let d = VariantDecl { name: v[i].name.clone(), fields: copy_strings(&v[i].fields) };
        r.push(d);
        i = i + 1;
    }
    assert(variants_view(r@) =~= variants_view(v@));
    r
}

fn copy_exprs(v: &Vec<Expr>) -> (r: Vec<Expr>)
    ensures
        exprs_view(r@) == exprs_view(v@),
    decreases v, 1int,
{
    let mut r: Vec<Expr> = Vec::new();
    let mut i: usize = 0;
    while i < v.len()
        invariant
            i <= v@.len(),
            r@.len() == i,
            forall|j: int| 0 <= j < i ==> #[trigger] r@[j]@ == v@[j]@,
        decreases v.len() - i,
    {
        proof {
            assert(decreases_to!(v => v@[i as int]));
        }
        let c = copy_expr(&v[i]);
        r.push(c);
        i = i + 1;
    }
    assert forall|j: int| 0 <= j < v@.len() implies exprs_view(r@)[j] == exprs_view(v@)[j] by {
        assert(r@[j]@ == v@[j]@);
    }
    assert(exprs_view(r@) =~= exprs_view(v@));
    r
}

fn copy_arms(v: &Vec<MatchArm>) -> (r: Vec<MatchArm>)
    ensures
        arms_view(r@) == arms_view(v@),
    decreases v, 1int,
{
    let mut r: Vec<MatchArm> = Vec::new();
    let mut i: usize = 0;
    while i < v.len()
        invariant
            i <= v@.len(),
            r@.len() == i,
            forall|j: int| 0 <= j < i ==> #[trigger] r@[j].pattern == v@[j].pattern && r@[j].body@ == v@[j].body@,
        decreases v.len() - i,
    {
        proof {
            assert(decreases_to!(v => v@[i as int].body));
        }
        let a = MatchArm { pattern: v[i].pattern.clone(), body: copy_expr(&v[i].body) };
        r.push(a);
        i = i + 1;
    }
    assert(arms_view(r@) =~= arms_view(v@));
    r
}

fn copy_methods(v: &Vec<ImplMethod>) -> (r: Vec<ImplMethod>)
    ensures
        methods_view(r@) == methods_view(v@),
    decreases v, 1int,
{
    let mut r: Vec<ImplMethod> = Vec::new();
    let mut i: usize = 0;
    while i < v.len()
        invariant
            i <= v@.len(),
            r@.len() == i,
            forall|j: int| 0 <= j < i ==> #[trigger] r@[j].defn.name == v@[j].defn.name
                && r@[j].defn.params@ == v@[j].defn.params@ && r@[j].defn.body@ == v@[j].defn.body@,
        decreases v.len() - i,
    {
        proof {
            assert(decreases_to!(v => v@[i as int].defn.body));
        }
        let d = DefnDecl {
            name: v[i].defn.name.clone(),
            params: copy_strings(&v[i].defn.params),
            body: copy_expr(&v[i].defn.body),
        };
        r.push(ImplMethod { defn: d });
        i = i + 1;
    }
    assert(methods_view(r@) =~= methods_view(v@));
    r
}

fn copy_handlers(v: &Vec<(String, Box<Expr>)>) -> (r: Vec<(String, Box<Expr>)>)
    ensures
        handlers_view(r@) == handlers_view(v@),
    decreases v, 1int,
{
    let mut r: Vec<(String, Box<Expr>)> = Vec::new();
    let mut i: usize = 0;
    while i < v.len()
        invariant
            i <= v@.len(),
            r@.len() == i,
            forall|j: int| 0 <= j < i ==> #[trigger] r@[j].0 == v@[j].0 && expr_view(*r@[j].1) == expr_view(*v@[j].1),
        decreases v.len() - i,
    {
        proof {
            assert(decreases_to!(v => *v@[i as int].1));
        }
        let h = (v[i].0.clone(), Box::new(copy_expr(&v[i].1)));
        r.push(h);
        i = i + 1;
    }
    assert(handlers_view(r@) =~= handlers_view(v@));
    r
}

fn copy_members(v: &Vec<TestOrSuite>) -> (r: Vec<TestOrSuite>)
    ensures
        members_view(r@) == members_view(v@),
    decreases v, 1int,
{
    let mut r: Vec<TestOrSuite> = Vec::new();
    let mut i: usize = 0;
    while i < v.len()
        invariant
            i <= v@.len(),
            r@.len() == i,
            forall|j: int| 0 <= j < i ==> #[trigger] tos_view(r@[j]) == tos_view(v@[j]),
        decreases v.len() - i,
    {
        proof {
            assert(decreases_to!(v => v@[i as int]));
        }
        let m = copy_member(&v[i]);
        r.push(m);
        i = i + 1;
    }
    assert forall|j: int| 0 <= j < v@.len() implies members_view(r@)[j] == members_view(v@)[j] by {
        assert(tos_view(r@[j]) == tos_view(v@[j]));
    }
    assert(members_view(r@) =~= members_view(v@));
    r
}

fn copy_member(t: &TestOrSuite) -> (r: TestOrSuite)
    ensures
        tos_view(r) == tos_view(*t),
    decreases t, 0int,
{
    match t {
        TestOrSuite::Test(td) => TestOrSuite::Test(TestDef { name: td.name.clone(), body: copy_expr(&td.body) }),
        TestOrSuite::Suite(sd) => TestOrSuite::Suite(SuiteDef { name: sd.name.clone(), tests: copy_members(&sd.tests) }),
    }
}

fn copy_box(b: &Box<Expr>) -> (r: Box<Expr>)
    ensures
        expr_view(*r) == expr_view(**b),
    decreases b, 1int,
{
    Box::new(copy_expr(b))
}

/// A copy of an expression.
fn copy_expr(e: &Expr) -> (r: Expr)
    ensures
        r@ == e@,
    decreases e, 0int,
{
    let inner = match &e.inner {
        ExprInner::Atom(a) => ExprInner::Atom(copy_atom(a)),
        ExprInner::Error(m) => ExprInner::Error(m.clone()),
        ExprInner::Defn(n, ps, b) => ExprInner::Defn(n.clone(), copy_strings(ps), copy_box(b)),
        ExprInner::Def(n, b) => ExprInner::Def(n.clone(), copy_box(b)),
        ExprInner::Let(n, v, b) => ExprInner::Let(n.clone(), copy_box(v), copy_box(b)),
        ExprInner::LetMut(n, v, b) => ExprInner::LetMut(n.clone(), copy_box(v), copy_box(b)),
        ExprInner::If(c, t, f) => ExprInner::If(copy_box(c), copy_box(t), copy_box(f)),
        ExprInner::Begin(es) => ExprInner::Begin(copy_exprs(es)),
        ExprInner::Call(f, args) => ExprInner::Call(copy_box(f), copy_exprs(args)),
        ExprInner::Lambda(ps, rt, b) => ExprInner::Lambda(copy_strings(ps), copy_opt_string(rt), copy_box(b)),
        ExprInner::Match(sc, arms) => ExprInner::Match(copy_box(sc), copy_arms(arms)),
        ExprInner::TryCatch(t, n, c) => ExprInner::TryCatch(copy_box(t), n.clone(), copy_box(c)),
        ExprInner::Spawn(b) => ExprInner::Spawn(copy_box(b)),
        ExprInner::Send(a, b) => ExprInner::Send(copy_box(a), copy_box(b)),
        ExprInner::StructDef(n) => ExprInner::StructDef(n.clone()),
        ExprInner::StructDefPlus(n) => ExprInner::StructDefPlus(n.clone()),
        ExprInner::AliasDecl(n, t) => ExprInner::AliasDecl(n.clone(), copy_box(t)),
        ExprInner::ImplBlock(tr, ty, ms) => ExprInner::ImplBlock(tr.clone(), ty.clone(), copy_methods(ms)),
        ExprInner::Deftype(n, vs, ps, b) => ExprInner::Deftype(n.clone(), copy_variants(vs), copy_strings(ps), *b),
        ExprInner::TestSuite(n, ts, kws) => ExprInner::TestSuite(n.clone(), copy_members(ts), copy_strings(kws)),
        ExprInner::TestDecl(n, b, kws) => ExprInner::TestDecl(n.clone(), copy_box(b), copy_strings(kws)),
        ExprInner::AssertEqual(a, b) => ExprInner::AssertEqual(copy_box(a), copy_box(b)),
        ExprInner::AssertFail(a, m) => ExprInner::AssertFail(copy_box(a), copy_opt_string(m)),
        ExprInner::AssertTrue(a, m) => ExprInner::AssertTrue(copy_box(a), copy_opt_string(m)),
        ExprInner::AssertFalse(a, m) => ExprInner::AssertFalse(copy_box(a), copy_opt_string(m)),
        ExprInner::TestProperty(n, g, b) => ExprInner::TestProperty(n.clone(), g.clone(), copy_box(b)),
        ExprInner::Setup(es) => ExprInner::Setup(copy_exprs(es)),
        ExprInner::Teardown(es) => ExprInner::Teardown(copy_exprs(es)),
        ExprInner::RunTests(b) => ExprInner::RunTests(*b),
        ExprInner::TestCompile(a, b) => ExprInner::TestCompile(copy_box(a), *b),
        ExprInner::Apply(n, args) => ExprInner::Apply(n.clone(), copy_exprs(args)),
        ExprInner::MacroDef(n, ps, t) => ExprInner::MacroDef(n.clone(), copy_strings(ps), copy_box(t)),
        ExprInner::Quote(a) => ExprInner::Quote(copy_box(a)),
        ExprInner::Requires(a) => ExprInner::Requires(copy_box(a)),
        ExprInner::Ensures(a) => ExprInner::Ensures(copy_box(a)),
        ExprInner::Invariant(a) => ExprInner::Invariant(copy_box(a)),
        ExprInner::Recover(a, arms) => ExprInner::Recover(copy_box(a), copy_handlers(arms)),
        ExprInner::Checkpoint(a) => ExprInner::Checkpoint(copy_box(a)),
        ExprInner::ContractsOff(a) => ExprInner::ContractsOff(copy_box(a)),
    };
    Expr { span: e.span, inner }
}


// ============================================================================
// CONTRACT INJECTION
// ============================================================================

/// A placeholder expression, standing in a slot while its expression is rewritten.
fn placeholder() -> (e: Expr)
    ensures
        e@ == dummy_v(),
{
    Expr { span: Span::default(), inner: ExprInner::RunTests(false) }
}

/// Injects preconditions, postconditions, invariants, recovery handlers,
/// checkpoints, and contracts-off regions into the syntax tree before code
/// generation.
pub struct ContractInjector;

impl ContractInjector {
    /// Creates an injector.
    pub fn new() -> (c: Self) {
        Self
    }

    /// Injects contract checks into each expression, in place.
    ///
    /// Transforms:
    /// - (requires cond)    → (if cond Unit (error "precondition failed"))
    /// - (ensures cond)     → (if cond Unit (error "postcondition failed"))
    /// - (invariant cond)   → (if cond Unit (error "invariant violated"))
    /// - (recover expr (ErrorType fallback) ...) → a try/catch of expr with
    ///   the first handler (expr itself when there is no handler)
    /// - (checkpoint expr)  → expr
    /// - (contracts off expr) → expr with every contract form in it replaced
    ///   by Unit
    pub fn inject(&self, exprs: &mut [Expr]) -> (r: Result<(), ZylError>)
        ensures
            r is Ok,
            final(exprs)@.len() == old(exprs)@.len(),
            forall|i: int|
                0 <= i < old(exprs)@.len() ==> #[trigger] final(exprs)@[i]@ == inject(
                    old(exprs)@[i]@,
                ),
    {
        let mut i: usize = 0;
        while i < exprs.len()
            invariant
                i <= exprs@.len(),
                exprs@.len() == old(exprs)@.len(),
                forall|j: int| 0 <= j < i ==> #[trigger] exprs@[j]@ == inject(old(exprs)@[j]@),
                forall|j: int| i <= j < exprs@.len() ==> #[trigger] exprs@[j] == old(exprs)@[j],
            decreases exprs@.len() - i,
        {
            let mut e = placeholder();
            core::mem::swap(&mut exprs[i], &mut e);
            let injected = self.inject_expr(e)?;
            exprs[i] = injected;
            i = i + 1;
        }
        Ok(())
    }

    fn inject_expr(&self, expr: Expr) -> (r: Result<Expr, ZylError>)
        ensures
            r is Ok && r->Ok_0@ == inject(expr@),
    {
        let span = expr.span;
        match expr.inner {
            ExprInner::Defn(name, params, body) => {
                // Preconditions and postconditions are injected in the body.
                let body = self.inject_function_body(*body)?;
                Ok(Expr { span, inner: ExprInner::Defn(name, params, Box::new(body)) })
            },
            ExprInner::Requires(inner) => self.make_precondition_check(*inner),
            ExprInner::Ensures(inner) => self.make_postcondition_check(*inner),
            ExprInner::Invariant(inner) => self.make_invariant_check(*inner),
            ExprInner::Recover(expr, arms) => self.make_recovery(*expr, &arms),
            ExprInner::Checkpoint(inner) => self.make_checkpoint(*inner),
            ExprInner::ContractsOff(inner) => self.strip_contracts(*inner),
            other => self.walk_expr(Expr { span, inner: other }),
        }
    }

    fn inject_function_body(&self, body: Expr) -> (r: Result<Expr, ZylError>)
        ensures
            r is Ok && r->Ok_0@ == inject(body@),
    {
        self.walk_expr(body)
    }

    fn make_check(&self, cond: Expr, msg: &str) -> (r: Result<Expr, ZylError>)
        ensures
            r is Ok && r->Ok_0@ == check_form(cond@, msg@),
    {
        let span = cond.span;
        let unit = Expr { span, inner: ExprInner::Atom(Atom::Ident(string_of("Unit"))) };
        let err = Expr { span, inner: ExprInner::Error(string_of(msg)) };
        assert(unit@ == unit_at(span));
        assert(err@ == (ExprV { span, inner: InnerV::Error(msg@) }));
        let r = Expr { span, inner: ExprInner::If(Box::new(cond), Box::new(unit), Box::new(err)) };
        assert(r@ == check_form(cond@, msg@));
        Ok(r)
    }

    /// (requires cond) → (if cond Unit (error "precondition failed"))
    fn make_precondition_check(&self, cond: Expr) -> (r: Result<Expr, ZylError>)
        ensures
            r is Ok && r->Ok_0@ == check_form(cond@, "precondition failed"@),
    {
        self.make_check(cond, "precondition failed")
    }

    /// (ensures cond) → (if cond Unit (error "postcondition failed"))
    fn make_postcondition_check(&self, cond: Expr) -> (r: Result<Expr, ZylError>)
        ensures
            r is Ok && r->Ok_0@ == check_form(cond@, "postcondition failed"@),
    {
        self.make_check(cond, "postcondition failed")
    }

    /// (invariant cond) → (if cond Unit (error "invariant violated"))
    fn make_invariant_check(&self, cond: Expr) -> (r: Result<Expr, ZylError>)
        ensures
            r is Ok && r->Ok_0@ == check_form(cond@, "invariant violated"@),
    {
        self.make_check(cond, "invariant violated")
    }

    /// (recover expr (ErrorType fallback) ...) → a try/catch with the first handler.
    fn make_recovery(&self, expr: Expr, arms: &Vec<(String, Box<Expr>)>) -> (r: Result<Expr, ZylError>)
        ensures
            r is Ok && r->Ok_0@ == recovery_of(expr@, handlers_view(arms@)),
    {
        if arms.len() > 0 {
            let (err_type, fallback) = &arms[0];
            let span = expr.span;
            Ok(Expr { span, inner: ExprInner::TryCatch(Box::new(expr), err_type.clone(), copy_box(fallback)) })
        } else {
            Ok(expr)
        }
    }

    /// The unit atom at a span: what a contract form becomes inside a
    /// contracts-off scope.
    fn make_unit(&self, span: Span) -> (r: Expr)
        ensures
            r@ == unit_at(span),
    {
        Expr { span, inner: ExprInner::Atom(Atom::Ident(string_of("Unit"))) }
    }

    /// (checkpoint expr) → expr
    fn make_checkpoint(&self, expr: Expr) -> (r: Result<Expr, ZylError>)
        ensures
            r is Ok && r->Ok_0 == expr,
    {
        Ok(expr)
    }

    /// (contracts off expr) → expr with all contract forms removed.
    fn strip_contracts(&self, expr: Expr) -> (r: Result<Expr, ZylError>)
        ensures
            r is Ok && r->Ok_0@ == inject_in(expr@, true),
        decreases expr, 2int,
    {
        self.strip_contracts_recursive(expr)
    }

    fn strip_contracts_recursive(&self, expr: Expr) -> (r: Result<Expr, ZylError>)
        ensures
            r is Ok && r->Ok_0@ == inject_in(expr@, true),
        decreases expr, 1int,
    {
        match expr.inner {
            ExprInner::Requires(_) | ExprInner::Ensures(_) | ExprInner::Invariant(_)
            | ExprInner::Recover(_, _) | ExprInner::Checkpoint(_) | ExprInner::ContractsOff(_) => {
                // Replace with Unit (no-op)
                Ok(self.make_unit(expr.span))
            },
            _ => self.walk_expr_mut(expr, true),
        }
    }

    fn walk_expr(&self, expr: Expr) -> (r: Result<Expr, ZylError>)
        ensures
            r is Ok && r->Ok_0@ == inject(expr@),
    {
        self.walk_expr_mut(expr, false)
    }

    fn walk_box(&self, b: Box<Expr>, off: bool) -> (r: Result<Box<Expr>, ZylError>)
        ensures
            r is Ok && expr_view(*r->Ok_0) == inject_in(expr_view(*b), off),
        decreases b, 1int,
    {
        Ok(Box::new(self.walk_expr_mut(*b, off)?))
    }

    fn walk_vec(&self, es: Vec<Expr>, off: bool) -> (r: Result<Vec<Expr>, ZylError>)
        ensures
            r is Ok && exprs_view(r->Ok_0@) == inject_seq(exprs_view(es@), off),
        decreases es, 1int,
    {
        let ghost orig = es@;
        let mut items = es;
        let mut out: Vec<Expr> = Vec::new();
        let ghost mut i: int = 0;
        while items.len() > 0
            invariant
                0 <= i <= orig.len(),
                orig == es@,
                items@ == orig.subrange(i, orig.len() as int),
                out@.len() == i,
                forall|j: int| 0 <= j < i ==> #[trigger] out@[j]@ == inject_in(orig[j]@, off),
            decreases items@.len(),
        {
            let x = items.remove(0);
            proof {
                assert(x == orig[i]);
                assert(decreases_to!(es => es@[i]));
            }
            let y = self.walk_expr_mut(x, off)?;
            out.push(y);
            proof {
                i = i + 1;
            }
        }
        assert forall|j: int| 0 <= j < orig.len() implies exprs_view(out@)[j] == inject_seq(exprs_view(orig), off)[j] by {
            assert(out@[j]@ == inject_in(orig[j]@, off));
        }
        assert(exprs_view(out@) =~= inject_seq(exprs_view(es@), off));
        Ok(out)
    }

    fn walk_arms(&self, arms: Vec<MatchArm>, off: bool) -> (r: Result<Vec<MatchArm>, ZylError>)
        ensures
            r is Ok && arms_view(r->Ok_0@) == inject_arms(arms_view(arms@), off),
        decreases arms, 1int,
    {
        let ghost orig = arms@;
        let mut items = arms;
        let mut out: Vec<MatchArm> = Vec::new();
        let ghost mut i: int = 0;
        while items.len() > 0
            invariant
                0 <= i <= orig.len(),
                orig == arms@,
                items@ == orig.subrange(i, orig.len() as int),
                out@.len() == i,
                forall|j: int| 0 <= j < i ==> #[trigger] out@[j].pattern == orig[j].pattern
                    && out@[j].body@ == inject_in(orig[j].body@, off),
            decreases items@.len(),
        {
            let x = items.remove(0);
            proof {
                assert(x == orig[i]);
                assert(decreases_to!(arms => arms@[i].body));
            }
            let body = self.walk_expr_mut(x.body, off)?;
            out.push(MatchArm { pattern: x.pattern, body });
            proof {
                i = i + 1;
            }
        }
        assert(arms_view(out@) =~= inject_arms(arms_view(arms@), off));
        Ok(out)
    }

    fn walk_methods(&self, ms: Vec<ImplMethod>, off: bool) -> (r: Result<Vec<ImplMethod>, ZylError>)
        ensures
            r is Ok && methods_view(r->Ok_0@) == inject_methods(methods_view(ms@), off),
        decreases ms, 1int,
    {
        let ghost orig = ms@;
        let mut items = ms;
        let mut out: Vec<ImplMethod> = Vec::new();
        let ghost mut i: int = 0;
        while items.len() > 0
            invariant
                0 <= i <= orig.len(),
                orig == ms@,
                items@ == orig.subrange(i, orig.len() as int),
                out@.len() == i,
                forall|j: int| 0 <= j < i ==> #[trigger] out@[j].defn.name == orig[j].defn.name
                    && out@[j].defn.params == orig[j].defn.params
                    && out@[j].defn.body@ == inject_in(orig[j].defn.body@, off),
            decreases items@.len(),
        {
            let x = items.remove(0);
            proof {
                assert(x == orig[i]);
                assert(decreases_to!(ms => ms@[i].defn.body));
            }
            let body = self.walk_expr_mut(x.defn.body, off)?;
            out.push(ImplMethod { defn: DefnDecl { name: x.defn.name, params: x.defn.params, body } });
            proof {
                i = i + 1;
            }
        }
        assert(methods_view(out@) =~= inject_methods(methods_view(ms@), off));
        Ok(out)
    }

    fn walk_suite_tests(&self, ts: Vec<TestOrSuite>, off: bool) -> (r: Result<Vec<TestOrSuite>, ZylError>)
        ensures
            r is Ok && members_view(r->Ok_0@) == inject_suite_tests(members_view(ts@), off),
        decreases ts, 1int,
    {
        let ghost orig = ts@;
        let mut items = ts;
        let mut out: Vec<TestOrSuite> = Vec::new();
        let ghost mut i: int = 0;
        while items.len() > 0
            invariant
                0 <= i <= orig.len(),
                orig == ts@,
                items@ == orig.subrange(i, orig.len() as int),
                out@.len() == i,
                forall|j: int| 0 <= j < i ==> #[trigger] tos_view(out@[j]) == (match tos_view(orig[j]) {
                    TestOrSuiteV::Test(n2, b2) => TestOrSuiteV::Test(n2, inject_in(b2, off)),
                    other => other,
                }),
            decreases items@.len(),
        {
            let x = items.remove(0);
            proof {
                assert(x == orig[i]);
            }
            let y = match x {
                TestOrSuite::Test(td) => {
                    proof {
                        assert(decreases_to!(ts => ts@[i]->Test_0.body));
                    }
                    let body = self.walk_expr_mut(td.body, off)?;
                    TestOrSuite::Test(TestDef { name: td.name, body })
                },
                other => other,
            };
            out.push(y);
            proof {
                i = i + 1;
            }
        }
        assert forall|j: int| 0 <= j < orig.len() implies members_view(out@)[j] == inject_suite_tests(members_view(orig), off)[j] by {
            assert(tos_view(out@[j]) == (match tos_view(orig[j]) {
                TestOrSuiteV::Test(n2, b2) => TestOrSuiteV::Test(n2, inject_in(b2, off)),
                other => other,
            }));
        }
        assert(members_view(out@) =~= inject_suite_tests(members_view(ts@), off));
        Ok(out)
    }

    fn walk_members(&self, ts: Vec<TestOrSuite>, off: bool) -> (r: Result<Vec<TestOrSuite>, ZylError>)
        ensures
            r is Ok && members_view(r->Ok_0@) == inject_members(members_view(ts@), off),
        decreases ts, 1int,
    {
        let ghost orig = ts@;
        let mut items = ts;
        let mut out: Vec<TestOrSuite> = Vec::new();
        let ghost mut i: int = 0;
        while items.len() > 0
            invariant
                0 <= i <= orig.len(),
                orig == ts@,
                items@ == orig.subrange(i, orig.len() as int),
                out@.len() == i,
                forall|j: int| 0 <= j < i ==> #[trigger] tos_view(out@[j]) == inject_member(tos_view(orig[j]), off),
            decreases items@.len(),
        {
            let x = items.remove(0);
            proof {
                assert(x == orig[i]);
            }
            let y = match x {
                TestOrSuite::Test(td) => {
                    proof {
                        assert(decreases_to!(ts => ts@[i]->Test_0.body));
                    }
                    let body = self.walk_expr_mut(td.body, off)?;
                    TestOrSuite::Test(TestDef { name: td.name, body })
                },
                TestOrSuite::Suite(sd) => {
                    proof {
                        assert(decreases_to!(ts => ts@[i]->Suite_0.tests));
                    }
                    let tests = self.walk_suite_tests(sd.tests, off)?;
                    TestOrSuite::Suite(SuiteDef { name: sd.name, tests })
                },
            };
            out.push(y);
            proof {
                i = i + 1;
            }
        }
        assert forall|j: int| 0 <= j < orig.len() implies members_view(out@)[j] == inject_members(members_view(orig), off)[j] by {
            assert(tos_view(out@[j]) == inject_member(tos_view(orig[j]), off));
        }
        assert(members_view(out@) =~= inject_members(members_view(ts@), off));
        Ok(out)
    }

    #[verifier::spinoff_prover]
    #[verifier::rlimit(100)]
    fn walk_expr_mut(&self, expr: Expr, off: bool) -> (r: Result<Expr, ZylError>)
        ensures
            r is Ok && r->Ok_0@ == inject_in(expr@, off),
        decreases expr, 0int,
    {
        let span = expr.span;
        let inner = match expr.inner {
            ExprInner::Def(name, body) => ExprInner::Def(name, self.walk_box(body, off)?),
            ExprInner::Defn(name, params, body) => ExprInner::Defn(name, params, self.walk_box(body, off)?),
            ExprInner::Let(name, value, body) => {
                let value = self.walk_box(value, off)?;
                ExprInner::Let(name, value, self.walk_box(body, off)?)
            },
            ExprInner::LetMut(name, value, body) => {
                let value = self.walk_box(value, off)?;
                ExprInner::LetMut(name, value, self.walk_box(body, off)?)
            },
            ExprInner::If(cond, then_e, else_e) => {
                let cond = self.walk_box(cond, off)?;
                let then_e = self.walk_box(then_e, off)?;
                ExprInner::If(cond, then_e, self.walk_box(else_e, off)?)
            },
            ExprInner::Begin(exprs) => ExprInner::Begin(self.walk_vec(exprs, off)?),
            ExprInner::Call(f, args) => {
                let f = self.walk_box(f, off)?;
                ExprInner::Call(f, self.walk_vec(args, off)?)
            },
            ExprInner::Lambda(params, ret, body) => ExprInner::Lambda(params, ret, self.walk_box(body, off)?),
            ExprInner::Match(scrut, arms) => {
                let scrut = self.walk_box(scrut, off)?;
                ExprInner::Match(scrut, self.walk_arms(arms, off)?)
            },
            ExprInner::TryCatch(try_e, name, catch_e) => {
                let try_e = self.walk_box(try_e, off)?;
                ExprInner::TryCatch(try_e, name, self.walk_box(catch_e, off)?)
            },
            ExprInner::Spawn(e) => ExprInner::Spawn(self.walk_box(e, off)?),
            ExprInner::Send(e1, e2) => {
                let e1 = self.walk_box(e1, off)?;
                ExprInner::Send(e1, self.walk_box(e2, off)?)
            },
            ExprInner::AliasDecl(name, target) => ExprInner::AliasDecl(name, self.walk_box(target, off)?),
            ExprInner::ImplBlock(tr, ty, bodies) => ExprInner::ImplBlock(tr, ty, self.walk_methods(bodies, off)?),
            ExprInner::TestSuite(name, tests, kws) => ExprInner::TestSuite(name, self.walk_members(tests, off)?, kws),
            ExprInner::TestDecl(name, body, kws) => ExprInner::TestDecl(name, self.walk_box(body, off)?, kws),
            ExprInner::AssertEqual(a, b) => {
                let a = self.walk_box(a, off)?;
                ExprInner::AssertEqual(a, self.walk_box(b, off)?)
            },
            ExprInner::AssertFail(e, m) => ExprInner::AssertFail(self.walk_box(e, off)?, m),
            ExprInner::AssertTrue(e, m) => ExprInner::AssertTrue(self.walk_box(e, off)?, m),
            ExprInner::AssertFalse(e, m) => ExprInner::AssertFalse(self.walk_box(e, off)?, m),
            ExprInner::TestProperty(name, generator, body) => ExprInner::TestProperty(name, generator, self.walk_box(body, off)?),
            ExprInner::Setup(exprs) => ExprInner::Setup(self.walk_vec(exprs, off)?),
            ExprInner::Teardown(exprs) => ExprInner::Teardown(self.walk_vec(exprs, off)?),
            ExprInner::TestCompile(e, expect) => ExprInner::TestCompile(self.walk_box(e, off)?, expect),
            ExprInner::Apply(name, args) => ExprInner::Apply(name, self.walk_vec(args, off)?),
            ExprInner::MacroDef(name, params, template) => ExprInner::MacroDef(name, params, self.walk_box(template, off)?),
            // Contract forms: transform in place during the walk, or remove
            // them inside a contracts-off scope.
            ExprInner::Requires(inner) => {
                if off {
                    return Ok(self.make_unit(span));
                }
                return self.make_precondition_check(*inner);
            },
            ExprInner::Ensures(inner) => {
                if off {
                    return Ok(self.make_unit(span));
                }
                return self.make_postcondition_check(*inner);
            },
            ExprInner::Invariant(inner) => {
                if off {
                    return Ok(self.make_unit(span));
                }
                return self.make_invariant_check(*inner);
            },
            ExprInner::Recover(e, arms) => {
                if off {
                    return Ok(self.make_unit(span));
                }
                return self.make_recovery(*e, &arms);
            },
            ExprInner::Checkpoint(inner) => {
                if off {
                    return Ok(self.make_unit(span));
                }
                return self.make_checkpoint(*inner);
            },
            ExprInner::ContractsOff(inner) => {
                if off {
                    return Ok(self.make_unit(span));
                }
                return self.strip_contracts(*inner);
            },
            other => other,
        };
        Ok(Expr { span, inner })
    }
}


// ============================================================================
// LAWS
// ============================================================================

/// Whether the walk of the injection meets no contract form in `e`: `e` is not
/// a contract form, and neither is anything the walk descends into.
pub open spec fn free_of_contracts(e: ExprV) -> bool
    decreases e, 0int,
{
    match e.inner {
        InnerV::Requires(_) | InnerV::Ensures(_) | InnerV::Invariant(_) | InnerV::Recover(_, _)
        | InnerV::Checkpoint(_) | InnerV::ContractsOff(_) => false,
        InnerV::Def(_, b) => free_of_contracts(*b),
        InnerV::Defn(_, _, b) => free_of_contracts(*b),
        InnerV::Let(_, v, b) => free_of_contracts(*v) && free_of_contracts(*b),
        InnerV::LetMut(_, v, b) => free_of_contracts(*v) && free_of_contracts(*b),
        InnerV::If(c, t, f) => free_of_contracts(*c) && free_of_contracts(*t) && free_of_contracts(*f),
        InnerV::Begin(es) => all_free_of_contracts(es),
        InnerV::Call(f, args) => free_of_contracts(*f) && all_free_of_contracts(args),
        InnerV::Lambda(_, _, b) => free_of_contracts(*b),
        InnerV::Match(sc, arms) => free_of_contracts(*sc) && arms_free_of_contracts(arms),
        InnerV::TryCatch(t, _, c) => free_of_contracts(*t) && free_of_contracts(*c),
        InnerV::Spawn(b) => free_of_contracts(*b),
        InnerV::Send(a, b) => free_of_contracts(*a) && free_of_contracts(*b),
        InnerV::AliasDecl(_, t) => free_of_contracts(*t),
        InnerV::ImplBlock(_, _, ms) => methods_free_of_contracts(ms),
        InnerV::TestSuite(_, ts, _) => members_free_of_contracts(ts),
        InnerV::TestDecl(_, b, _) => free_of_contracts(*b),
        InnerV::AssertEqual(a, b) => free_of_contracts(*a) && free_of_contracts(*b),
        InnerV::AssertFail(a, _) => free_of_contracts(*a),
        InnerV::AssertTrue(a, _) => free_of_contracts(*a),
        InnerV::AssertFalse(a, _) => free_of_contracts(*a),
        InnerV::TestProperty(_, _, b) => free_of_contracts(*b),
        InnerV::Setup(es) => all_free_of_contracts(es),
        InnerV::Teardown(es) => all_free_of_contracts(es),
        InnerV::TestCompile(a, _) => free_of_contracts(*a),
        InnerV::Apply(_, args) => all_free_of_contracts(args),
        InnerV::MacroDef(_, _, t) => free_of_contracts(*t),
        _ => true,
    }
}

/// Whether the walk meets no contract form in any expression of a list.
pub open spec fn all_free_of_contracts(s: Seq<ExprV>) -> bool
    decreases s, 1int,
{
    forall|i: int| 0 <= i < s.len() ==> free_of_contracts(#[trigger] s[i])
}

/// Whether the walk meets no contract form in the bodies of match arms.
pub open spec fn arms_free_of_contracts(s: Seq<MatchArmV>) -> bool
    decreases s, 1int,
{
    forall|i: int| 0 <= i < s.len() ==> free_of_contracts(#[trigger] s[i].body)
}

/// Whether the walk meets no contract form in the bodies of impl methods.
pub open spec fn methods_free_of_contracts(s: Seq<ImplMethodV>) -> bool
    decreases s, 1int,
{
    forall|i: int| 0 <= i < s.len() ==> free_of_contracts(#[trigger] s[i].body)
}

/// Whether the walk meets no contract form in the members of a suite: in the
/// bodies of its tests, and of the tests directly inside its nested suites.
pub open spec fn members_free_of_contracts(s: Seq<TestOrSuiteV>) -> bool
    decreases s, 1int,
{
    forall|i: int|
        0 <= i < s.len() ==> match #[trigger] s[i] {
            TestOrSuiteV::Test(_, b) => free_of_contracts(b),
            TestOrSuiteV::Suite(_, ts) => forall|j: int|
                0 <= j < ts.len() ==> match #[trigger] ts[j] {
                    TestOrSuiteV::Test(_, b2) => free_of_contracts(b2),
                    _ => true,
                },
        }
}

/// Injection, inside or outside a contracts-off scope, changes nothing in an
/// expression where its walk meets no contract form.
pub proof fn law_inject_keeps_contract_free(e: ExprV, off: bool)
    requires
        free_of_contracts(e),
    ensures
        inject_in(e, off) == e,
    decreases e, 0int,
{
    match e.inner {
        InnerV::Def(_, b) => law_inject_keeps_contract_free(*b, off),
        InnerV::Defn(_, _, b) => law_inject_keeps_contract_free(*b, off),
        InnerV::Let(_, v, b) => {
            law_inject_keeps_contract_free(*v, off);
            law_inject_keeps_contract_free(*b, off);
        },
        InnerV::LetMut(_, v, b) => {
            law_inject_keeps_contract_free(*v, off);
            law_inject_keeps_contract_free(*b, off);
        },
        InnerV::If(c, t, f) => {
            law_inject_keeps_contract_free(*c, off);
            law_inject_keeps_contract_free(*t, off);
            law_inject_keeps_contract_free(*f, off);
        },
        InnerV::Begin(es) => lemma_inject_seq_keeps(es, off),
        InnerV::Call(f, args) => {
            law_inject_keeps_contract_free(*f, off);
            lemma_inject_seq_keeps(args, off);
        },
        InnerV::Lambda(_, _, b) => law_inject_keeps_contract_free(*b, off),
        InnerV::Match(sc, arms) => {
            law_inject_keeps_contract_free(*sc, off);
            lemma_inject_arms_keeps(arms, off);
        },
        InnerV::TryCatch(t, _, c) => {
            law_inject_keeps_contract_free(*t, off);
            law_inject_keeps_contract_free(*c, off);
        },
        InnerV::Spawn(b) => law_inject_keeps_contract_free(*b, off),
        InnerV::Send(a, b) => {
            law_inject_keeps_contract_free(*a, off);
            law_inject_keeps_contract_free(*b, off);
        },
        InnerV::AliasDecl(_, t) => law_inject_keeps_contract_free(*t, off),
        InnerV::ImplBlock(_, _, ms) => lemma_inject_methods_keeps(ms, off),
        InnerV::TestSuite(_, ts, _) => lemma_inject_members_keeps(ts, off),
        InnerV::TestDecl(_, b, _) => law_inject_keeps_contract_free(*b, off),
        InnerV::AssertEqual(a, b) => {
            law_inject_keeps_contract_free(*a, off);
            law_inject_keeps_contract_free(*b, off);
        },
        InnerV::AssertFail(a, _) => law_inject_keeps_contract_free(*a, off),
        InnerV::AssertTrue(a, _) => law_inject_keeps_contract_free(*a, off),
        InnerV::AssertFalse(a, _) => law_inject_keeps_contract_free(*a, off),
        InnerV::TestProperty(_, _, b) => law_inject_keeps_contract_free(*b, off),
        InnerV::Setup(es) => lemma_inject_seq_keeps(es, off),
        InnerV::Teardown(es) => lemma_inject_seq_keeps(es, off),
        InnerV::TestCompile(a, _) => law_inject_keeps_contract_free(*a, off),
        InnerV::Apply(_, args) => lemma_inject_seq_keeps(args, off),
        InnerV::MacroDef(_, _, t) => law_inject_keeps_contract_free(*t, off),
        _ => {},
    }
}

proof fn lemma_inject_seq_keeps(s: Seq<ExprV>, off: bool)
    requires
        all_free_of_contracts(s),
    ensures
        inject_seq(s, off) == s,
    decreases s, 1int,
{
    assert forall|i: int| 0 <= i < s.len() implies #[trigger] inject_seq(s, off)[i] == s[i] by {
        law_inject_keeps_contract_free(s[i], off);
    }
    assert(inject_seq(s, off) =~= s);
}

proof fn lemma_inject_arms_keeps(s: Seq<MatchArmV>, off: bool)
    requires
        arms_free_of_contracts(s),
    ensures
        inject_arms(s, off) == s,
    decreases s, 1int,
{
    assert forall|i: int| 0 <= i < s.len() implies #[trigger] inject_arms(s, off)[i] == s[i] by {
        law_inject_keeps_contract_free(s[i].body, off);
    }
    assert(inject_arms(s, off) =~= s);
}

proof fn lemma_inject_methods_keeps(s: Seq<ImplMethodV>, off: bool)
    requires
        methods_free_of_contracts(s),
    ensures
        inject_methods(s, off) == s,
    decreases s, 1int,
{
    assert forall|i: int| 0 <= i < s.len() implies #[trigger] inject_methods(s, off)[i] == s[i] by {
        law_inject_keeps_contract_free(s[i].body, off);
    }
    assert(inject_methods(s, off) =~= s);
}

proof fn lemma_inject_members_keeps(s: Seq<TestOrSuiteV>, off: bool)
    requires
        members_free_of_contracts(s),
    ensures
        inject_members(s, off) == s,
    decreases s, 1int,
{
    assert forall|i: int| 0 <= i < s.len() implies #[trigger] inject_members(s, off)[i] == s[i] by {
        match s[i] {
            TestOrSuiteV::Test(_, b) => law_inject_keeps_contract_free(b, off),
            TestOrSuiteV::Suite(_, ts) => {
                assert forall|j: int| 0 <= j < ts.len() implies #[trigger] inject_suite_tests(ts, off)[j] == ts[j] by {
                    match ts[j] {
                        TestOrSuiteV::Test(_, b2) => law_inject_keeps_contract_free(b2, off),
                        _ => {},
                    }
                }
                assert(inject_suite_tests(ts, off) =~= ts);
            },
        }
    }
    assert(inject_members(s, off) =~= s);
}
/// Inside a contracts-off scope, injection removes every contract form that
/// its walk reaches: what comes out is free of contract forms.
pub proof fn law_contracts_off_removes_contracts(e: ExprV)
    ensures
        free_of_contracts(inject_in(e, true)),
    decreases e, 0int,
{
    if !is_contract_form(e.inner) {
        match e.inner {
            InnerV::Def(_, b) => law_contracts_off_removes_contracts(*b),
            InnerV::Defn(_, _, b) => law_contracts_off_removes_contracts(*b),
            InnerV::Let(_, v, b) => {
                law_contracts_off_removes_contracts(*v);
                law_contracts_off_removes_contracts(*b);
            },
            InnerV::LetMut(_, v, b) => {
                law_contracts_off_removes_contracts(*v);
                law_contracts_off_removes_contracts(*b);
            },
            InnerV::If(c, t, f) => {
                law_contracts_off_removes_contracts(*c);
                law_contracts_off_removes_contracts(*t);
                law_contracts_off_removes_contracts(*f);
            },
            InnerV::Begin(es) => lemma_off_seq_free(es),
            InnerV::Call(f, args) => {
                law_contracts_off_removes_contracts(*f);
                lemma_off_seq_free(args);
            },
            InnerV::Lambda(_, _, b) => law_contracts_off_removes_contracts(*b),
            InnerV::Match(sc, arms) => {
                law_contracts_off_removes_contracts(*sc);
                lemma_off_arms_free(arms);
            },
            InnerV::TryCatch(t, _, c) => {
                law_contracts_off_removes_contracts(*t);
                law_contracts_off_removes_contracts(*c);
            },
            InnerV::Spawn(b) => law_contracts_off_removes_contracts(*b),
            InnerV::Send(a, b) => {
                law_contracts_off_removes_contracts(*a);
                law_contracts_off_removes_contracts(*b);
            },
            InnerV::AliasDecl(_, t) => law_contracts_off_removes_contracts(*t),
            InnerV::ImplBlock(_, _, ms) => lemma_off_methods_free(ms),
            InnerV::TestSuite(_, ts, _) => lemma_off_members_free(ts),
            InnerV::TestDecl(_, b, _) => law_contracts_off_removes_contracts(*b),
            InnerV::AssertEqual(a, b) => {
                law_contracts_off_removes_contracts(*a);
                law_contracts_off_removes_contracts(*b);
            },
            InnerV::AssertFail(a, _) => law_contracts_off_removes_contracts(*a),
            InnerV::AssertTrue(a, _) => law_contracts_off_removes_contracts(*a),
            InnerV::AssertFalse(a, _) => law_contracts_off_removes_contracts(*a),
            InnerV::TestProperty(_, _, b) => law_contracts_off_removes_contracts(*b),
            InnerV::Setup(es) => lemma_off_seq_free(es),
            InnerV::Teardown(es) => lemma_off_seq_free(es),
            InnerV::TestCompile(a, _) => law_contracts_off_removes_contracts(*a),
            InnerV::Apply(_, args) => lemma_off_seq_free(args),
            InnerV::MacroDef(_, _, t) => law_contracts_off_removes_contracts(*t),
            _ => {},
        }
    }
}

proof fn lemma_off_seq_free(s: Seq<ExprV>)
    ensures
        all_free_of_contracts(inject_seq(s, true)),
    decreases s, 1int,
{
    assert forall|i: int| 0 <= i < s.len() implies free_of_contracts(#[trigger] inject_seq(s, true)[i]) by {
        law_contracts_off_removes_contracts(s[i]);
    }
}

proof fn lemma_off_arms_free(s: Seq<MatchArmV>)
    ensures
        arms_free_of_contracts(inject_arms(s, true)),
    decreases s, 1int,
{
    assert forall|i: int| 0 <= i < s.len() implies free_of_contracts(#[trigger] inject_arms(s, true)[i].body) by {
        law_contracts_off_removes_contracts(s[i].body);
    }
}

proof fn lemma_off_methods_free(s: Seq<ImplMethodV>)
    ensures
        methods_free_of_contracts(inject_methods(s, true)),
    decreases s, 1int,
{
    assert forall|i: int| 0 <= i < s.len() implies free_of_contracts(#[trigger] inject_methods(s, true)[i].body) by {
        law_contracts_off_removes_contracts(s[i].body);
    }
}

proof fn lemma_off_suite_tests_free(ts: Seq<TestOrSuiteV>)
    ensures
        forall|j: int|
            0 <= j < inject_suite_tests(ts, true).len() ==> match #[trigger] inject_suite_tests(ts, true)[j] {
                TestOrSuiteV::Test(_, b2) => free_of_contracts(b2),
                _ => true,
            },
    decreases ts, 1int,
{
    assert forall|j: int| 0 <= j < ts.len() implies match #[trigger] inject_suite_tests(ts, true)[j] {
        TestOrSuiteV::Test(_, b2) => free_of_contracts(b2),
        _ => true,
    } by {
        match ts[j] {
            TestOrSuiteV::Test(_, b2) => law_contracts_off_removes_contracts(b2),
            _ => {},
        }
    }
}

proof fn lemma_off_members_free(s: Seq<TestOrSuiteV>)
    ensures
        members_free_of_contracts(inject_members(s, true)),
    decreases s, 2int,
{
    assert forall|i: int| 0 <= i < s.len() implies match #[trigger] inject_members(s, true)[i] {
        TestOrSuiteV::Test(_, b) => free_of_contracts(b),
        TestOrSuiteV::Suite(_, ts) => forall|j: int|
            0 <= j < ts.len() ==> match #[trigger] ts[j] {
                TestOrSuiteV::Test(_, b2) => free_of_contracts(b2),
                _ => true,
            },
    } by {
        match s[i] {
            TestOrSuiteV::Test(_, b) => law_contracts_off_removes_contracts(b),
            TestOrSuiteV::Suite(_, ts) => lemma_off_suite_tests_free(ts),
        }
    }
}

/// Whether the parts of contract forms that injection copies without walking
/// them are free of contract forms: the condition of each `requires`,
/// `ensures` and `invariant`, the body of each `checkpoint`, and the
/// expression and first handler of each `recover` that the walk reaches.
pub open spec fn checks_free(e: ExprV) -> bool
    decreases e, 0int,
{
    match e.inner {
        InnerV::Requires(c) => free_of_contracts(*c),
        InnerV::Ensures(c) => free_of_contracts(*c),
        InnerV::Invariant(c) => free_of_contracts(*c),
        InnerV::Checkpoint(c) => free_of_contracts(*c),
        InnerV::Recover(x, arms) => free_of_contracts(*x) && (arms.len() > 0 ==> free_of_contracts(arms[0].1)),
        InnerV::ContractsOff(_) => true,
        InnerV::Def(_, b) => checks_free(*b),
        InnerV::Defn(_, _, b) => checks_free(*b),
        InnerV::Let(_, v, b) => checks_free(*v) && checks_free(*b),
        InnerV::LetMut(_, v, b) => checks_free(*v) && checks_free(*b),
        InnerV::If(c, t, f) => checks_free(*c) && checks_free(*t) && checks_free(*f),
        InnerV::Begin(es) => all_checks_free(es),
        InnerV::Call(f, args) => checks_free(*f) && all_checks_free(args),
        InnerV::Lambda(_, _, b) => checks_free(*b),
        InnerV::Match(sc, arms) => checks_free(*sc) && arms_checks_free(arms),
        InnerV::TryCatch(t, _, c) => checks_free(*t) && checks_free(*c),
        InnerV::Spawn(b) => checks_free(*b),
        InnerV::Send(a, b) => checks_free(*a) && checks_free(*b),
        InnerV::AliasDecl(_, t) => checks_free(*t),
        InnerV::ImplBlock(_, _, ms) => methods_checks_free(ms),
        InnerV::TestSuite(_, ts, _) => members_checks_free(ts),
        InnerV::TestDecl(_, b, _) => checks_free(*b),
        InnerV::AssertEqual(a, b) => checks_free(*a) && checks_free(*b),
        InnerV::AssertFail(a, _) => checks_free(*a),
        InnerV::AssertTrue(a, _) => checks_free(*a),
        InnerV::AssertFalse(a, _) => checks_free(*a),
        InnerV::TestProperty(_, _, b) => checks_free(*b),
        InnerV::Setup(es) => all_checks_free(es),
        InnerV::Teardown(es) => all_checks_free(es),
        InnerV::TestCompile(a, _) => checks_free(*a),
        InnerV::Apply(_, args) => all_checks_free(args),
        InnerV::MacroDef(_, _, t) => checks_free(*t),
        _ => true,
    }
}

/// Whether `checks_free` holds of every expression of a list.
pub open spec fn all_checks_free(s: Seq<ExprV>) -> bool
    decreases s, 1int,
{
    forall|i: int| 0 <= i < s.len() ==> checks_free(#[trigger] s[i])
}

/// Whether `checks_free` holds of the bodies of match arms.
pub open spec fn arms_checks_free(s: Seq<MatchArmV>) -> bool
    decreases s, 1int,
{
    forall|i: int| 0 <= i < s.len() ==> checks_free(#[trigger] s[i].body)
}

/// Whether `checks_free` holds of the bodies of impl methods.
pub open spec fn methods_checks_free(s: Seq<ImplMethodV>) -> bool
    decreases s, 1int,
{
    forall|i: int| 0 <= i < s.len() ==> checks_free(#[trigger] s[i].body)
}

/// Whether `checks_free` holds of the bodies of a suite's tests, and of the
/// tests directly inside its nested suites.
pub open spec fn members_checks_free(s: Seq<TestOrSuiteV>) -> bool
    decreases s, 1int,
{
    forall|i: int|
        0 <= i < s.len() ==> match #[trigger] s[i] {
            TestOrSuiteV::Test(_, b) => checks_free(b),
            TestOrSuiteV::Suite(_, ts) => forall|j: int|
                0 <= j < ts.len() ==> match #[trigger] ts[j] {
                    TestOrSuiteV::Test(_, b2) => checks_free(b2),
                    _ => true,
                },
        }
}

proof fn lemma_check_form_free(c: ExprV, msg: Seq<char>)
    requires
        free_of_contracts(c),
    ensures
        free_of_contracts(check_form(c, msg)),
{
    assert(free_of_contracts(unit_at(c.span)));
    assert(free_of_contracts(ExprV { span: c.span, inner: InnerV::Error(msg) }));
}

/// Injection outside a contracts-off scope leaves no contract form anywhere
/// its walk reaches: every `requires`, `ensures`, `invariant`, `recover`,
/// `checkpoint` and `contracts off`, however deep in the walked forms, is
/// replaced, provided the parts that a replacement copies unwalked hold no
/// contract form themselves.
pub proof fn law_inject_removes_contracts(e: ExprV)
    requires
        checks_free(e),
    ensures
        free_of_contracts(inject(e)),
    decreases e, 0int,
{
    match e.inner {
        InnerV::Requires(c) => lemma_check_form_free(*c, "precondition failed"@),
        InnerV::Ensures(c) => lemma_check_form_free(*c, "postcondition failed"@),
        InnerV::Invariant(c) => lemma_check_form_free(*c, "invariant violated"@),
        InnerV::Checkpoint(_) => {},
        InnerV::Recover(_, _) => {},
        InnerV::ContractsOff(c) => law_contracts_off_removes_contracts(*c),
        InnerV::Def(_, b) => {
            law_inject_removes_contracts(*b);
        },
        InnerV::Defn(_, _, b) => {
            law_inject_removes_contracts(*b);
        },
        InnerV::Let(_, v, b) => {
            law_inject_removes_contracts(*v);
            law_inject_removes_contracts(*b);
        },
        InnerV::LetMut(_, v, b) => {
            law_inject_removes_contracts(*v);
            law_inject_removes_contracts(*b);
        },
        InnerV::If(c, t, f) => {
            law_inject_removes_contracts(*c);
            law_inject_removes_contracts(*t);
            law_inject_removes_contracts(*f);
        },
        InnerV::Begin(es) => {
            lemma_seq_removes(es);
        },
        InnerV::Call(f, args) => {
            law_inject_removes_contracts(*f);
            lemma_seq_removes(args);
        },
        InnerV::Lambda(_, _, b) => {
            law_inject_removes_contracts(*b);
        },
        InnerV::Match(sc, arms) => {
            law_inject_removes_contracts(*sc);
            lemma_arms_removes(arms);
        },
        InnerV::TryCatch(t, _, c) => {
            law_inject_removes_contracts(*t);
            law_inject_removes_contracts(*c);
        },
        InnerV::Spawn(b) => {
            law_inject_removes_contracts(*b);
        },
        InnerV::Send(a, b) => {
            law_inject_removes_contracts(*a);
            law_inject_removes_contracts(*b);
        },
        InnerV::AliasDecl(_, t) => {
            law_inject_removes_contracts(*t);
        },
        InnerV::ImplBlock(_, _, ms) => {
            lemma_methods_removes(ms);
        },
        InnerV::TestSuite(_, ts, _) => {
            lemma_members_removes(ts);
        },
        InnerV::TestDecl(_, b, _) => {
            law_inject_removes_contracts(*b);
        },
        InnerV::AssertEqual(a, b) => {
            law_inject_removes_contracts(*a);
            law_inject_removes_contracts(*b);
        },
        InnerV::AssertFail(a, _) => {
            law_inject_removes_contracts(*a);
        },
        InnerV::AssertTrue(a, _) => {
            law_inject_removes_contracts(*a);
        },
        InnerV::AssertFalse(a, _) => {
            law_inject_removes_contracts(*a);
        },
        InnerV::TestProperty(_, _, b) => {
            law_inject_removes_contracts(*b);
        },
        InnerV::Setup(es) => {
            lemma_seq_removes(es);
        },
        InnerV::Teardown(es) => {
            lemma_seq_removes(es);
        },
        InnerV::TestCompile(a, _) => {
            law_inject_removes_contracts(*a);
        },
        InnerV::Apply(_, args) => {
            lemma_seq_removes(args);
        },
        InnerV::MacroDef(_, _, t) => {
            law_inject_removes_contracts(*t);
        },
        _ => {},
    }
}

proof fn lemma_seq_removes(s: Seq<ExprV>)
    requires
        all_checks_free(s),
    ensures
        all_free_of_contracts(inject_seq(s, false)),
    decreases s, 1int,
{
    assert forall|i: int| 0 <= i < s.len() implies free_of_contracts(#[trigger] inject_seq(s, false)[i]) by {
        law_inject_removes_contracts(s[i]);
    }
}

proof fn lemma_arms_removes(s: Seq<MatchArmV>)
    requires
        arms_checks_free(s),
    ensures
        arms_free_of_contracts(inject_arms(s, false)),
    decreases s, 1int,
{
    assert forall|i: int| 0 <= i < s.len() implies free_of_contracts(#[trigger] inject_arms(s, false)[i].body) by {
        law_inject_removes_contracts(s[i].body);
    }
}

proof fn lemma_methods_removes(s: Seq<ImplMethodV>)
    requires
        methods_checks_free(s),
    ensures
        methods_free_of_contracts(inject_methods(s, false)),
    decreases s, 1int,
{
    assert forall|i: int| 0 <= i < s.len() implies free_of_contracts(#[trigger] inject_methods(s, false)[i].body) by {
        law_inject_removes_contracts(s[i].body);
    }
}

proof fn lemma_suite_tests_removes(ts: Seq<TestOrSuiteV>)
    requires
        forall|j: int|
            0 <= j < ts.len() ==> match #[trigger] ts[j] {
                TestOrSuiteV::Test(_, b2) => checks_free(b2),
                _ => true,
            },
    ensures
        forall|j: int|
            0 <= j < inject_suite_tests(ts, false).len() ==> match #[trigger] inject_suite_tests(ts, false)[j] {
                TestOrSuiteV::Test(_, b2) => free_of_contracts(b2),
                _ => true,
            },
    decreases ts, 1int,
{
    assert forall|j: int| 0 <= j < ts.len() implies match #[trigger] inject_suite_tests(ts, false)[j] {
        TestOrSuiteV::Test(_, b2) => free_of_contracts(b2),
        _ => true,
    } by {
        match ts[j] {
            TestOrSuiteV::Test(_, b2) => law_inject_removes_contracts(b2),
            _ => {},
        }
    }
}

proof fn lemma_members_removes(s: Seq<TestOrSuiteV>)
    requires
        members_checks_free(s),
    ensures
        members_free_of_contracts(inject_members(s, false)),
    decreases s, 2int,
{
    assert forall|i: int| 0 <= i < s.len() implies match #[trigger] inject_members(s, false)[i] {
        TestOrSuiteV::Test(_, b) => free_of_contracts(b),
        TestOrSuiteV::Suite(_, ts) => forall|j: int|
            0 <= j < ts.len() ==> match #[trigger] ts[j] {
                TestOrSuiteV::Test(_, b2) => free_of_contracts(b2),
                _ => true,
            },
    } by {
        match s[i] {
            TestOrSuiteV::Test(_, b) => law_inject_removes_contracts(b),
            TestOrSuiteV::Suite(_, ts) => lemma_suite_tests_removes(ts),
        }
    }
}


/// An expression of form `inner` at a span.
pub open spec fn at_span(span: Span, inner: InnerV) -> ExprV {
    ExprV { span, inner }
}

/// The branch that an `if` takes when its condition holds (`true`) or fails.
pub open spec fn if_branch(e: ExprV, holds: bool) -> Option<ExprV> {
    match e.inner {
        InnerV::If(_, t, f) => Some(if holds {
            *t
        } else {
            *f
        }),
        _ => None,
    }
}

/// A `requires`, `ensures` or `invariant` becomes a test of its own
/// condition that yields `Unit` where the condition holds and raises the
/// form's error where it fails: "precondition failed", "postcondition
/// failed", "invariant violated".
pub proof fn law_checks_test_their_condition(c: ExprV, span: Span)
    ensures
        inject(at_span(span, InnerV::Requires(Box::new(c)))).inner matches InnerV::If(cond, _, _) && *cond == c,
        inject(at_span(span, InnerV::Ensures(Box::new(c)))).inner matches InnerV::If(cond, _, _) && *cond == c,
        inject(at_span(span, InnerV::Invariant(Box::new(c)))).inner matches InnerV::If(cond, _, _) && *cond == c,
        if_branch(inject(at_span(span, InnerV::Requires(Box::new(c)))), true) == Some(unit_at(c.span)),
        if_branch(inject(at_span(span, InnerV::Ensures(Box::new(c)))), true) == Some(unit_at(c.span)),
        if_branch(inject(at_span(span, InnerV::Invariant(Box::new(c)))), true) == Some(unit_at(c.span)),
        if_branch(inject(at_span(span, InnerV::Requires(Box::new(c)))), false) matches Some(x)
            && x.inner == InnerV::Error("precondition failed"@),
        if_branch(inject(at_span(span, InnerV::Ensures(Box::new(c)))), false) matches Some(x)
            && x.inner == InnerV::Error("postcondition failed"@),
        if_branch(inject(at_span(span, InnerV::Invariant(Box::new(c)))), false) matches Some(x)
            && x.inner == InnerV::Error("invariant violated"@),
{
}

} // verus!
