use zyl::contract_injection::{Atom, ContractInjector, Expr, ExprInner};
use zyl::error::{Location, Span};

fn span(line: usize) -> Span {
    Span { start: Location { line, col: 1 }, end: Location { line, col: 9 } }
}

fn at(line: usize, inner: ExprInner) -> Expr {
    Expr { span: span(line), inner }
}

fn ident(line: usize, name: &str) -> Expr {
    at(line, ExprInner::Atom(Atom::Ident(name.to_string())))
}

fn inject_one(e: Expr) -> Expr {
    let mut v = vec![e];
    ContractInjector::new().inject(&mut v).unwrap();
    v.pop().unwrap()
}

fn assert_check(e: &Expr, cond_name: &str, msg: &str, line: usize) {
    assert_eq!(e.span, span(line));
    match &e.inner {
        ExprInner::If(c, t, f) => {
            assert!(matches!(&c.inner, ExprInner::Atom(Atom::Ident(n)) if n == cond_name));
            assert_eq!(t.span, span(line));
            assert!(matches!(&t.inner, ExprInner::Atom(Atom::Ident(n)) if n == "Unit"));
            assert_eq!(f.span, span(line));
            assert!(matches!(&f.inner, ExprInner::Error(m) if m == msg));
        },
        other => panic!("expected a check, got {:?}", other),
    }
}

#[test]
fn requires_becomes_precondition_check() {
    let e = inject_one(at(1, ExprInner::Requires(Box::new(ident(2, "ok")))));
    assert_check(&e, "ok", "precondition failed", 2);
}

#[test]
fn ensures_and_invariant_become_checks() {
    let e = inject_one(at(1, ExprInner::Ensures(Box::new(ident(3, "post")))));
    assert_check(&e, "post", "postcondition failed", 3);
    let e = inject_one(at(1, ExprInner::Invariant(Box::new(ident(4, "inv")))));
    assert_check(&e, "inv", "invariant violated", 4);
}

#[test]
fn checkpoint_becomes_its_body() {
    let e = inject_one(at(1, ExprInner::Checkpoint(Box::new(ident(5, "state")))));
    assert_eq!(e.span, span(5));
    assert!(matches!(&e.inner, ExprInner::Atom(Atom::Ident(n)) if n == "state"));
}

#[test]
fn contracts_off_drops_a_contract_form() {
    let inner = at(6, ExprInner::Requires(Box::new(ident(7, "c"))));
    let e = inject_one(at(1, ExprInner::ContractsOff(Box::new(inner))));
    assert_eq!(e.span, span(6));
    assert!(matches!(&e.inner, ExprInner::Atom(Atom::Ident(n)) if n == "Unit"));
}

#[test]
fn contracts_off_removes_nested_contract_forms() {
    let body = at(2, ExprInner::Begin(vec![at(3, ExprInner::Invariant(Box::new(ident(4, "i"))))]));
    let e = inject_one(at(1, ExprInner::ContractsOff(Box::new(body))));
    assert_eq!(e.span, span(2));
    match &e.inner {
        ExprInner::Begin(es) => {
            assert_eq!(es.len(), 1);
            assert_eq!(es[0].span, span(3));
            assert!(matches!(&es[0].inner, ExprInner::Atom(Atom::Ident(n)) if n == "Unit"));
        },
        other => panic!("unexpected {:?}", other),
    }
}

#[test]
fn contracts_off_removes_a_requires_under_a_let() {
    let req = at(4, ExprInner::Requires(Box::new(ident(5, "c"))));
    let body = at(2, ExprInner::Let("x".to_string(), Box::new(at(3, ExprInner::Atom(Atom::Int(1)))), Box::new(req)));
    let e = inject_one(at(1, ExprInner::ContractsOff(Box::new(body))));
    assert_eq!(e.span, span(2));
    match &e.inner {
        ExprInner::Let(name, v, r) => {
            assert_eq!(name, "x");
            assert!(matches!(&v.inner, ExprInner::Atom(Atom::Int(1))));
            assert_eq!(r.span, span(4));
            assert!(matches!(&r.inner, ExprInner::Atom(Atom::Ident(n)) if n == "Unit"));
        },
        other => panic!("unexpected {:?}", other),
    }
}

#[test]
fn contracts_off_keeps_other_forms() {
    let body = at(2, ExprInner::Call(Box::new(ident(3, "f")), vec![ident(4, "a")]));
    let e = inject_one(at(1, ExprInner::ContractsOff(Box::new(body))));
    assert_eq!(e.span, span(2));
    match &e.inner {
        ExprInner::Call(f, args) => {
            assert!(matches!(&f.inner, ExprInner::Atom(Atom::Ident(n)) if n == "f"));
            assert_eq!(args.len(), 1);
            assert!(matches!(&args[0].inner, ExprInner::Atom(Atom::Ident(n)) if n == "a"));
        },
        other => panic!("unexpected {:?}", other),
    }
}

#[test]
fn recover_becomes_a_try_catch_with_the_first_handler() {
    let arms = vec![("E".to_string(), Box::new(ident(3, "fallback"))), ("F".to_string(), Box::new(ident(4, "other")))];
    let e = inject_one(at(1, ExprInner::Recover(Box::new(ident(2, "risky")), arms)));
    assert_eq!(e.span, span(2));
    match &e.inner {
        ExprInner::TryCatch(t, name, h) => {
            assert!(matches!(&t.inner, ExprInner::Atom(Atom::Ident(n)) if n == "risky"));
            assert_eq!(name, "E");
            assert!(matches!(&h.inner, ExprInner::Atom(Atom::Ident(n)) if n == "fallback"));
        },
        other => panic!("unexpected {:?}", other),
    }
}

#[test]
fn recover_without_handlers_becomes_its_expression() {
    let e = inject_one(at(1, ExprInner::Recover(Box::new(ident(2, "x")), vec![])));
    assert_eq!(e.span, span(2));
    assert!(matches!(&e.inner, ExprInner::Atom(Atom::Ident(n)) if n == "x"));
}

#[test]
fn function_bodies_are_injected() {
    let body = at(2, ExprInner::Requires(Box::new(ident(3, "pre"))));
    let e = inject_one(at(1, ExprInner::Defn("f".to_string(), vec!["a".to_string()], Box::new(body))));
    match &e.inner {
        ExprInner::Defn(name, params, b) => {
            assert_eq!(name, "f");
            assert_eq!(params, &vec!["a".to_string()]);
            assert_check(b, "pre", "precondition failed", 3);
        },
        other => panic!("unexpected {:?}", other),
    }
}

#[test]
fn expressions_without_contracts_are_unchanged() {
    let e = inject_one(at(
        1,
        ExprInner::If(
            Box::new(ident(2, "a")),
            Box::new(at(3, ExprInner::Atom(Atom::Int(4)))),
            Box::new(at(5, ExprInner::Atom(Atom::Str("s".to_string())))),
        ),
    ));
    match &e.inner {
        ExprInner::If(c, t, f) => {
            assert!(matches!(&c.inner, ExprInner::Atom(Atom::Ident(n)) if n == "a"));
            assert!(matches!(&t.inner, ExprInner::Atom(Atom::Int(4))));
            assert!(matches!(&f.inner, ExprInner::Atom(Atom::Str(s)) if s == "s"));
            assert_eq!(f.span, span(5));
        },
        other => panic!("unexpected {:?}", other),
    }
}

#[test]
fn every_expression_of_the_slice_is_injected() {
    let mut v = vec![
        at(1, ExprInner::Requires(Box::new(ident(1, "a")))),
        at(2, ExprInner::Checkpoint(Box::new(ident(2, "b")))),
    ];
    ContractInjector::new().inject(&mut v).unwrap();
    assert_check(&v[0], "a", "precondition failed", 1);
    assert!(matches!(&v[1].inner, ExprInner::Atom(Atom::Ident(n)) if n == "b"));
}
