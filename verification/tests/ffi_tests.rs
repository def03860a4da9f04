use zyl::ffi::{check_ffi_safety, FfiArg, FfiError, FfiResult};
use zyl::ir::FloatLit;

#[test]
fn argument_sizes() {
    assert_eq!(FfiArg::Int(-1).size(), 8);
    assert_eq!(FfiArg::Float(FloatLit { bits: 0x3ff0000000000000, text: "1".to_string() }).size(), 8);
    assert_eq!(FfiArg::Bool(true).size(), 1);
    assert_eq!(FfiArg::String("abc".to_string()).size(), 4);
    assert_eq!(FfiArg::String("é".to_string()).size(), 3);
    assert_eq!(FfiArg::String(String::new()).size(), 1);
    assert_eq!(FfiArg::Buffer(vec![1, 2, 3, 4, 5]).size(), 5);
}

#[test]
fn every_argument_is_pinnable() {
    assert!(FfiArg::Int(0).is_pinnable());
    assert!(FfiArg::Buffer(vec![]).is_pinnable());
}

#[test]
fn results_and_errors() {
    assert!(FfiResult::Error(FfiError::SecurityViolation).is_error());
    assert!(!FfiResult::Unit.is_error());
    match FfiResult::Int(5).into_result() {
        Ok(FfiResult::Int(5)) => {},
        other => panic!("unexpected {:?}", other),
    }
    match FfiResult::Error(FfiError::NotFound { name: "f".to_string() }).into_result() {
        Err(FfiError::NotFound { name }) => assert_eq!(name, "f"),
        other => panic!("unexpected {:?}", other),
    }
}

#[test]
fn timeouts_below_an_hour_are_safe() {
    let args = vec![FfiArg::Int(1), FfiArg::String("x".to_string())];
    assert!(check_ffi_safety(&args, 1).is_ok());
    assert!(check_ffi_safety(&args, 3_599_999).is_ok());
    assert!(check_ffi_safety(&[], 500).is_ok());
}

#[test]
fn a_zero_or_hour_long_timeout_is_refused() {
    for (t, shown) in [(0u64, 0i64), (3_600_000, 3_600_000), (3_600_001, 3_600_001), (u64::MAX, -1)] {
        match check_ffi_safety(&[], t) {
            Err(FfiError::Timeout { name, timeout_ms }) => {
                assert_eq!(name, "validation");
                assert_eq!(timeout_ms, shown);
            },
            other => panic!("unexpected {:?}", other),
        }
    }
}
