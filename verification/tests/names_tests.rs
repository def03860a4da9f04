use zyl::error::{Location, Span};
use zyl::eval::is_builtin;
use zyl::symbols::{
    closure_original_name, frame_size_for, reg_to_32, reg_to_64, sanitize_name, simple_hash, string_label,
};

#[test]
fn hash_of_names() {
    assert_eq!(simple_hash(""), 5381);
    assert_eq!(simple_hash("a"), 5381 * 31 + 97);
    assert_eq!(simple_hash("ab"), (5381u64 * 31 + 97) * 31 + 98);
    let long = "a name long enough to wrap around the sixty-four bit hash";
    let mut h: u64 = 5381;
    for b in long.bytes() {
        h = h.wrapping_mul(31).wrapping_add(b as u64);
    }
    assert_eq!(simple_hash(long), h);
}

#[test]
fn names_are_sanitized_character_by_character() {
    assert_eq!(sanitize_name("foo-bar?"), "foo_bar_");
    assert_eq!(sanitize_name("Ok_9"), "Ok_9");
    assert_eq!(sanitize_name("λx"), "_x");
    assert_eq!(sanitize_name(""), "");
}

#[test]
fn closure_names_lose_their_suffix() {
    assert_eq!(closure_original_name("adder_fn_00af"), Some("adder".to_string()));
    assert_eq!(closure_original_name("add_fn_00a3"), Some("add".to_string()));
    assert_eq!(closure_original_name("acc_0f1c"), Some("acc".to_string()));
    assert_eq!(closure_original_name("a_fn_b_00af"), Some("a".to_string()));
    assert_eq!(closure_original_name("count_1A2b"), Some("count".to_string()));
    assert_eq!(closure_original_name("fn_x_0001"), Some("fn_x".to_string()));
    assert_eq!(closure_original_name("fn_0001"), Some("fn".to_string()));
    assert_eq!(closure_original_name("fn__0001"), None);
    assert_eq!(closure_original_name("name_00g1"), None);
    assert_eq!(closure_original_name("name_001"), None);
    assert_eq!(closure_original_name("plain"), None);
}

#[test]
fn register_widths() {
    assert_eq!(reg_to_32("rax"), "eax");
    assert_eq!(reg_to_32("r12"), "r12d");
    assert_eq!(reg_to_32("ecx"), "ecx");
    assert_eq!(reg_to_32("xmm0"), "xmm0");
    assert_eq!(reg_to_64("edi"), "rdi");
    assert_eq!(reg_to_64("r9d"), "r9");
    assert_eq!(reg_to_64("r15"), "r15");
    assert_eq!(reg_to_64("r10d"), "r10");
    assert_eq!(reg_to_64(reg_to_32("r13")), "r13");
}

#[test]
fn evaluator_builtins() {
    assert!(is_builtin("+"));
    assert!(is_builtin("read-line"));
    assert!(is_builtin("set!"));
    assert!(is_builtin("list"));
    assert!(!is_builtin("lambda"));
    assert!(!is_builtin(""));
}

#[test]
fn locations_and_spans_render() {
    let s = Span { start: Location { line: 3, col: 14 }, end: Location { line: 10, col: 2 } };
    assert_eq!(s.start.to_text(), "3:14");
    assert_eq!(s.to_text(), "3:14-10:2");
}

#[test]
fn string_literal_labels() {
    assert_eq!(string_label(""), ".str_");
    assert_eq!(string_label("a b!"), ".str_a_20b_21");
    assert_eq!(string_label("Zz9"), ".str_Zz9");
    assert_eq!(string_label("é"), ".str__C3_A9");
}

#[test]
fn frame_sizes_are_rounded_and_at_least_256() {
    assert_eq!(frame_size_for(0), 256);
    assert_eq!(frame_size_for(24), 256);
    assert_eq!(frame_size_for(25), 272);
    assert_eq!(frame_size_for(100), 864);
}

#[test]
fn literals_that_look_alike_get_distinct_labels() {
    assert_eq!(string_label("a_20b"), ".str_a_5F20b");
    assert_ne!(string_label("a b"), string_label("a_20b"));
    assert_ne!(string_label("_"), string_label("_5F"));
}
