use swc_ecma_compiler::class_static_block::Keys;

#[test]
fn keys_no_reserved() {
    let mut keys = Keys::default();

    assert_eq!(keys.get_unique(), "_");
    assert_eq!(keys.get_unique(), "_2");
    assert_eq!(keys.get_unique(), "_3");
    assert_eq!(keys.get_unique(), "_4");
    assert_eq!(keys.get_unique(), "_5");
    assert_eq!(keys.get_unique(), "_6");
    assert_eq!(keys.get_unique(), "_7");
    assert_eq!(keys.get_unique(), "_8");
    assert_eq!(keys.get_unique(), "_9");
    assert_eq!(keys.get_unique(), "_10");
    assert_eq!(keys.get_unique(), "_11");
    assert_eq!(keys.get_unique(), "_12");
}

#[test]
fn keys_no_relevant_reserved() {
    let mut keys = Keys::default();
    keys.reserve("a");
    keys.reserve("foo");
    keys.reserve("__");
    keys.reserve("_0");
    keys.reserve("_1");
    keys.reserve("_a");
    keys.reserve("_foo");
    keys.reserve("_2foo");

    assert_eq!(keys.get_unique(), "_");
    assert_eq!(keys.get_unique(), "_2");
    assert_eq!(keys.get_unique(), "_3");
}

#[test]
fn keys_reserved_underscore() {
    let mut keys = Keys::default();
    keys.reserve("_");

    assert_eq!(keys.get_unique(), "_2");
    assert_eq!(keys.get_unique(), "_3");
    assert_eq!(keys.get_unique(), "_4");
}

#[test]
fn keys_reserved_numbers() {
    let mut keys = Keys::default();
    keys.reserve("_2");
    keys.reserve("_4");
    keys.reserve("_11");

    assert_eq!(keys.get_unique(), "_");
    assert_eq!(keys.get_unique(), "_3");
    assert_eq!(keys.get_unique(), "_5");
    assert_eq!(keys.get_unique(), "_6");
    assert_eq!(keys.get_unique(), "_7");
    assert_eq!(keys.get_unique(), "_8");
    assert_eq!(keys.get_unique(), "_9");
    assert_eq!(keys.get_unique(), "_10");
    assert_eq!(keys.get_unique(), "_12");
}

#[test]
fn keys_reserved_later_numbers() {
    let mut keys = Keys::default();
    keys.reserve("_5");
    keys.reserve("_4");
    keys.reserve("_12");
    keys.reserve("_13");

    assert_eq!(keys.get_unique(), "_");
    assert_eq!(keys.get_unique(), "_2");
    assert_eq!(keys.get_unique(), "_3");
    assert_eq!(keys.get_unique(), "_6");
    assert_eq!(keys.get_unique(), "_7");
    assert_eq!(keys.get_unique(), "_8");
    assert_eq!(keys.get_unique(), "_9");
    assert_eq!(keys.get_unique(), "_10");
    assert_eq!(keys.get_unique(), "_11");
    assert_eq!(keys.get_unique(), "_14");
}

#[test]
fn keys_reserved_underscore_and_numbers() {
    let mut keys = Keys::default();
    keys.reserve("_2");
    keys.reserve("_4");
    keys.reserve("_");

    assert_eq!(keys.get_unique(), "_3");
    assert_eq!(keys.get_unique(), "_5");
    assert_eq!(keys.get_unique(), "_6");
}

#[test]
fn keys_reserved_underscore_and_later_numbers() {
    let mut keys = Keys::default();
    keys.reserve("_5");
    keys.reserve("_4");
    keys.reserve("_");

    assert_eq!(keys.get_unique(), "_2");
    assert_eq!(keys.get_unique(), "_3");
    assert_eq!(keys.get_unique(), "_6");
}

#[test]
fn keys_generated_key_is_then_taken() {
    let mut keys = Keys::default();
    keys.reserve("_3");
    let first = keys.get_unique();
    let second = keys.get_unique();
    let third = keys.get_unique();
    assert_eq!(first, "_");
    assert_eq!(second, "_2");
    assert_eq!(third, "_4");
    assert!(keys.underscore);
    assert_eq!(keys.numbered, vec!["3".to_string(), "2".to_string(), "4".to_string()]);
}
