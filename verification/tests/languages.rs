use pb_scan::languages::{
    build_language_list, extension_to_language, is_binary_extension, record_language, LangBytes,
};

#[test]
fn test_extension_mapping() {
    assert_eq!(extension_to_language("py"), Some("Python"));
    assert_eq!(extension_to_language("rs"), Some("Rust"));
    assert_eq!(extension_to_language("ts"), Some("TypeScript"));
    assert_eq!(extension_to_language("tsx"), Some("TypeScript"));
    assert_eq!(extension_to_language("svelte"), Some("Svelte"));
    assert_eq!(extension_to_language("unknown"), None);
}

#[test]
fn test_binary_detection() {
    assert!(is_binary_extension("png"));
    assert!(is_binary_extension("wasm"));
    assert!(!is_binary_extension("py"));
    assert!(!is_binary_extension("rs"));
}

#[test]
fn test_build_language_list() {
    let mut bytes = LangBytes::new();
    bytes.add_bytes("Python", 700);
    bytes.add_bytes("JavaScript", 300);

    let list = build_language_list(&bytes);
    assert_eq!(list.len(), 2);
    assert_eq!(list[0].name, "Python");
    assert_eq!(list[0].permille, 700);
    assert_eq!(list[1].name, "JavaScript");
    assert_eq!(list[1].permille, 300);
}

#[test]
fn test_build_language_list_empty() {
    let bytes = LangBytes::new();
    let list = build_language_list(&bytes);
    assert!(list.is_empty());
}

#[test]
fn test_case_sensitive_exception() {
    assert_eq!(extension_to_language("r"), Some("R"));
    assert_eq!(extension_to_language("R"), Some("R"));
    assert_eq!(extension_to_language("PY"), None);
}

#[test]
fn test_record_language_accumulates() {
    let mut bytes = LangBytes::new();
    record_language("py", 10, &mut bytes);
    record_language("py", 5, &mut bytes);
    record_language("bin", 100, &mut bytes);
    let list = build_language_list(&bytes);
    assert_eq!(list.len(), 1);
    assert_eq!(list[0].name, "Python");
    assert_eq!(list[0].permille, 1000);
}

#[test]
fn test_permille_rounds_half_away_from_zero() {
    // 1 of 2000 bytes is 0.05%, which rounds up to one tenth of a percent.
    let mut bytes = LangBytes::new();
    bytes.add_bytes("Python", 1);
    bytes.add_bytes("JavaScript", 1999);
    let list = build_language_list(&bytes);
    assert_eq!(list[0].name, "JavaScript");
    assert_eq!(list[0].permille, 1000);
    assert_eq!(list[1].name, "Python");
    assert_eq!(list[1].permille, 1);
}

#[test]
fn test_percentage_sum_three_languages() {
    // One byte each: every share rounds to 333, and the sum stays within
    // [999, 1001] tenths of a percent.
    let mut bytes = LangBytes::new();
    bytes.add_bytes("Python", 1);
    bytes.add_bytes("JavaScript", 1);
    bytes.add_bytes("Rust", 1);
    let list = build_language_list(&bytes);
    let total: u64 = list.iter().map(|e| e.permille).sum();
    assert!(999 <= total && total <= 1001, "sum was {total}");
    assert_eq!(list[0].permille, 333);
}

#[test]
fn test_language_tiebreak_by_name() {
    // Equal shares are ordered by name ascending.
    let mut bytes = LangBytes::new();
    bytes.add_bytes("Python", 500);
    bytes.add_bytes("JavaScript", 500);
    let list = build_language_list(&bytes);
    assert_eq!(list[0].name, "JavaScript");
    assert_eq!(list[1].name, "Python");
    assert_eq!(list[0].permille, 500);
    assert_eq!(list[1].permille, 500);
}

#[test]
fn test_language_category_constant() {
    let mut bytes = LangBytes::new();
    bytes.add_bytes("Go", 42);
    let list = build_language_list(&bytes);
    assert_eq!(list[0].category, "language");
}
