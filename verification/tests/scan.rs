use pb_scan::dependencies::Manifests;
use pb_scan::scan::{
    check_hidden_indicators, hidden_indicator_paths, is_skip_dir, scan_root, scan_roots,
    FileRecord, RawScan,
};

fn empty_raw() -> RawScan {
    RawScan {
        top_level_names: Vec::new(),
        hidden_present: Vec::new(),
        files: Vec::new(),
        manifests: Manifests::none(),
    }
}

fn file(ext: &str, size: u64) -> FileRecord {
    FileRecord { ext: ext.to_string(), size }
}

#[test]
fn test_scan_empty_dir() {
    let result = scan_root(&empty_raw());
    assert!(result.languages.is_empty());
    assert!(result.frameworks.is_empty());
    assert!(result.project_structures.is_empty());
    assert!(result.infrastructure_signals.is_empty());
}

#[test]
fn test_scan_python_file() {
    let mut raw = empty_raw();
    raw.top_level_names = vec!["main.py".to_string()];
    raw.files = vec![file("py", 14)];
    let result = scan_root(&raw);
    assert_eq!(result.languages.len(), 1);
    assert_eq!(result.languages[0].name, "Python");
    assert_eq!(result.languages[0].permille, 1000);
}

#[test]
fn test_scan_skips_binary() {
    let mut raw = empty_raw();
    raw.top_level_names = vec!["main.py".to_string(), "image.png".to_string()];
    raw.files = vec![file("py", 14), file("png", 7)];
    let result = scan_root(&raw);
    assert_eq!(result.languages.len(), 1);
    assert_eq!(result.languages[0].name, "Python");
}

#[test]
fn test_scan_detects_structure() {
    let mut raw = empty_raw();
    raw.top_level_names = vec!["src".to_string(), "Makefile".to_string()];
    raw.files = vec![file("", 4)];
    let result = scan_root(&raw);
    assert!(result.project_structures.contains(&"src_layout".to_string()));
    assert!(result.project_structures.contains(&"makefile".to_string()));
}

#[test]
fn test_scan_detects_infra() {
    let mut raw = empty_raw();
    raw.top_level_names = vec!["Dockerfile".to_string()];
    raw.files = vec![file("", 16)];
    let result = scan_root(&raw);
    assert!(result.infrastructure_signals.iter().any(|s| s.name == "Docker"));
}

#[test]
fn test_scan_multiple_dirs() {
    let mut raw1 = empty_raw();
    raw1.top_level_names = vec!["main.py".to_string()];
    raw1.files = vec![file("py", 14)];
    let mut raw2 = empty_raw();
    raw2.top_level_names = vec!["app.rs".to_string()];
    raw2.files = vec![file("rs", 12)];

    let result = scan_roots(&vec![raw1, raw2]);
    let lang_names: Vec<&str> = result.languages.iter().map(|l| l.name.as_str()).collect();
    assert!(lang_names.contains(&"Python"));
    assert!(lang_names.contains(&"Rust"));
}

#[test]
fn test_merge_is_byte_exact() {
    // 700 bytes of Python in one root and 300 in another merge into a
    // single entry at exactly 100%, not two rounded shares.
    let mut raw1 = empty_raw();
    raw1.files = vec![file("py", 700)];
    let mut raw2 = empty_raw();
    raw2.files = vec![file("py", 300)];
    let result = scan_roots(&vec![raw1, raw2]);
    assert_eq!(result.languages.len(), 1);
    assert_eq!(result.languages[0].name, "Python");
    assert_eq!(result.languages[0].permille, 1000);
}

#[test]
fn test_merge_structures_and_signals() {
    let mut raw1 = empty_raw();
    raw1.top_level_names = vec!["pyproject.toml".to_string()];
    let mut raw2 = empty_raw();
    raw2.top_level_names = vec!["package.json".to_string()];
    let result = scan_roots(&vec![raw1, raw2]);
    assert!(result.project_structures.contains(&"node_project".to_string()));
    assert!(result.project_structures.contains(&"python_package".to_string()));
    let fw_names: Vec<&str> = result.frameworks.iter().map(|f| f.name.as_str()).collect();
    assert!(fw_names.contains(&"Python Package"));
}

#[test]
fn test_hidden_ci_detected_as_infra() {
    // The walk suppressed the hidden directory, but the on-disk probe
    // found it, so GitHub Actions is still reported.
    let mut raw = empty_raw();
    raw.hidden_present = vec![".github/workflows".to_string()];
    let result = scan_root(&raw);
    assert!(result
        .infrastructure_signals
        .iter()
        .any(|s| s.name == "GitHub Actions" && s.category == "infrastructure"));
}

fn fixture_raw() -> RawScan {
    let mut raw = empty_raw();
    raw.top_level_names = vec![
        "src".to_string(),
        "Dockerfile".to_string(),
        "main.py".to_string(),
    ];
    raw.files = vec![file("py", 64), file("rs", 32)];
    raw.manifests.package_json = Some(r#"{"dependencies": {"react": "^18"}}"#.to_string());
    raw.manifests.requirements_txt = Some("flask\n".to_string());
    raw
}

#[test]
fn test_merge_single_root_equals_scan() {
    let merged = scan_roots(&vec![fixture_raw()]);
    let single = scan_root(&fixture_raw());
    assert_eq!(merged, single);
}

#[test]
fn test_scan_idempotent() {
    let mut raw = empty_raw();
    raw.top_level_names = vec![
        "src".to_string(),
        "Dockerfile".to_string(),
        "main.py".to_string(),
        "util.rs".to_string(),
    ];
    raw.files = vec![file("py", 123), file("rs", 456)];
    raw.manifests.requirements_txt = Some("flask\n".to_string());
    raw.manifests.package_json = Some(r#"{"dependencies": {"react": "^18"}}"#.to_string());
    let r1 = scan_root(&raw);
    let r2 = scan_root(&raw);
    assert_eq!(r1, r2);
}

#[test]
fn test_single_source_file_report() {
    let mut raw = empty_raw();
    raw.top_level_names = vec!["main.go".to_string()];
    raw.files = vec![file("go", 99)];
    let result = scan_root(&raw);
    assert_eq!(result.languages.len(), 1);
    assert_eq!(result.languages[0].name, "Go");
    assert_eq!(result.languages[0].category, "language");
    assert_eq!(result.languages[0].permille, 1000);
    assert!(result.frameworks.is_empty());
    assert!(result.project_structures.is_empty());
    assert!(result.infrastructure_signals.is_empty());
}

#[test]
fn test_manifest_and_tool_config_report() {
    let mut raw = empty_raw();
    raw.top_level_names = vec!["src".to_string(), "vite.config.ts".to_string()];
    raw.manifests.package_json = Some(r#"{"dependencies": {"react": "^18"}}"#.to_string());
    let result = scan_root(&raw);
    let fw: Vec<(&str, &str)> = result
        .frameworks
        .iter()
        .map(|f| (f.name.as_str(), f.category.as_str()))
        .collect();
    assert!(fw.contains(&("React", "framework")));
    assert!(fw.contains(&("Vite", "tool")));
    assert!(result.project_structures.contains(&"src_layout".to_string()));
}

#[test]
fn test_check_hidden_indicators_dedup() {
    let mut names = vec![".prettierrc".to_string()];
    let present = vec![".prettierrc".to_string(), ".circleci".to_string()];
    check_hidden_indicators(&mut names, &present);
    assert_eq!(names, vec![".prettierrc".to_string(), ".circleci".to_string()]);
}

#[test]
fn test_hidden_indicator_paths_fixed_list() {
    let paths = hidden_indicator_paths();
    assert_eq!(paths.len(), 7);
    assert_eq!(paths[0], ".github/workflows");
    assert!(paths.contains(&".travis.yml".to_string()));
}

#[test]
fn test_skip_dirs() {
    assert!(is_skip_dir("node_modules"));
    assert!(is_skip_dir(".git"));
    assert!(is_skip_dir("__pycache__"));
    assert!(!is_skip_dir("src"));
}

#[test]
fn test_binary_only_root_has_no_languages() {
    let mut raw = empty_raw();
    raw.files = vec![file("png", 1000), file("exe", 5000)];
    let result = scan_root(&raw);
    assert!(result.languages.is_empty());
}
