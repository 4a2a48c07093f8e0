use pb_scan::structures::detect_structures;

#[test]
fn test_detect_src_layout() {
    let names = vec!["src".to_string(), "README.md".to_string()];
    let result = detect_structures(&names);
    assert!(result.contains(&"src_layout".to_string()));
}

#[test]
fn test_detect_monorepo() {
    let names = vec!["packages".to_string()];
    let result = detect_structures(&names);
    assert!(result.contains(&"monorepo".to_string()));
}

#[test]
fn test_detect_python_package() {
    let names = vec!["pyproject.toml".to_string(), "src".to_string()];
    let result = detect_structures(&names);
    assert!(result.contains(&"python_package".to_string()));
    assert!(result.contains(&"src_layout".to_string()));
}

#[test]
fn test_detect_node_project() {
    let names = vec!["package.json".to_string()];
    let result = detect_structures(&names);
    assert!(result.contains(&"node_project".to_string()));
}

#[test]
fn test_detect_makefile() {
    let names = vec!["Makefile".to_string()];
    let result = detect_structures(&names);
    assert!(result.contains(&"makefile".to_string()));
}

#[test]
fn test_detect_empty() {
    let names: Vec<String> = Vec::new();
    let result = detect_structures(&names);
    assert!(result.is_empty());
}

#[test]
fn test_sorted_output() {
    let names = vec![
        "src".to_string(),
        "package.json".to_string(),
        "Makefile".to_string(),
    ];
    let result = detect_structures(&names);
    let mut sorted = result.clone();
    sorted.sort();
    assert_eq!(result, sorted);
}

#[test]
fn test_src_and_makefile_exact_tags() {
    let names = vec!["src".to_string(), "Makefile".to_string()];
    let result = detect_structures(&names);
    assert_eq!(result, vec!["makefile".to_string(), "src_layout".to_string()]);
}

#[test]
fn test_libs_counts_as_monorepo() {
    let names = vec!["libs".to_string()];
    let result = detect_structures(&names);
    assert_eq!(result, vec!["monorepo".to_string()]);
}
