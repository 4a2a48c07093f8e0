use pb_scan::frameworks::{detect_file_indicators, into_sorted_entries, SignalMap};

fn names(list: &[&str]) -> Vec<String> {
    list.iter().map(|s| s.to_string()).collect()
}

#[test]
fn test_detect_dockerfile() {
    let names = names(&["Dockerfile", "src"]);
    let mut fw = SignalMap::new();
    let mut infra = SignalMap::new();
    detect_file_indicators(&names, &mut fw, &mut infra);
    assert!(infra.get("Docker").is_some());
    assert!(fw.get("Docker").is_none());
}

#[test]
fn test_detect_framework_indicator() {
    let names = names(&["tailwind.config.js"]);
    let mut fw = SignalMap::new();
    let mut infra = SignalMap::new();
    detect_file_indicators(&names, &mut fw, &mut infra);
    assert!(fw.get("Tailwind CSS").is_some());
    assert_eq!(fw.get("Tailwind CSS").unwrap().as_str(), "framework");
}

#[test]
fn test_detect_language_indicator() {
    let names = names(&["tsconfig.json"]);
    let mut fw = SignalMap::new();
    let mut infra = SignalMap::new();
    detect_file_indicators(&names, &mut fw, &mut infra);
    assert!(fw.get("TypeScript").is_some());
    assert_eq!(fw.get("TypeScript").unwrap().as_str(), "language");
}

#[test]
fn test_sorted_entries() {
    let mut map = SignalMap::new();
    map.insert("Zebra", "framework");
    map.insert("Alpha", "tool");
    let entries = into_sorted_entries(&map);
    assert_eq!(entries[0].name, "Alpha");
    assert_eq!(entries[1].name, "Zebra");
}

#[test]
fn test_insert_last_writer_wins() {
    let mut map = SignalMap::new();
    map.insert("TypeScript", "language");
    map.insert("TypeScript", "tool");
    assert_eq!(map.len(), 1);
    assert_eq!(map.get("TypeScript").unwrap().as_str(), "tool");
}

#[test]
fn test_hidden_path_indicator_matches() {
    let names = names(&[".github/workflows"]);
    let mut fw = SignalMap::new();
    let mut infra = SignalMap::new();
    detect_file_indicators(&names, &mut fw, &mut infra);
    assert!(infra.get("GitHub Actions").is_some());
    assert_eq!(infra.get("GitHub Actions").unwrap().as_str(), "infrastructure");
}
