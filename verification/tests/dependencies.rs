use pb_scan::dependencies::{
    detect_all, detect_go, detect_npm, detect_php, detect_pyproject, detect_python, detect_ruby,
    detect_rust, Manifests,
};
use pb_scan::frameworks::SignalMap;

#[test]
fn test_detect_npm_react() {
    let mut fw = SignalMap::new();
    detect_npm(
        r#"{"dependencies": {"react": "^18.0.0", "express": "^4.0.0"}}"#,
        &mut fw,
    );
    assert!(fw.get("React").is_some());
    assert!(fw.get("Express").is_some());
}

#[test]
fn test_detect_python_flask() {
    let mut fw = SignalMap::new();
    detect_python("flask==2.3.0\nrequests\n", &mut fw);
    assert!(fw.get("Flask").is_some());
    assert!(fw.get("Requests").is_some());
}

#[test]
fn test_detect_rust_actix() {
    let mut fw = SignalMap::new();
    detect_rust(
        "[dependencies]\nactix-web = \"4\"\ntokio = { version = \"1\" }\n",
        &mut fw,
    );
    assert!(fw.get("Actix Web").is_some());
    assert!(fw.get("Tokio").is_some());
}

#[test]
fn test_detect_go_gin() {
    let mut fw = SignalMap::new();
    detect_go(
        "module example.com/app\nrequire github.com/gin-gonic/gin v1.9.0\n",
        &mut fw,
    );
    assert!(fw.get("Gin").is_some());
}

#[test]
fn test_detect_missing_file() {
    let mut fw = SignalMap::new();
    detect_all(&Manifests::none(), &mut fw);
    assert_eq!(fw.len(), 0);
}

#[test]
fn test_detect_php_laravel() {
    let mut fw = SignalMap::new();
    detect_php(r#"{"require": {"laravel/framework": "^10.0"}}"#, &mut fw);
    assert!(fw.get("Laravel").is_some());
}

#[test]
fn test_detect_pyproject_flask() {
    let mut fw = SignalMap::new();
    detect_pyproject(
        "[project]\ndependencies = [\n  \"flask>=2.3.0\",\n  \"pydantic>=2.0\",\n]\n",
        &mut fw,
    );
    assert!(fw.get("Flask").is_some());
    assert!(fw.get("Pydantic").is_some());
}

#[test]
fn test_detect_ruby_rails() {
    let mut fw = SignalMap::new();
    detect_ruby(
        "source 'https://rubygems.org'\ngem 'rails', '~> 7.0'\ngem 'rspec'\n",
        &mut fw,
    );
    assert!(fw.get("Ruby on Rails").is_some());
    assert!(fw.get("RSpec").is_some());
}

#[test]
fn test_npm_react_exact_category() {
    // A declared dependency on a known frontend library yields the entry
    // with its documented category.
    let mut fw = SignalMap::new();
    detect_npm(r#"{"dependencies": {"react": "^18.0.0"}}"#, &mut fw);
    assert_eq!(fw.get("React").unwrap().as_str(), "framework");
    assert_eq!(fw.len(), 1);
}

#[test]
fn test_npm_malformed_json_is_silent() {
    let mut fw = SignalMap::new();
    detect_npm("{not json at all", &mut fw);
    assert_eq!(fw.len(), 0);
}

#[test]
fn test_npm_dev_dependencies_counted() {
    let mut fw = SignalMap::new();
    detect_npm(r#"{"devDependencies": {"typescript": "^5"}}"#, &mut fw);
    assert_eq!(fw.get("TypeScript").unwrap().as_str(), "language");
}

#[test]
fn test_npm_exact_membership_no_substring() {
    // npm matching is by exact key, not substring: react-dom is not react.
    let mut fw = SignalMap::new();
    detect_npm(r#"{"dependencies": {"react-dom": "^18.0.0"}}"#, &mut fw);
    assert!(fw.get("React").is_none());
}

#[test]
fn test_python_case_insensitive() {
    let mut fw = SignalMap::new();
    detect_python("FLASK==2.0\n", &mut fw);
    assert!(fw.get("Flask").is_some());
}

#[test]
fn test_go_case_sensitive() {
    let mut fw = SignalMap::new();
    detect_go("require GITHUB.COM/GIN-GONIC/GIN v1.9.0\n", &mut fw);
    assert!(fw.get("Gin").is_none());
}

#[test]
fn test_detect_all_manifest_overrides_indicator() {
    // The manifest parsers run after the file indicators, so on a name
    // collision the manifest's category wins.
    let mut fw = SignalMap::new();
    fw.insert("Tokio", "language");
    let mut m = Manifests::none();
    m.cargo_toml = Some("[dependencies]\ntokio = \"1\"\n".to_string());
    detect_all(&m, &mut fw);
    assert_eq!(fw.get("Tokio").unwrap().as_str(), "tool");
}
