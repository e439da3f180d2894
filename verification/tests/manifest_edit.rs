use orae::dependency::{Dependency, DependencySource};
use orae::manifest::{
    DependencyWriter, ManifestDependencyWriter, ManifestEditError, add_dependency_to_manifest,
    build_dependency_item, dependency_table_key,
};

const MANIFEST: &str = "[package]\nname = \"demo\"\nversion = \"0.1.0\"\n";

fn parse(text: &str) -> toml_edit::DocumentMut {
    text.parse::<toml_edit::DocumentMut>().expect("the edited manifest parses")
}

#[test]
fn bare_version_for_plain_dependencies() {
    let item = build_dependency_item(&Dependency::new("tracing").with_version("0.1"));
    assert_eq!(item.as_str(), Some("0.1"));
}

#[test]
fn empty_table_when_no_version_is_pinned() {
    let item = build_dependency_item(&Dependency::new("anything"));
    assert_eq!(item.as_str(), None);
    let table = item.as_inline_table().expect("an inline table");
    assert!(table.is_empty());
}

#[test]
fn inline_table_with_features() {
    let item = build_dependency_item(
        &Dependency::new("tokio").with_version("1").with_required_features(&["full", "rt-multi-thread"]),
    );
    let table = item.as_inline_table().expect("an inline table");
    let keys: Vec<&str> = table.iter().map(|(k, _)| k).collect();
    assert_eq!(keys, vec!["version", "features"]);
    assert_eq!(table.get("version").and_then(|v| v.as_str()), Some("1"));
    let features: Vec<&str> = table
        .get("features")
        .and_then(|v| v.as_array())
        .expect("features array")
        .iter()
        .map(|v| v.as_str().unwrap())
        .collect();
    assert_eq!(features, vec!["full", "rt-multi-thread"]);
}

#[test]
fn git_source_writes_git_keys_only() {
    let mut source = DependencySource::git("https://example.com/x.git");
    if let DependencySource::Git { branch, .. } = &mut source {
        *branch = Some("main".to_string());
    }
    let item = build_dependency_item(&Dependency::new("x").with_version("0.1").with_source(source));
    let table = item.as_inline_table().expect("an inline table");
    let keys: Vec<&str> = table.iter().map(|(k, _)| k).collect();
    assert_eq!(keys, vec!["git", "branch"]);
    assert_eq!(table.get("git").and_then(|v| v.as_str()), Some("https://example.com/x.git"));
}

#[test]
fn path_source_writes_path_then_version() {
    let item = build_dependency_item(
        &Dependency::new("api-router").with_version("0.3").with_source(DependencySource::path("../api-router")),
    );
    let table = item.as_inline_table().expect("an inline table");
    let keys: Vec<&str> = table.iter().map(|(k, _)| k).collect();
    assert_eq!(keys, vec!["path", "version"]);
    assert_eq!(table.get("path").and_then(|v| v.as_str()), Some("../api-router"));
}

#[test]
fn default_features_off_is_written() {
    let item = build_dependency_item(&Dependency::new("x").with_version("2").no_default_features());
    let table = item.as_inline_table().expect("an inline table");
    assert_eq!(table.get("default-features").and_then(|v| v.as_bool()), Some(false));
    assert_eq!(table.get("version").and_then(|v| v.as_str()), Some("2"));
}

#[test]
fn table_keys_by_kind() {
    assert_eq!(dependency_table_key(false), "dependencies");
    assert_eq!(dependency_table_key(true), "dev-dependencies");
}

#[test]
fn adds_dependency_table_when_missing() {
    let text = add_dependency_to_manifest(MANIFEST, &Dependency::new("serde").with_version("1")).unwrap();
    let doc = parse(&text);
    assert_eq!(doc["dependencies"]["serde"].as_str(), Some("1"));
    assert_eq!(doc["package"]["name"].as_str(), Some("demo"));
    assert!(text.starts_with("[package]\nname = \"demo\"\n"));
}

#[test]
fn dev_dependencies_go_to_their_own_table() {
    let text =
        add_dependency_to_manifest(MANIFEST, &Dependency::new("insta").with_version("1").as_dev_dependency())
            .unwrap();
    let doc = parse(&text);
    assert_eq!(doc["dev-dependencies"]["insta"].as_str(), Some("1"));
    assert!(doc.get("dependencies").is_none());
}

#[test]
fn existing_table_is_kept_and_extended() {
    let manifest = "[package]\nname = \"demo\"\n\n[dependencies]\n# pinned\nlog = \"0.4\"\n";
    let text = add_dependency_to_manifest(manifest, &Dependency::new("serde").with_version("1")).unwrap();
    let doc = parse(&text);
    assert_eq!(doc["dependencies"]["log"].as_str(), Some("0.4"));
    assert_eq!(doc["dependencies"]["serde"].as_str(), Some("1"));
    assert!(text.contains("# pinned"));
}

#[test]
fn existing_entry_is_replaced() {
    let manifest = "[dependencies]\nserde = \"0.9\"\n";
    let text = add_dependency_to_manifest(manifest, &Dependency::new("serde").with_version("1")).unwrap();
    assert_eq!(parse(&text)["dependencies"]["serde"].as_str(), Some("1"));
}

#[test]
fn invalid_manifest_is_a_parse_error() {
    let r = add_dependency_to_manifest("[package\nname = ", &Dependency::new("serde"));
    assert!(matches!(r, Err(ManifestEditError::Parse(_))));
}

#[test]
fn non_table_dependencies_key_is_rejected() {
    let r = add_dependency_to_manifest("dependencies = 3\n", &Dependency::new("serde"));
    match r {
        Err(ManifestEditError::NotATable { key }) => assert_eq!(key, "dependencies"),
        other => panic!("unexpected result: {other:?}"),
    }
}

#[test]
fn writer_adds_dependencies_in_turn() {
    let deps = vec![
        Dependency::new("tokio").with_version("1").with_required_features(&["full"]),
        Dependency::new("tracing").with_version("0.1"),
    ];
    let text = ManifestDependencyWriter.add_dependencies(MANIFEST, &deps).unwrap();
    let doc = parse(&text);
    assert_eq!(doc["dependencies"]["tracing"].as_str(), Some("0.1"));
    assert_eq!(doc["dependencies"]["tokio"]["version"].as_str(), Some("1"));
    let keys: Vec<&str> = doc["dependencies"].as_table().unwrap().iter().map(|(k, _)| k).collect();
    assert_eq!(keys, vec!["tokio", "tracing"]);
}

#[test]
fn writer_with_no_dependencies_keeps_the_manifest() {
    let text = ManifestDependencyWriter.add_dependencies(MANIFEST, &Vec::new()).unwrap();
    assert_eq!(text, MANIFEST);
}

#[test]
fn writer_stops_at_the_first_failure() {
    let deps = vec![Dependency::new("a").with_version("1")];
    let r = ManifestDependencyWriter.add_dependencies("dependencies = []\n", &deps);
    assert!(matches!(r, Err(ManifestEditError::NotATable { .. })));
}
