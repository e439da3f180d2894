use orae::scaffold::{ScaffoldStep, Scaffolder, insert_after_marker_text, join_path};

#[test]
fn joining_paths() {
    assert_eq!(join_path("proj", "src/main.rs"), "proj/src/main.rs");
    assert_eq!(join_path("proj/", "src"), "proj/src");
    assert_eq!(join_path("", "src"), "src");
    assert_eq!(join_path("proj", "/etc/hosts"), "/etc/hosts");
    assert_eq!(join_path("proj", ""), "proj/");
}

#[test]
fn resolve_is_relative_to_the_root() {
    let s = Scaffolder::new("/tmp/demo");
    assert_eq!(s.root(), "/tmp/demo");
    assert_eq!(s.resolve("src/routes/mod.rs"), "/tmp/demo/src/routes/mod.rs");
}

#[test]
fn module_with_submodules_and_contents() {
    let s = Scaffolder::new("demo");
    let w = s
        .module(&["src", "routes"])
        .declare_submodule("health")
        .declare_submodule("users")
        .with_contents("// shared route helpers go here\n")
        .build();
    assert_eq!(w.dir, "src/routes");
    assert_eq!(w.mod_rs_path, "src/routes/mod.rs");
    assert_eq!(w.resolved_dir, "demo/src/routes");
    assert_eq!(w.mod_rs, "pub mod health;\npub mod users;\n\n// shared route helpers go here\n");
}

#[test]
fn module_without_submodules_is_just_contents() {
    let s = Scaffolder::new("demo");
    let w = s.module(&["src", "db"]).with_contents("// db").build();
    assert_eq!(w.mod_rs, "// db");
    let empty = s.module(&["src"]).build();
    assert_eq!(empty.mod_rs, "");
    assert_eq!(empty.dir, "src");
}

#[test]
fn insert_after_the_marker_line() {
    let existing = "fn main() {}\n// --- modules ---\nmod a;\n";
    let out = insert_after_marker_text(existing, "--- modules ---", "mod routes;").unwrap();
    assert_eq!(out, "fn main() {}\n// --- modules ---\nmod routes;\nmod a;\n");
}

#[test]
fn insert_keeps_a_trailing_newline_in_contents() {
    let out = insert_after_marker_text("x\nMARK\n", "MARK", "a\nb\n").unwrap();
    assert_eq!(out, "x\nMARK\na\nb\n");
}

#[test]
fn insert_only_after_the_first_match() {
    let out = insert_after_marker_text("M1\nM2\n", "M", "x").unwrap();
    assert_eq!(out, "M1\nx\nM2\n");
}

#[test]
fn insert_normalizes_line_endings() {
    let out = insert_after_marker_text("a\r\nMARK\r\nb", "MARK", "x").unwrap();
    assert_eq!(out, "a\nMARK\nx\nb\n");
}

#[test]
fn missing_marker_gives_nothing() {
    assert!(insert_after_marker_text("a\nb\n", "zzz", "x").is_none());
    assert!(insert_after_marker_text("", "", "x").is_none());
}

#[test]
fn empty_marker_matches_the_first_line() {
    assert_eq!(insert_after_marker_text("a\nb\n", "", "x").unwrap(), "a\nx\nb\n");
}

#[test]
fn step_kinds_carry_paths_and_contents() {
    let step = ScaffoldStep::WriteFile { path: "a.rs".to_string(), contents: "b".to_string() };
    match step {
        ScaffoldStep::WriteFile { path, contents } => assert_eq!((path.as_str(), contents.as_str()), ("a.rs", "b")),
        _ => panic!("unexpected step"),
    }
}
