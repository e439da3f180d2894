use orae::cli::ProjectType;
use orae::dependency::{Dependency, DependencySet, DependencySource, OptionalDependency, OptionalFeature};
use orae::project::{
    add_selected_features, determine_potential_project_dependencies, take_optional_features,
    with_chosen_optional,
};

#[test]
fn new_dependency_has_default_settings() {
    let d = Dependency::new("serde");
    assert_eq!(d.name, "serde");
    assert!(d.version.is_none());
    assert!(d.required_features.is_empty());
    assert!(d.optional_features.is_empty());
    assert!(d.default_features);
    assert!(!d.dev);
    assert!(matches!(d.source, DependencySource::CratesIo));
}

#[test]
fn builders_set_one_field_each() {
    let d = Dependency::new("api-router")
        .with_version("0.3")
        .with_required_features(&["axum", "tower"])
        .with_optional_features(vec![OptionalFeature::new("json", "JSON bodies")])
        .no_default_features()
        .as_dev_dependency()
        .with_source(DependencySource::git("https://example.com/api-router.git"));
    assert_eq!(d.name, "api-router");
    assert_eq!(d.version.as_deref(), Some("0.3"));
    assert_eq!(d.required_features, vec!["axum".to_string(), "tower".to_string()]);
    assert_eq!(d.optional_features.len(), 1);
    assert_eq!(d.optional_features[0].name, "json");
    assert!(!d.default_features);
    assert!(d.dev);
    match d.source {
        DependencySource::Git { url, branch, tag, rev } => {
            assert_eq!(url, "https://example.com/api-router.git");
            assert!(branch.is_none() && tag.is_none() && rev.is_none());
        }
        _ => panic!("expected a git source"),
    }
}

#[test]
fn required_features_are_replaced_not_extended() {
    let d = Dependency::new("x").with_required_features(&["a"]).with_required_features(&["b", "c"]);
    assert_eq!(d.required_features, vec!["b".to_string(), "c".to_string()]);
}

#[test]
fn labels_join_name_and_description() {
    assert_eq!(OptionalFeature::new("json", "JSON support").label(), "json - JSON support");
    let od = OptionalDependency::new("Serde", "Derive macros", Dependency::new("serde"));
    assert_eq!(od.label(), "Serde - Derive macros");
}

#[test]
fn dependency_set_appends_in_order() {
    let set = DependencySet::new()
        .with_required(vec![Dependency::new("a")])
        .with_required(vec![Dependency::new("b"), Dependency::new("c")])
        .with_optional(vec![OptionalDependency::new("D", "d", Dependency::new("d"))]);
    let names: Vec<&str> = set.required.iter().map(|d| d.name.as_str()).collect();
    assert_eq!(names, vec!["a", "b", "c"]);
    assert_eq!(set.optional.len(), 1);
    assert_eq!(set.optional[0].dependency.name, "d");
}

#[test]
fn empty_dependency_set() {
    let set = DependencySet::new();
    assert!(set.required.is_empty());
    assert!(set.optional.is_empty());
}

#[test]
fn rest_api_starts_from_the_expected_dependencies() {
    let set = determine_potential_project_dependencies(ProjectType::RestApi);
    let names: Vec<&str> = set.required.iter().map(|d| d.name.as_str()).collect();
    assert_eq!(names, vec!["tokio", "axum", "tracing", "orae-http-server"]);
    assert_eq!(set.required[0].version.as_deref(), Some("1"));
    assert_eq!(set.required[0].required_features, vec!["full".to_string(), "rt-multi-thread".to_string()]);
    assert_eq!(set.required[1].version.as_deref(), Some("0.8"));
    assert_eq!(set.required[1].required_features, vec!["macros".to_string(), "original-uri".to_string()]);
    let offered: Vec<&str> = set.required[1].optional_features.iter().map(|f| f.name.as_str()).collect();
    assert_eq!(offered, vec!["json", "form"]);
    assert_eq!(set.required[2].version.as_deref(), Some("0.1"));
    match &set.required[3].source {
        DependencySource::Git { url, .. } => assert_eq!(url, "https://github.com/natenador44/orae.git"),
        _ => panic!("the server crate comes from git"),
    }
    let labels: Vec<&str> = set.optional.iter().map(|o| o.label).collect();
    assert_eq!(labels, vec!["Serde", "JSON Parsing"]);
    assert_eq!(set.optional[0].dependency.required_features, vec!["derive".to_string()]);
    assert_eq!(set.optional[1].dependency.name, "serde_json");
}

#[test]
fn chosen_optional_dependencies_follow_the_required_ones() {
    let required = vec![Dependency::new("tokio")];
    let chosen = vec![
        OptionalDependency::new("Serde", "s", Dependency::new("serde")),
        OptionalDependency::new("JSON", "j", Dependency::new("serde_json")),
    ];
    let all = with_chosen_optional(required, chosen);
    let names: Vec<&str> = all.iter().map(|d| d.name.as_str()).collect();
    assert_eq!(names, vec!["tokio", "serde", "serde_json"]);
}

#[test]
fn selected_features_become_required() {
    let mut d = Dependency::new("axum")
        .with_required_features(&["macros"])
        .with_optional_features(vec![
            OptionalFeature::new("json", "JSON"),
            OptionalFeature::new("form", "Form"),
        ]);
    let offered = take_optional_features(&mut d);
    assert_eq!(offered.len(), 2);
    assert!(d.optional_features.is_empty());
    let selected: Vec<OptionalFeature> = offered.into_iter().filter(|f| f.name == "form").collect();
    let d = add_selected_features(d, selected);
    assert_eq!(d.required_features, vec!["macros".to_string(), "form".to_string()]);
}
