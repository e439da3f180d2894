use orae::cli::ProjectType;
use orae::project::{
    NONE_LABEL, generate_project_structure_from_template, resolve_template_choice,
    template_choice_labels,
};
use orae::scaffold::{ScaffoldStep, Scaffolder};
use orae::template::{Template, TemplateRegistry};
use orae::templates::rest_api::RestCrudTemplate;

#[test]
fn default_registry_offers_the_rest_crud_template() {
    let reg = TemplateRegistry::default();
    let found = reg.for_project_type(ProjectType::RestApi);
    assert_eq!(found.len(), 1);
    assert_eq!(found[0].id(), "rest-crud-app");
    assert_eq!(found[0].name(), "REST CRUD API");
}

#[test]
fn empty_registry_offers_nothing() {
    assert!(TemplateRegistry::new().for_project_type(ProjectType::RestApi).is_empty());
}

#[test]
fn registration_order_is_kept() {
    let reg = TemplateRegistry::new()
        .register(Box::new(RestCrudTemplate))
        .register(Box::new(RestCrudTemplate));
    assert_eq!(reg.for_project_type(ProjectType::RestApi).len(), 2);
}

#[test]
fn labels_and_choices() {
    let reg = TemplateRegistry::default();
    let found = reg.for_project_type(ProjectType::RestApi);
    let labels = template_choice_labels(&found);
    assert_eq!(labels.len(), 2);
    assert_eq!(
        labels[0],
        "REST CRUD API - Create modules and offer dependencies for data access and supporting REST APIs"
    );
    assert_eq!(labels[1], NONE_LABEL);
    assert_eq!(resolve_template_choice(&found, &labels[0]), Some(0));
    assert_eq!(resolve_template_choice(&found, NONE_LABEL), None);
}

#[test]
fn project_type_name() {
    assert_eq!(ProjectType::RestApi.as_str(), "rest-api");
}

#[test]
fn rest_crud_template_dependencies() {
    let deps = RestCrudTemplate.dependencies();
    assert!(deps.required.is_empty());
    assert_eq!(deps.optional.len(), 1);
    assert_eq!(deps.optional[0].label, "PostgreSQL");
    assert_eq!(deps.optional[0].dependency.name, "tokio-postgres");
    assert_eq!(deps.optional[0].dependency.version.as_deref(), Some("0.7"));
    assert_eq!(RestCrudTemplate.project_type(), ProjectType::RestApi);
}

#[test]
fn rest_crud_template_layout() {
    let steps = RestCrudTemplate.scaffold(&Scaffolder::new("demo"));
    assert_eq!(steps.len(), 5);
    let dirs: Vec<String> = steps
        .iter()
        .filter_map(|s| match s {
            ScaffoldStep::Module(m) => Some(m.mod_rs_path.clone()),
            _ => None,
        })
        .collect();
    assert_eq!(dirs, vec!["src/routing/mod.rs", "src/models/mod.rs", "src/db/mod.rs"]);
    match &steps[0] {
        ScaffoldStep::Module(m) => {
            assert_eq!(m.resolved_dir, "demo/src/routing");
            assert_eq!(m.mod_rs, "// Declare routes here, or create sub-modules for different routes");
        }
        _ => panic!("expected a module"),
    }
    assert!(matches!(&steps[3], ScaffoldStep::WriteFile { path, .. } if path == "src/routes/state.rs"));
    match &steps[4] {
        ScaffoldStep::OverwriteFile { path, contents } => {
            assert_eq!(path, "src/main.rs");
            assert!(contents.contains("#[nkd_http_server::main("));
        }
        _ => panic!("expected the entry point"),
    }
}

#[test]
fn structure_from_a_chosen_template() {
    let reg = TemplateRegistry::default();
    let found = reg.for_project_type(ProjectType::RestApi);
    let steps = generate_project_structure_from_template(found[0], "/work/demo");
    assert_eq!(steps.len(), 5);
    assert!(matches!(&steps[2], ScaffoldStep::Module(m) if m.resolved_dir == "/work/demo/src/db"));
}
