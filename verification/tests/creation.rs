use orae::args::{Action, Args};
use orae::cargo_ops::ProcessCargoRunner;
use orae::config::branch_ref_name;
use orae::create::{
    CreateOptions, CreateStep, ProjectDefinition, ProjectKind, ProjectStructure, ProjectTemplate,
    RestServiceTemplate, WorkspaceDefinition, create_project_plan, workspace_cargo,
};
use orae::error::OraeError;
use orae::responses::{internal_error_reply, not_found_reply, status_reply, with_attached_status};

fn project(name: &str, kind: ProjectKind) -> ProjectDefinition {
    ProjectDefinition {
        name: name.to_string(),
        kind,
        template: ProjectTemplate::RestService(RestServiceTemplate::default()),
    }
}

#[test]
fn single_project_plan() {
    let options = CreateOptions {
        project_parent_dir: Some("/work".to_string()),
        project_structure: ProjectStructure::Single(project("api", ProjectKind::Bin)),
    };
    let steps = create_project_plan(&options, "/cwd");
    assert_eq!(steps.len(), 1);
    match &steps[0] {
        CreateStep::NewProject { dir, name, kind } => {
            assert_eq!(dir, "/work/api");
            assert_eq!(name, "api");
            assert_eq!(*kind, ProjectKind::Bin);
        }
        other => panic!("unexpected step: {other:?}"),
    }
}

#[test]
fn workspace_plan_uses_the_current_directory() {
    let options = CreateOptions {
        project_parent_dir: None,
        project_structure: ProjectStructure::Workspace(WorkspaceDefinition {
            project_name: "suite".to_string(),
            projects: vec![project("api", ProjectKind::Bin), project("core", ProjectKind::Lib)],
        }),
    };
    let steps = create_project_plan(&options, "/cwd");
    assert_eq!(steps.len(), 3);
    match &steps[0] {
        CreateStep::WriteWorkspace { path, manifest } => {
            assert_eq!(path, "/cwd");
            assert_eq!(manifest.workspace.members, vec!["api".to_string(), "core".to_string()]);
            assert_eq!(manifest.workspace.resolver.as_deref(), Some("3"));
        }
        other => panic!("unexpected step: {other:?}"),
    }
    assert!(matches!(&steps[2], CreateStep::NewProject { dir, kind: ProjectKind::Lib, .. } if dir == "/cwd/suite/core"));
}

#[test]
fn workspace_manifest_lists_members() {
    let def = WorkspaceDefinition { project_name: "w".to_string(), projects: vec![] };
    let m = workspace_cargo(&def);
    assert!(m.workspace.members.is_empty());
}

#[test]
fn project_kinds_on_the_command_line() {
    assert_eq!(ProjectKind::value_variants(), vec![ProjectKind::Bin, ProjectKind::Lib]);
    assert_eq!(ProjectKind::Bin.possible_value_name(), "bin");
    assert_eq!(ProjectKind::Lib.possible_value_name(), "lib");
    assert_eq!(ProjectKind::default(), ProjectKind::Bin);
}

#[test]
fn create_args_default_to_a_binary() {
    let args = Args::create_project("demo".to_string(), None);
    match args.action {
        Action::CreateProject { name, kind } => {
            assert_eq!(name, "demo");
            assert_eq!(kind, ProjectKind::Bin);
        }
    }
    let lib = Args::create_project("demo".to_string(), Some(ProjectKind::Lib));
    assert!(matches!(lib.action, Action::CreateProject { kind: ProjectKind::Lib, .. }));
}

#[test]
fn cargo_new_arguments_and_outcome() {
    assert_eq!(ProcessCargoRunner::command_args("demo"), vec!["new", "--bin", "demo"]);
    assert_eq!(ProcessCargoRunner::outcome("/work", "demo", true, Some(0)).unwrap(), "/work/demo");
    match ProcessCargoRunner::outcome("/work", "demo", false, Some(101)) {
        Err(OraeError::CargoCommandFailed(cmd, code, detail)) => {
            assert_eq!(cmd, "new --bin demo");
            assert_eq!(code, Some(101));
            assert_eq!(detail, "see output above");
        }
        other => panic!("unexpected outcome: {other:?}"),
    }
}

#[test]
fn branch_reference_names() {
    assert_eq!(branch_ref_name("main"), "refs/remotes/origin/main");
}

#[test]
fn error_replies() {
    let internal = internal_error_reply();
    assert_eq!((internal.status, internal.message.as_str()), (500, "internal server error"));
    let nf = not_found_reply(None);
    assert_eq!((nf.status, nf.message.as_str()), (404, "not found"));
    let msg = not_found_reply(Some("project not found"));
    assert_eq!(msg.message, "project not found");
    let custom = status_reply(400, "bad input");
    assert_eq!((custom.status, custom.message.as_str()), (400, "bad input"));
    let attached = with_attached_status(internal_error_reply(), 404);
    assert_eq!((attached.status, attached.message.as_str()), (404, "internal server error"));
}
