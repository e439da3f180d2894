use orae::dependency::Dependency;
use orae::error::OraeError;
use orae::flow::{CreateAction, CreateEvent, CreateFlow, create_step};

#[test]
fn template_flow_asks_everything_before_creating() {
    let (s, a) = create_step(CreateFlow::Start, CreateEvent::Begin);
    assert!(matches!(a, CreateAction::AskTemplate));
    let (s, a) = create_step(s, CreateEvent::TemplateChosen(Some(0)));
    assert!(matches!(a, CreateAction::AskDependencies { template: Some(0) }));
    let (s, a) = create_step(s, CreateEvent::DependenciesChosen(vec![Dependency::new("tokio")]));
    assert!(matches!(a, CreateAction::AskConfirmation));
    let (s, a) = create_step(s, CreateEvent::Confirmed(true));
    assert!(matches!(a, CreateAction::CreateProject));
    let (s, a) = create_step(s, CreateEvent::ProjectCreated(Ok("work/demo".to_string())));
    match a {
        CreateAction::WriteDependencies { dependencies } => assert_eq!(dependencies[0].name, "tokio"),
        _ => panic!("expected the dependencies to be written"),
    }
    let (s, a) = create_step(s, CreateEvent::DependenciesWritten(Ok(())));
    assert!(matches!(a, CreateAction::Scaffold { template: 0 }));
    let (s, a) = create_step(s, CreateEvent::Scaffolded(Ok(())));
    assert!(matches!(a, CreateAction::Finish));
    assert!(matches!(s, CreateFlow::Done));
}

#[test]
fn no_template_creates_without_confirmation_or_scaffolding() {
    let (s, _) = create_step(CreateFlow::Start, CreateEvent::Begin);
    let (s, _) = create_step(s, CreateEvent::TemplateChosen(None));
    let (s, a) = create_step(s, CreateEvent::DependenciesChosen(Vec::new()));
    assert!(matches!(a, CreateAction::CreateProject));
    let (s, _) = create_step(s, CreateEvent::ProjectCreated(Ok("demo".to_string())));
    let (s, a) = create_step(s, CreateEvent::DependenciesWritten(Ok(())));
    assert!(matches!(a, CreateAction::Finish));
    assert!(matches!(s, CreateFlow::Done));
}

#[test]
fn declining_the_structure_skips_scaffolding() {
    let (s, _) = create_step(CreateFlow::Start, CreateEvent::Begin);
    let (s, _) = create_step(s, CreateEvent::TemplateChosen(Some(0)));
    let (s, _) = create_step(s, CreateEvent::DependenciesChosen(Vec::new()));
    let (s, _) = create_step(s, CreateEvent::Confirmed(false));
    let (s, _) = create_step(s, CreateEvent::ProjectCreated(Ok("demo".to_string())));
    let (_, a) = create_step(s, CreateEvent::DependenciesWritten(Ok(())));
    assert!(matches!(a, CreateAction::Finish));
}

#[test]
fn a_failure_ends_the_run() {
    let (s, _) = create_step(CreateFlow::Start, CreateEvent::Begin);
    let (s, _) = create_step(s, CreateEvent::TemplateChosen(None));
    let (s, _) = create_step(s, CreateEvent::DependenciesChosen(Vec::new()));
    let failed = OraeError::CargoCommandFailed("new --bin demo".to_string(), Some(101), "see output above".to_string());
    let (s, a) = create_step(s, CreateEvent::ProjectCreated(Err(failed)));
    assert!(matches!(a, CreateAction::Fail(OraeError::CargoCommandFailed(_, Some(101), _))));
    assert!(matches!(s, CreateFlow::Failed));
}

#[test]
fn an_event_out_of_order_fails() {
    let (s, a) = create_step(CreateFlow::Start, CreateEvent::Confirmed(true));
    assert!(matches!(a, CreateAction::Fail(OraeError::CreateOutOfOrder)));
    assert!(matches!(s, CreateFlow::Failed));
}
