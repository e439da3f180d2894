//! The order of `orae create`: pick a template (or none), pick the optional
//! dependencies, confirm the opinionated structure, then create the project,
//! write its dependencies and scaffold it.  The caller asks and acts; this
//! decides what comes next.
use crate::dependency::Dependency;
use crate::error::OraeError;
use vstd::prelude::*;

verus! {

/// Where a `create` run stands.
pub enum CreateFlow {
    /// Nothing asked yet.
    Start,
    /// Waiting for the template choice.
    ChoosingTemplate,
    /// Waiting for the dependency choice; the template chosen, if any.
    ChoosingDependencies { template: Option<usize> },
    /// Waiting for the confirmation to scaffold template `template`.
    Confirming { template: usize, dependencies: Vec<Dependency> },
    /// Waiting for the project to be created; the template to scaffold, if any.
    Creating { template: Option<usize>, dependencies: Vec<Dependency> },
    /// Waiting for the dependencies to be written into the project at `project_dir`.
    WritingDependencies { project_dir: String, template: Option<usize> },
    /// Waiting for the project at `project_dir` to be scaffolded.
    Scaffolding { project_dir: String },
    /// Finished successfully.
    Done,
    /// Finished with a failure.
    Failed,
}

/// What the caller reports back.
pub enum CreateEvent {
    /// The run starts.
    Begin,
    /// The template chosen (its index among those offered), or none.
    TemplateChosen(Option<usize>),
    /// The dependencies chosen, with their features.
    DependenciesChosen(Vec<Dependency>),
    /// Whether to generate the template's structure.
    Confirmed(bool),
    /// The project was created at the given directory, or creating it failed.
    ProjectCreated(Result<String, OraeError>),
    /// The dependencies were written, or writing them failed.
    DependenciesWritten(Result<(), OraeError>),
    /// The structure was generated, or generating it failed.
    Scaffolded(Result<(), OraeError>),
    /// Asking the user failed.
    PromptFailed(OraeError),
}

/// What the caller is to do next.
pub enum CreateAction {
    /// Ask which template to use, if any.
    AskTemplate,
    /// Ask which optional dependencies (of the project type and of the
    /// template, if any) to add.
    AskDependencies { template: Option<usize> },
    /// Ask whether to generate the template's structure.
    AskConfirmation,
    /// Create the project.
    CreateProject,
    /// Write the dependencies into the created project.
    WriteDependencies { dependencies: Vec<Dependency> },
    /// Generate template `template`'s structure in the created project.
    Scaffold { template: usize },
    /// Stop: the run succeeded.
    Finish,
    /// Stop: the run failed.
    Fail(OraeError),
}

/// The error a failure event reports.
pub open spec fn failure_of(e: CreateEvent) -> Option<OraeError> {
    match e {
        CreateEvent::ProjectCreated(Err(x)) => Some(x),
        CreateEvent::DependenciesWritten(Err(x)) => Some(x),
        CreateEvent::Scaffolded(Err(x)) => Some(x),
        CreateEvent::PromptFailed(x) => Some(x),
        _ => None,
    }
}

/// The next state and action of a `create` run in `s` on event `e`.
pub open spec fn create_next(s: CreateFlow, e: CreateEvent) -> (CreateFlow, CreateAction) {
    if let Some(x) = failure_of(e) {
        (CreateFlow::Failed, CreateAction::Fail(x))
    } else {
        match (s, e) {
            (CreateFlow::Start, CreateEvent::Begin) => (CreateFlow::ChoosingTemplate, CreateAction::AskTemplate),
            (CreateFlow::ChoosingTemplate, CreateEvent::TemplateChosen(t)) => (
                CreateFlow::ChoosingDependencies { template: t },
                CreateAction::AskDependencies { template: t },
            ),
            (CreateFlow::ChoosingDependencies { template: Some(t) }, CreateEvent::DependenciesChosen(d)) => (
                CreateFlow::Confirming { template: t, dependencies: d },
                CreateAction::AskConfirmation,
            ),
            (CreateFlow::ChoosingDependencies { template: None }, CreateEvent::DependenciesChosen(d)) => (
                CreateFlow::Creating { template: None, dependencies: d },
                CreateAction::CreateProject,
            ),
            (CreateFlow::Confirming { template, dependencies }, CreateEvent::Confirmed(yes)) => (
                CreateFlow::Creating {
                    template: if yes {
                        Some(template)
                    } else {
                        None
                    },
                    dependencies,
                },
                CreateAction::CreateProject,
            ),
            (CreateFlow::Creating { template, dependencies }, CreateEvent::ProjectCreated(Ok(dir))) => (
                CreateFlow::WritingDependencies { project_dir: dir, template },
                CreateAction::WriteDependencies { dependencies },
            ),
            (
                CreateFlow::WritingDependencies { project_dir, template: Some(t) },
                CreateEvent::DependenciesWritten(Ok(())),
            ) => (
                CreateFlow::Scaffolding { project_dir },
                CreateAction::Scaffold { template: t },
            ),
            (
                CreateFlow::WritingDependencies { project_dir: _, template: None },
                CreateEvent::DependenciesWritten(Ok(())),
            ) => (CreateFlow::Done, CreateAction::Finish),
            (CreateFlow::Scaffolding { project_dir: _ }, CreateEvent::Scaffolded(Ok(()))) => (
                CreateFlow::Done,
                CreateAction::Finish,
            ),
            _ => (CreateFlow::Failed, CreateAction::Fail(OraeError::CreateOutOfOrder)),
        }
    }
}

/// One step of a `create` run: from the state and what the caller reports,
/// the next state and what the caller is to do.  A failure ends the run;
/// an event that does not fit the state ends it too.
pub fn create_step(state: CreateFlow, event: CreateEvent) -> (r: (CreateFlow, CreateAction))
    ensures
        r == create_next(state, event),
{
    match event {
        CreateEvent::ProjectCreated(Err(x)) => {
            return (CreateFlow::Failed, CreateAction::Fail(x));
        },
        CreateEvent::DependenciesWritten(Err(x)) => {
            return (CreateFlow::Failed, CreateAction::Fail(x));
        },
        CreateEvent::Scaffolded(Err(x)) => {
            return (CreateFlow::Failed, CreateAction::Fail(x));
        },
        CreateEvent::PromptFailed(x) => {
            return (CreateFlow::Failed, CreateAction::Fail(x));
        },
        CreateEvent::Begin => match state {
            CreateFlow::Start => (CreateFlow::ChoosingTemplate, CreateAction::AskTemplate),
            _ => (CreateFlow::Failed, CreateAction::Fail(OraeError::CreateOutOfOrder)),
        },
        CreateEvent::TemplateChosen(t) => match state {
            CreateFlow::ChoosingTemplate => (
                CreateFlow::ChoosingDependencies { template: t },
                CreateAction::AskDependencies { template: t },
            ),
            _ => (CreateFlow::Failed, CreateAction::Fail(OraeError::CreateOutOfOrder)),
        },
        CreateEvent::DependenciesChosen(d) => match state {
            CreateFlow::ChoosingDependencies { template: Some(t) } => (
                CreateFlow::Confirming { template: t, dependencies: d },
                CreateAction::AskConfirmation,
            ),
            CreateFlow::ChoosingDependencies { template: None } => (
                CreateFlow::Creating { template: None, dependencies: d },
                CreateAction::CreateProject,
            ),
            _ => (CreateFlow::Failed, CreateAction::Fail(OraeError::CreateOutOfOrder)),
        },
        CreateEvent::Confirmed(yes) => match state {
            CreateFlow::Confirming { template, dependencies } => (
                CreateFlow::Creating {
                    template: if yes {
                        Some(template)
                    } else {
                        None
                    },
                    dependencies,
                },
                CreateAction::CreateProject,
            ),
            _ => (CreateFlow::Failed, CreateAction::Fail(OraeError::CreateOutOfOrder)),
        },
        CreateEvent::ProjectCreated(Ok(dir)) => match state {
            CreateFlow::Creating { template, dependencies } => (
                CreateFlow::WritingDependencies { project_dir: dir, template },
                CreateAction::WriteDependencies { dependencies },
            ),
            _ => (CreateFlow::Failed, CreateAction::Fail(OraeError::CreateOutOfOrder)),
        },
        CreateEvent::DependenciesWritten(Ok(())) => match state {
            CreateFlow::WritingDependencies { project_dir, template: Some(t) } => (
                CreateFlow::Scaffolding { project_dir },
                CreateAction::Scaffold { template: t },
            ),
            CreateFlow::WritingDependencies { project_dir: _, template: None } => (
                CreateFlow::Done,
                CreateAction::Finish,
            ),
            _ => (CreateFlow::Failed, CreateAction::Fail(OraeError::CreateOutOfOrder)),
        },
        CreateEvent::Scaffolded(Ok(())) => match state {
            CreateFlow::Scaffolding { project_dir: _ } => (CreateFlow::Done, CreateAction::Finish),
            _ => (CreateFlow::Failed, CreateAction::Fail(OraeError::CreateOutOfOrder)),
        },
    }
}

} // verus!
