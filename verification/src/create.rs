//! Describing a project or workspace to create with `cargo new`, and the
//! steps that create it.
use crate::scaffold::{join_path, path_join};
use vstd::prelude::*;

verus! {

/// Whether `cargo new` makes a binary or a library.
#[derive(Debug, Clone, Copy, PartialEq, Eq, Structural)]
pub enum ProjectKind {
    Bin,
    Lib,
}

impl Default for ProjectKind {
    /// A binary.
    fn default() -> (r: ProjectKind)
        ensures
            r == ProjectKind::Bin,
    {
        ProjectKind::Bin
    }
}

/// A crate to add to a created project.
#[derive(Debug)]
pub struct Dependency {
    /// The crate name.
    pub name: String,
    /// The version of the crate.
    pub version: Option<String>,
    /// The features to enable.
    pub features: Vec<String>,
}

/// The REST service template's adjustments to its dependency list.
#[derive(Debug)]
pub struct RestServiceTemplate {
    pub exclude_dependencies: Option<Vec<String>>,
    pub additional_dependencies: Option<Vec<Dependency>>,
}

impl Default for RestServiceTemplate {
    /// No exclusions, no additions.
    fn default() -> (r: RestServiceTemplate)
        ensures
            r.exclude_dependencies is None,
            r.additional_dependencies is None,
    {
        RestServiceTemplate { exclude_dependencies: None, additional_dependencies: None }
    }
}

/// The template a created project follows.
#[derive(Debug)]
pub enum ProjectTemplate {
    RestService(RestServiceTemplate),
}

/// One project to create.
#[derive(Debug)]
pub struct ProjectDefinition {
    /// The name of the project: the name of the executable or library.
    pub name: String,
    pub kind: ProjectKind,
    pub template: ProjectTemplate,
}

/// A workspace named `project_name` holding `projects`.
#[derive(Debug)]
pub struct WorkspaceDefinition {
    pub project_name: String,
    pub projects: Vec<ProjectDefinition>,
}

/// A single project, or a workspace of projects.
#[derive(Debug)]
pub enum ProjectStructure {
    Single(ProjectDefinition),
    Workspace(WorkspaceDefinition),
}

/// What to create, and where.
#[derive(Debug)]
pub struct CreateOptions {
    /// The directory to run `cargo new` in; the current directory when `None`.
    pub project_parent_dir: Option<String>,
    /// Workspace or single project.
    pub project_structure: ProjectStructure,
}

/// The `[workspace]` table of a workspace manifest.
#[derive(Debug)]
pub struct Workspace {
    pub members: Vec<String>,
    pub resolver: Option<String>,
}

/// A workspace manifest.
#[derive(Debug)]
pub struct WorkspaceCargo {
    pub workspace: Workspace,
}

/// The names of the first `n` projects, in order.
pub open spec fn project_names(projects: Seq<ProjectDefinition>) -> Seq<Seq<char>> {
    projects.map_values(|p: ProjectDefinition| p.name@)
}

/// The manifest of a workspace: its projects as members, resolver `3`.
pub fn workspace_cargo(definition: &WorkspaceDefinition) -> (r: WorkspaceCargo)
    ensures
        crate::dependency::strings_view(r.workspace.members@) == project_names(definition.projects@),
        r.workspace.resolver matches Some(v) && v@ == "3"@,
{
    let mut members: Vec<String> = Vec::new();
    let mut i: usize = 0;
    while i < definition.projects.len()
        invariant
            i <= definition.projects@.len(),
            members@.len() == i,
            forall|k: int| 0 <= k < i ==> #[trigger] members@[k]@ == definition.projects@[k].name@,
        decreases definition.projects@.len() - i,
    {
        members.push(definition.projects[i].name.clone());
        i = i + 1;
    }
    assert(crate::dependency::strings_view(members@) =~= project_names(definition.projects@));
    WorkspaceCargo { workspace: Workspace { members, resolver: Some(String::from_str("3")) } }
}

/// One step of creating projects.
#[derive(Debug)]
pub enum CreateStep {
    /// Write the workspace manifest to `path`.
    WriteWorkspace { path: String, manifest: WorkspaceCargo },
    /// `cargo new` a project named `name`, of `kind`, at `dir`.
    NewProject { dir: String, name: String, kind: ProjectKind },
}

/// Mathematical form of a `NewProject` step: directory, name and kind.
pub open spec fn new_project_step(s: CreateStep) -> Option<(Seq<char>, Seq<char>, ProjectKind)> {
    match s {
        CreateStep::NewProject { dir, name, kind } => Some((dir@, name@, kind)),
        _ => None,
    }
}

/// The `cargo new` of project `p` inside `parent`.
pub open spec fn new_project_of(parent: Seq<char>, p: ProjectDefinition) -> Option<(Seq<char>, Seq<char>, ProjectKind)> {
    Some((path_join(parent, p.name@), p.name@, p.kind))
}

/// The step creating project `p` inside `parent`: at `parent/<name>`.
fn new_project(parent: &str, p: &ProjectDefinition) -> (r: CreateStep)
    ensures
        new_project_step(r) == new_project_of(parent@, *p),
{
    CreateStep::NewProject { dir: join_path(parent, p.name.as_str()), name: p.name.clone(), kind: p.kind }
}

/// The steps creating what `options` describes, under its parent directory
/// (or `current_dir`): a single project; or the workspace manifest at the
/// root followed by each project inside `<root>/<workspace name>`.
pub fn create_project_plan(options: &CreateOptions, current_dir: &str) -> (r: Vec<CreateStep>)
    ensures
        ({
            let root = match options.project_parent_dir {
                Some(p) => p@,
                None => current_dir@,
            };
            match options.project_structure {
                ProjectStructure::Single(p) => r@.len() == 1 && new_project_step(r@[0]) == new_project_of(
                    root,
                    p,
                ),
                ProjectStructure::Workspace(w) => {
                    &&& r@.len() == w.projects@.len() + 1
                    &&& r@[0] matches CreateStep::WriteWorkspace { path, manifest } && path@ == root
                        && crate::dependency::strings_view(manifest.workspace.members@)
                        == project_names(w.projects@)
                    &&& forall|k: int|
                        0 <= k < w.projects@.len() ==> new_project_step(#[trigger] r@[k + 1])
                            == new_project_of(path_join(root, w.project_name@), w.projects@[k])
                },
            }
        }),
{
    let root: &str = match &options.project_parent_dir {
        Some(p) => p.as_str(),
        None => current_dir,
    };
    let mut steps: Vec<CreateStep> = Vec::new();
    match &options.project_structure {
        ProjectStructure::Single(p) => {
            steps.push(new_project(root, p));
        },
        ProjectStructure::Workspace(w) => {
            steps.push(CreateStep::WriteWorkspace { path: String::from_str(root), manifest: workspace_cargo(w) });
            let dir = join_path(root, w.project_name.as_str());
            let mut k: usize = 0;
            while k < w.projects.len()
                invariant
                    k <= w.projects@.len(),
                    steps@.len() == k + 1,
                    steps@[0] matches CreateStep::WriteWorkspace { path, manifest } && path@ == root@
                        && crate::dependency::strings_view(manifest.workspace.members@)
                        == project_names(w.projects@),
                    dir@ == path_join(root@, w.project_name@),
                    forall|j: int|
                        0 <= j < k ==> new_project_step(#[trigger] steps@[j + 1]) == new_project_of(
                            dir@,
                            w.projects@[j],
                        ),
                decreases w.projects@.len() - k,
            {
                steps.push(new_project(dir.as_str(), &w.projects[k]));
                k = k + 1;
            }
        },
    }
    steps
}

} // verus!
