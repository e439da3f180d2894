//! The builder-style command line: `nkdhs create <project_name> [<project_kind>]`.
use crate::create::ProjectKind;
use vstd::prelude::*;

verus! {

/// What the command line asks for.
#[derive(Debug)]
pub enum Action {
    CreateProject { name: String, kind: ProjectKind },
}

/// The parsed command line.
#[derive(Debug)]
pub struct Args {
    pub action: Action,
}

/// The command-line name of a project kind.
pub open spec fn kind_value_name(k: ProjectKind) -> Seq<char> {
    match k {
        ProjectKind::Bin => "bin"@,
        ProjectKind::Lib => "lib"@,
    }
}

impl ProjectKind {
    /// Every kind, in the order offered on the command line.
    pub fn value_variants() -> (r: Vec<ProjectKind>)
        ensures
            r@ == seq![ProjectKind::Bin, ProjectKind::Lib],
    {
        let mut r: Vec<ProjectKind> = Vec::new();
        r.push(ProjectKind::Bin);
        r.push(ProjectKind::Lib);
        assert(r@ =~= seq![ProjectKind::Bin, ProjectKind::Lib]);
        r
    }

    /// The command-line name of the kind: `bin` or `lib`.
    pub fn possible_value_name(&self) -> (r: &'static str)
        ensures
            r@ == kind_value_name(*self),
    {
        match self {
            ProjectKind::Bin => "bin",
            ProjectKind::Lib => "lib",
        }
    }
}

/// The subcommand name.
pub const CREATE_SUBCOMMAND: &'static str = "create";

/// The argument holding the project name.
pub const PROJECT_NAME_ARG: &'static str = "project_name";

/// The argument holding the project kind.
pub const PROJECT_KIND_ARG: &'static str = "project_kind";

impl Args {
    /// The `create` action for `name`; the kind is a binary unless given.
    pub fn create_project(name: String, kind: Option<ProjectKind>) -> (r: Args)
        ensures
            r.action matches Action::CreateProject { name: n, kind: k } && n == name && k == match kind {
                Some(k) => k,
                None => ProjectKind::Bin,
            },
    {
        let k = match kind {
            Some(k) => k,
            None => ProjectKind::default(),
        };
        Args { action: Action::CreateProject { name, kind: k } }
    }
}

} // verus!
