//! The command line: `orae create <name> --type <project-type> [--path <dir>]`.
use vstd::prelude::*;

verus! {

/// The kinds of projects that can be bootstrapped.
#[derive(Debug, Clone, Copy, PartialEq, Eq, Structural)]
pub enum ProjectType {
    RestApi,
}

/// The name of a project type on the command line.
pub open spec fn project_type_name(t: ProjectType) -> Seq<char> {
    match t {
        ProjectType::RestApi => "rest-api"@,
    }
}

impl ProjectType {
    /// The name of the project type, as written on the command line.
    pub fn as_str(&self) -> (r: &'static str)
        ensures
            r@ == project_type_name(*self),
    {
        match self {
            ProjectType::RestApi => "rest-api",
        }
    }
}

/// Arguments of `orae create`.
#[derive(Debug)]
pub struct CreateArgs {
    /// Name of the project, and of the directory created for it.
    pub name: String,
    /// Type of project to scaffold.
    pub project_type: ProjectType,
    /// Directory to create the project in (`.` by default).
    pub path: String,
}

/// The subcommands.
#[derive(Debug)]
pub enum Command {
    /// Create a new project.
    Create(CreateArgs),
}

/// The parsed command line.
#[derive(Debug)]
pub struct Cli {
    pub command: Command,
}

} // verus!
