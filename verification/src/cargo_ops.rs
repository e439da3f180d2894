//! Talking to Cargo: creating the initial project (what `cargo new` does)
//! and the shape of its outcome.
use crate::error::OraeError;
use crate::scaffold::{join_path, path_join};
use vstd::prelude::*;

verus! {

/// Creates the initial Cargo project.  Implementations run the actual
/// command; they return the path of the created project directory.
pub trait ProjectCreator {
    /// Create a new binary project named `name` inside `parent_dir`,
    /// returning the path of the created project directory.
    fn create_binary_project(&self, parent_dir: &str, name: &str) -> (r: Result<String, OraeError>)
        ensures
            r matches Ok(dir) ==> dir@ == path_join(parent_dir@, name@),
    ;
}

/// Creates projects by running the `cargo` binary (`cargo new --bin <name>`).
pub struct ProcessCargoRunner;

impl ProcessCargoRunner {
    /// The arguments given to `cargo`: `new --bin <name>`.
    pub fn command_args(name: &str) -> (r: Vec<String>)
        ensures
            r@.len() == 3,
            r@[0]@ == "new"@,
            r@[1]@ == "--bin"@,
            r@[2]@ == name@,
    {
        let mut r: Vec<String> = Vec::new();
        r.push(String::from_str("new"));
        r.push(String::from_str("--bin"));
        r.push(String::from_str(name));
        r
    }

    /// What running `cargo new --bin <name>` in `parent_dir` amounts to, given
    /// whether it exited successfully and its exit code: the project
    /// directory, or a failure naming the command.
    pub fn outcome(parent_dir: &str, name: &str, success: bool, code: Option<i32>) -> (r: Result<
        String,
        OraeError,
    >)
        ensures
            success ==> (r matches Ok(p) && p@ == path_join(parent_dir@, name@)),
            !success ==> (r matches Err(OraeError::CargoCommandFailed(cmd, c, detail)) && cmd@
                == "new --bin "@ + name@ && c == code && detail@ == "see output above"@),
    {
        if success {
            Ok(join_path(parent_dir, name))
        } else {
            let mut cmd = String::from_str("new --bin ");
            cmd.append(name);
            Err(OraeError::CargoCommandFailed(cmd, code, String::from_str("see output above")))
        }
    }
}

} // verus!
