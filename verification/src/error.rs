//! The errors of project creation and scaffolding.
use vstd::prelude::*;

verus! {

/// Why creating or scaffolding a project failed.
#[derive(Debug)]
pub enum OraeError {
    /// A file-system operation failed at `path`.
    Io { path: String, message: String },
    /// A file that scaffolding must create already exists.
    FileAlreadyExists(String),
    /// No line of the file at `path` contains `marker`.
    MarkerNotFound { path: String, marker: String },
    /// `cargo <args>` failed with the given exit code.
    CargoCommandFailed(String, Option<i32>, String),
    /// The manifest at `path` is not valid TOML.
    ManifestParse { path: String, source: toml_edit::TomlError },
    /// The manifest at `path` holds something other than a table under `key`.
    ManifestNotATable { path: String, key: String },
    /// Scaffolding was requested but no template was chosen.
    ScaffoldRequestedWithoutTemplate,
    /// Asking the user failed.
    Prompt(String),
    /// A step of `create` was reported out of its order.
    CreateOutOfOrder,
}

} // verus!
