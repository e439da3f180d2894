//! Templates for `--type=rest-api`.
use crate::cli::ProjectType;
use crate::dependency::{
    Dependency, DependencySet, DependencySetView, OptionalDependency, OptionalDependencyView,
    DependencyView, plain_dependency,
};
use crate::scaffold::{
    ScaffoldStep, Scaffolder, StepView, mod_rs_text, path_join, segments_path, steps_view,
};
use crate::template::Template;
use vstd::prelude::*;

verus! {

/// Body of `src/routing/mod.rs`.
pub const ROUTING_NOTE: &'static str = "// Declare routes here, or create sub-modules for different routes";

/// Body of `src/models/mod.rs`.
pub const MODELS_NOTE: &'static str = "// Declare DTOs and/or Database Entities here.";

/// Body of `src/db/mod.rs`.
pub const DB_NOTE: &'static str = "// Declare data access code here";

/// Where the application state type is written.
pub const STATE_PATH: &'static str = "src/routes/state.rs";

/// The application state type.
pub const STATE_SOURCE: &'static str = r#"
            #[derive(Clone)]
            pub struct AppState {}
            "#;

/// Where the entry point is written.
pub const MAIN_PATH: &'static str = "src/main.rs";

/// The entry point wiring the modules and the server macro together.
pub const MAIN_SOURCE: &'static str = r#"
            mod state;
            mod routing;
            mod models;
            mod db;

            #[nkd_http_server::main(
                state = state::AppState,
            )]
            async fn main(app_builder: AppBuilder<state::AppState>) {
                todo!("add controllers and state to builder");
            }
            "#;

/// A module step for `src/<name>` with the given `mod.rs` body, in a project rooted at `root`.
pub open spec fn src_module_step(root: Seq<char>, name: Seq<char>, body: Seq<char>) -> StepView {
    let dir = path_join(path_join(Seq::empty(), "src"@), name);
    StepView::Module {
        dir,
        mod_rs_path: path_join(dir, "mod.rs"@),
        mod_rs: mod_rs_text(Seq::empty(), body),
        resolved_dir: path_join(root, dir),
    }
}

/// The dependencies the REST CRUD template offers: PostgreSQL access.
pub open spec fn rest_crud_dependencies() -> DependencySetView {
    DependencySetView {
        required: Seq::empty(),
        optional: seq![
            OptionalDependencyView {
                label: "PostgreSQL"@,
                description: "A crate for accessing a postgres database"@,
                dependency: DependencyView {
                    version: Some("0.7"@),
                    ..plain_dependency("tokio-postgres"@)
                },
            },
        ],
    }
}

/// A REST API with routing, models and data-access modules.
pub struct RestCrudTemplate;

impl RestCrudTemplate {
    /// A module step for `src/<name>`.
    fn src_module(scaffolder: &Scaffolder, name: &'static str, body: &'static str) -> (r: ScaffoldStep)
        ensures
            r@ == src_module_step(scaffolder@, name@, body@),
    {
        let segments: [&str; 2] = ["src", name];
        let b = scaffolder.module(segments.as_slice()).with_contents(body);
        proof {
            reveal_with_fuel(segments_path, 3);
        }
        ScaffoldStep::Module(b.build())
    }
}

impl Template for RestCrudTemplate {
    open spec fn spec_id(&self) -> Seq<char> {
        "rest-crud-app"@
    }

    open spec fn spec_name(&self) -> Seq<char> {
        "REST CRUD API"@
    }

    open spec fn spec_description(&self) -> Seq<char> {
        "Create modules and offer dependencies for data access and supporting REST APIs"@
    }

    open spec fn spec_project_type(&self) -> ProjectType {
        ProjectType::RestApi
    }

    open spec fn spec_dependencies(&self) -> DependencySetView {
        rest_crud_dependencies()
    }

    open spec fn spec_steps(&self, root: Seq<char>) -> Seq<StepView> {
        seq![
            src_module_step(root, "routing"@, ROUTING_NOTE@),
            src_module_step(root, "models"@, MODELS_NOTE@),
            src_module_step(root, "db"@, DB_NOTE@),
            StepView::WriteFile { path: STATE_PATH@, contents: STATE_SOURCE@ },
            StepView::OverwriteFile { path: MAIN_PATH@, contents: MAIN_SOURCE@ },
        ]
    }

    fn id(&self) -> (r: &str) {
        "rest-crud-app"
    }

    fn name(&self) -> (r: &str) {
        "REST CRUD API"
    }

    fn description(&self) -> (r: &str) {
        "Create modules and offer dependencies for data access and supporting REST APIs"
    }

    fn project_type(&self) -> (r: ProjectType) {
        ProjectType::RestApi
    }

    fn dependencies(&self) -> (r: DependencySet) {
        let mut optional: Vec<OptionalDependency> = Vec::new();
        optional.push(
            OptionalDependency::new(
                "PostgreSQL",
                "A crate for accessing a postgres database",
                Dependency::new("tokio-postgres").with_version("0.7"),
            ),
        );
        let r = DependencySet::new().with_optional(optional);
        assert(r@.optional =~= rest_crud_dependencies().optional);
        assert(r@.required =~= rest_crud_dependencies().required);
        r
    }

    fn scaffold(&self, scaffolder: &Scaffolder) -> (r: Vec<ScaffoldStep>) {
        let mut steps: Vec<ScaffoldStep> = Vec::new();
        steps.push(Self::src_module(scaffolder, "routing", ROUTING_NOTE));
        steps.push(Self::src_module(scaffolder, "models", MODELS_NOTE));
        steps.push(Self::src_module(scaffolder, "db", DB_NOTE));
        steps.push(
            ScaffoldStep::WriteFile {
                path: String::from_str(STATE_PATH),
                contents: String::from_str(STATE_SOURCE),
            },
        );
        steps.push(
            ScaffoldStep::OverwriteFile {
                path: String::from_str(MAIN_PATH),
                contents: String::from_str(MAIN_SOURCE),
            },
        );
        assert(steps_view(steps@) =~= self.spec_steps(scaffolder@));
        steps
    }
}

} // verus!
