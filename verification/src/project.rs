//! The decisions of the `orae create` flow: which dependencies a project type
//! starts from, how the user's choices turn into the dependencies to add,
//! and which template a selection names.  Prompting, running `cargo` and
//! writing files are left to the caller.
use crate::cli::ProjectType;
use crate::dependency::{
    Dependency, DependencySet, DependencySetView, DependencySource, DependencyView, FeatureView,
    OptionalDependency, OptionalDependencyView, OptionalFeature, SourceView, dependencies_view,
    features_view, plain_dependency, strings_view,
};
use crate::scaffold::{ScaffoldStep, Scaffolder, steps_view};
use crate::template::Template;
use crate::text::str_eq;
use vstd::prelude::*;

verus! {

/// The dependencies every REST API project starts from: tokio, axum (with
/// JSON and form support on offer), tracing and the HTTP server crate, with
/// serde and serde_json as opt-in choices.
pub open spec fn rest_api_dependencies() -> DependencySetView {
    DependencySetView {
        required: seq![
            DependencyView {
                version: Some("1"@),
                required_features: seq!["full"@, "rt-multi-thread"@],
                ..plain_dependency("tokio"@)
            },
            DependencyView {
                version: Some("0.8"@),
                required_features: seq!["macros"@, "original-uri"@],
                optional_features: seq![
                    FeatureView {
                        name: "json"@,
                        description: "Support for JSON Request/Response Content Type"@,
                    },
                    FeatureView { name: "form"@, description: "Support for Form Request Content Type"@ },
                ],
                ..plain_dependency("axum"@)
            },
            DependencyView { version: Some("0.1"@), ..plain_dependency("tracing"@) },
            DependencyView {
                version: Some("0.1"@),
                source: SourceView::Git {
                    url: "https://github.com/natenador44/orae.git"@,
                    branch: None,
                    tag: None,
                    rev: None,
                },
                ..plain_dependency("orae-http-server"@)
            },
        ],
        optional: seq![
            OptionalDependencyView {
                label: "Serde"@,
                description: "Provides the Serialize and Deserialize macros to use on your types"@,
                dependency: DependencyView {
                    version: Some("1"@),
                    required_features: seq!["derive"@],
                    ..plain_dependency("serde"@)
                },
            },
            OptionalDependencyView {
                label: "JSON Parsing"@,
                description: "Provides a crate for manual JSON serialization/deserialize (beyond request bodies)"@,
                dependency: DependencyView { version: Some("1"@), ..plain_dependency("serde_json"@) },
            },
        ],
    }
}

/// The dependencies a project of type `t` starts from.
pub open spec fn project_dependencies(t: ProjectType) -> DependencySetView {
    match t {
        ProjectType::RestApi => rest_api_dependencies(),
    }
}

/// The required and optional dependencies a project of `project_type` starts from.
pub fn determine_potential_project_dependencies(project_type: ProjectType) -> (r: DependencySet)
    ensures
        r@ == project_dependencies(project_type),
{
    match project_type {
        ProjectType::RestApi => {
            let tokio_features: [&str; 2] = ["full", "rt-multi-thread"];
            let axum_features: [&str; 2] = ["macros", "original-uri"];
            let serde_features: [&str; 1] = ["derive"];
            let mut axum_optional: Vec<OptionalFeature> = Vec::new();
            axum_optional.push(
                OptionalFeature::new("json", "Support for JSON Request/Response Content Type"),
            );
            axum_optional.push(OptionalFeature::new("form", "Support for Form Request Content Type"));
            assert(features_view(axum_optional@) =~= rest_api_dependencies().required[1].optional_features);
            assert(crate::dependency::strs_view(tokio_features@) =~= seq!["full"@, "rt-multi-thread"@]);
            assert(crate::dependency::strs_view(axum_features@) =~= seq!["macros"@, "original-uri"@]);
            assert(crate::dependency::strs_view(serde_features@) =~= seq!["derive"@]);
            let tokio = Dependency::new("tokio").with_version("1").with_required_features(
                tokio_features.as_slice(),
            );
            let axum = Dependency::new("axum").with_version("0.8").with_required_features(
                axum_features.as_slice(),
            ).with_optional_features(axum_optional);
            let tracing = Dependency::new("tracing").with_version("0.1");
            let server = Dependency::new("orae-http-server").with_version("0.1").with_source(
                DependencySource::git("https://github.com/natenador44/orae.git"),
            );
            let ghost spec_set = rest_api_dependencies();
            assert(tokio@ == spec_set.required[0]);
            assert(axum@ == spec_set.required[1]);
            assert(tracing@ == spec_set.required[2]);
            assert(server@ == spec_set.required[3]);
            let mut required: Vec<Dependency> = Vec::new();
            required.push(tokio);
            required.push(axum);
            required.push(tracing);
            required.push(server);
            assert(dependencies_view(required@) =~= spec_set.required);
            let serde = OptionalDependency::new(
                "Serde",
                "Provides the Serialize and Deserialize macros to use on your types",
                Dependency::new("serde").with_version("1").with_required_features(
                    serde_features.as_slice(),
                ),
            );
            let serde_json = OptionalDependency::new(
                "JSON Parsing",
                "Provides a crate for manual JSON serialization/deserialize (beyond request bodies)",
                Dependency::new("serde_json").with_version("1"),
            );
            assert(serde@ == spec_set.optional[0]);
            assert(serde_json@ == spec_set.optional[1]);
            let mut optional: Vec<OptionalDependency> = Vec::new();
            optional.push(serde);
            optional.push(serde_json);
            assert(crate::dependency::optional_view(optional@) =~= spec_set.optional);
            let r = DependencySet::new().with_required(required).with_optional(optional);
            assert(r@.required =~= spec_set.required);
            assert(r@.optional =~= spec_set.optional);
            r
        },
    }
}

/// The required dependencies followed by the dependencies of the chosen
/// opt-in entries, in the order offered.
pub fn with_chosen_optional(required: Vec<Dependency>, chosen: Vec<OptionalDependency>) -> (r: Vec<
    Dependency,
>)
    ensures
        dependencies_view(r@) == dependencies_view(required@) + crate::dependency::optional_view(
            chosen@,
        ).map_values(|o: OptionalDependencyView| o.dependency),
{
    let mut out = required;
    let ghost start = dependencies_view(out@);
    let ghost all = chosen@;
    for od in it: chosen.into_iter()
        invariant
            it.seq() == all,
            dependencies_view(out@) == start + crate::dependency::optional_view(
                all.take(it.index()),
            ).map_values(|o: OptionalDependencyView| o.dependency),
    {
        let ghost before = dependencies_view(out@);
        let ghost i = it.index();
        out.push(od.dependency);
        proof {
            assert(all.take(i + 1) =~= all.take(i).push(all[i]));
            assert(dependencies_view(out@) =~= before.push(all[i].dependency@));
            assert(crate::dependency::optional_view(all.take(i + 1)).map_values(
                |o: OptionalDependencyView| o.dependency,
            ) =~= crate::dependency::optional_view(all.take(i)).map_values(
                |o: OptionalDependencyView| o.dependency,
            ).push(all[i].dependency@));
        }
    }
    assert(all.take(all.len() as int) =~= all);
    out
}

/// Takes the dependency's offered features out of it, leaving none offered.
pub fn take_optional_features(dependency: &mut Dependency) -> (r: Vec<OptionalFeature>)
    ensures
        features_view(r@) == old(dependency)@.optional_features,
        final(dependency)@ == (DependencyView { optional_features: Seq::empty(), ..old(dependency)@ }),
{
    let mut taken: Vec<OptionalFeature> = Vec::new();
    std::mem::swap(&mut taken, &mut dependency.optional_features);
    assert(features_view(dependency.optional_features@) =~= Seq::<FeatureView>::empty());
    taken
}

/// The names of the given features, in order.
pub open spec fn feature_names(features: Seq<FeatureView>) -> Seq<Seq<char>> {
    features.map_values(|f: FeatureView| f.name)
}

/// The dependency with the selected features' names appended to its
/// required features.
pub fn add_selected_features(dependency: Dependency, selected: Vec<OptionalFeature>) -> (r: Dependency)
    ensures
        r@ == (DependencyView {
            required_features: dependency@.required_features + feature_names(features_view(selected@)),
            ..dependency@
        }),
{
    let mut d = dependency;
    let ghost start = strings_view(d.required_features@);
    let ghost all = selected@;
    for f in it: selected.into_iter()
        invariant
            it.seq() == all,
            strings_view(d.required_features@) == start + feature_names(features_view(all.take(it.index()))),
            d@ == (DependencyView { required_features: strings_view(d.required_features@), ..dependency@ }),
    {
        let ghost before = strings_view(d.required_features@);
        let ghost i = it.index();
        d.required_features.push(f.name);
        proof {
            assert(all.take(i + 1) =~= all.take(i).push(all[i]));
            assert(strings_view(d.required_features@) =~= before.push(all[i].name@));
            assert(feature_names(features_view(all.take(i + 1))) =~= feature_names(
                features_view(all.take(i)),
            ).push(all[i].name@));
        }
    }
    assert(all.take(all.len() as int) =~= all);
    d
}

/// The label of the choice that skips templates.
pub const NONE_LABEL: &'static str = "None (plain cargo project)";

/// How a template is offered: `"<name> - <description>"`.
pub open spec fn template_label<T: Template + ?Sized>(t: &T) -> Seq<char> {
    t.spec_name() + " - "@ + t.spec_description()
}

/// The labels offered for the templates, in order, followed by the label
/// that skips templates.
pub fn template_choice_labels(templates: &Vec<&Box<dyn Template>>) -> (r: Vec<String>)
    ensures
        r@.len() == templates@.len() + 1,
        forall|i: int| 0 <= i < templates@.len() ==> #[trigger] r@[i]@ == template_label(&**templates@[i]),
        r@[templates@.len() as int]@ == NONE_LABEL@,
{
    let mut r: Vec<String> = Vec::new();
    let mut i: usize = 0;
    while i < templates.len()
        invariant
            i <= templates@.len(),
            r@.len() == i,
            forall|k: int| 0 <= k < i ==> #[trigger] r@[k]@ == template_label(&**templates@[k]),
        decreases templates@.len() - i,
    {
        let label = label_of_template(templates[i]);
        r.push(label);
        i = i + 1;
    }
    r.push(String::from_str(NONE_LABEL));
    r
}

/// `j` is the first template whose offered label is the chosen label.
pub open spec fn is_first_label_match(templates: Seq<&Box<dyn Template>>, choice: Seq<char>, j: int) -> bool {
    &&& 0 <= j < templates.len()
    &&& template_label(&**templates[j]) == choice
    &&& forall|k: int| 0 <= k < j ==> template_label(&**#[trigger] templates[k]) != choice
}

/// The offered label of a template.
fn label_of_template(t: &Box<dyn Template>) -> (r: String)
    ensures
        r@ == template_label(&**t),
{
    let mut label = String::from_str(t.name());
    label.append(" - ");
    label.append(t.description());
    label
}

/// The template a chosen label names: `None` for the label that skips
/// templates, otherwise the (first) template offered under exactly that
/// label.  The choice must be one of the offered labels.
pub fn resolve_template_choice(templates: &Vec<&Box<dyn Template>>, choice: &str) -> (r: Option<usize>)
    requires
        choice@ == NONE_LABEL@ || exists|i: int|
            0 <= i < templates@.len() && choice@ == template_label(&**#[trigger] templates@[i]),
    ensures
        choice@ == NONE_LABEL@ ==> r is None,
        choice@ != NONE_LABEL@ ==> (r matches Some(j) && is_first_label_match(templates@, choice@, j as int)),
{
    if str_eq(choice, NONE_LABEL) {
        return None;
    }
    let mut j: usize = 0;
    while j < templates.len()
        invariant
            j <= templates@.len(),
            choice@ != NONE_LABEL@,
            exists|i: int|
                0 <= i < templates@.len() && choice@ == template_label(&**#[trigger] templates@[i]),
            forall|k: int| 0 <= k < j ==> template_label(&**#[trigger] templates@[k]) != choice@,
        decreases templates@.len() - j,
    {
        let label = label_of_template(templates[j]);
        if str_eq(label.as_str(), choice) {
            return Some(j);
        }
        j = j + 1;
    }
    proof {
        let i = choose|i: int|
            0 <= i < templates@.len() && choice@ == template_label(&**#[trigger] templates@[i]);
        assert(template_label(&**templates@[i]) != choice@);
    }
    None
}

/// The steps that lay out a project at `project_dir` from `template`.
pub fn generate_project_structure_from_template(template: &Box<dyn Template>, project_dir: &str) -> (r: Vec<
    ScaffoldStep,
>)
    ensures
        steps_view(r@) == template.spec_steps(project_dir@),
{
    let scaffolder = Scaffolder::new(project_dir);
    template.scaffold(&scaffolder)
}

} // verus!
