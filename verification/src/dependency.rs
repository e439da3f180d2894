//! Describing the Cargo dependencies a generated project receives: the
//! dependency itself, its source, the features a user may opt into, and the
//! required/optional split a template contributes.
use vstd::prelude::*;

verus! {

/// Where a dependency comes from. Mirrors the sources `cargo add` supports.
#[derive(Debug)]
pub enum DependencySource {
    /// A normal crates.io dependency.
    CratesIo,
    /// A git dependency, e.g. for crates that are not published yet.
    Git { url: String, branch: Option<String>, tag: Option<String>, rev: Option<String> },
    /// A local path dependency, e.g. a sibling crate in development.
    Path { path: String },
}

/// A feature the user is offered when the dependency is added.
#[derive(Debug)]
pub struct OptionalFeature {
    pub name: String,
    pub description: String,
}

/// A single dependency to add to the generated project's `Cargo.toml`.
#[derive(Debug)]
pub struct Dependency {
    pub name: String,
    pub version: Option<String>,
    pub required_features: Vec<String>,
    pub optional_features: Vec<OptionalFeature>,
    pub default_features: bool,
    pub dev: bool,
    pub source: DependencySource,
}

/// A dependency presented to the user as an opt-in choice.
#[derive(Debug)]
pub struct OptionalDependency {
    pub label: &'static str,
    pub description: &'static str,
    pub dependency: Dependency,
}

/// The dependencies a template contributes: required ones that are always
/// added, and optional ones the user picks from.
#[derive(Debug)]
pub struct DependencySet {
    pub required: Vec<Dependency>,
    pub optional: Vec<OptionalDependency>,
}

/// Mathematical form of `DependencySource`.
pub enum SourceView {
    CratesIo,
    Git { url: Seq<char>, branch: Option<Seq<char>>, tag: Option<Seq<char>>, rev: Option<Seq<char>> },
    Path { path: Seq<char> },
}

/// Mathematical form of `OptionalFeature`.
pub struct FeatureView {
    pub name: Seq<char>,
    pub description: Seq<char>,
}

/// Mathematical form of `Dependency`.
pub struct DependencyView {
    pub name: Seq<char>,
    pub version: Option<Seq<char>>,
    pub required_features: Seq<Seq<char>>,
    pub optional_features: Seq<FeatureView>,
    pub default_features: bool,
    pub dev: bool,
    pub source: SourceView,
}

/// Mathematical form of `OptionalDependency`.
pub struct OptionalDependencyView {
    pub label: Seq<char>,
    pub description: Seq<char>,
    pub dependency: DependencyView,
}

/// Mathematical form of `DependencySet`.
pub struct DependencySetView {
    pub required: Seq<DependencyView>,
    pub optional: Seq<OptionalDependencyView>,
}

/// The characters of an optional string.
pub open spec fn opt_view(o: Option<String>) -> Option<Seq<char>> {
    match o {
        Some(s) => Some(s@),
        None => None,
    }
}

/// The characters of each string, in order.
pub open spec fn strings_view(v: Seq<String>) -> Seq<Seq<char>> {
    v.map_values(|s: String| s@)
}

/// The characters of each string slice, in order.
pub open spec fn strs_view(v: Seq<&str>) -> Seq<Seq<char>> {
    v.map_values(|s: &str| s@)
}

/// The views of a list of features.
pub open spec fn features_view(v: Seq<OptionalFeature>) -> Seq<FeatureView> {
    v.map_values(|f: OptionalFeature| f@)
}

/// The views of a list of dependencies.
pub open spec fn dependencies_view(v: Seq<Dependency>) -> Seq<DependencyView> {
    v.map_values(|d: Dependency| d@)
}

/// The views of a list of optional dependencies.
pub open spec fn optional_view(v: Seq<OptionalDependency>) -> Seq<OptionalDependencyView> {
    v.map_values(|d: OptionalDependency| d@)
}

impl View for DependencySource {
    type V = SourceView;

    open spec fn view(&self) -> SourceView {
        match self {
            DependencySource::CratesIo => SourceView::CratesIo,
            DependencySource::Git { url, branch, tag, rev } => SourceView::Git {
                url: url@,
                branch: opt_view(*branch),
                tag: opt_view(*tag),
                rev: opt_view(*rev),
            },
            DependencySource::Path { path } => SourceView::Path { path: path@ },
        }
    }
}

impl View for OptionalFeature {
    type V = FeatureView;

    open spec fn view(&self) -> FeatureView {
        FeatureView { name: self.name@, description: self.description@ }
    }
}

impl View for Dependency {
    type V = DependencyView;

    open spec fn view(&self) -> DependencyView {
        DependencyView {
            name: self.name@,
            version: opt_view(self.version),
            required_features: strings_view(self.required_features@),
            optional_features: features_view(self.optional_features@),
            default_features: self.default_features,
            dev: self.dev,
            source: self.source@,
        }
    }
}

impl View for OptionalDependency {
    type V = OptionalDependencyView;

    open spec fn view(&self) -> OptionalDependencyView {
        OptionalDependencyView {
            label: self.label@,
            description: self.description@,
            dependency: self.dependency@,
        }
    }
}

impl View for DependencySet {
    type V = DependencySetView;

    open spec fn view(&self) -> DependencySetView {
        DependencySetView {
            required: dependencies_view(self.required@),
            optional: optional_view(self.optional@),
        }
    }
}

/// A plain crates.io dependency named `name`, with default settings.
pub open spec fn plain_dependency(name: Seq<char>) -> DependencyView {
    DependencyView {
        name,
        version: None,
        required_features: Seq::empty(),
        optional_features: Seq::empty(),
        default_features: true,
        dev: false,
        source: SourceView::CratesIo,
    }
}

/// Owned copies of the given string slices.
pub fn to_strings(items: &[&str]) -> (r: Vec<String>)
    ensures
        strings_view(r@) == strs_view(items@),
{
    let mut r: Vec<String> = Vec::new();
    let mut i: usize = 0;
    while i < items.len()
        invariant
            i <= items@.len(),
            r@.len() == i,
            forall|k: int| 0 <= k < i ==> #[trigger] r@[k]@ == items@[k]@,
        decreases items@.len() - i,
    {
        let item: &str = items[i];
        r.push(String::from_str(item));
        i = i + 1;
    }
    assert(strings_view(r@) =~= strs_view(items@));
    r
}

impl DependencySource {
    /// A git source at `url`, without a branch, tag or rev.
    pub fn git(url: &str) -> (r: DependencySource)
        ensures
            r@ == (SourceView::Git { url: url@, branch: None, tag: None, rev: None }),
    {
        DependencySource::Git { url: String::from_str(url), branch: None, tag: None, rev: None }
    }

    /// A local path source at `path`.
    pub fn path(path: &str) -> (r: DependencySource)
        ensures
            r@ == (SourceView::Path { path: path@ }),
    {
        DependencySource::Path { path: String::from_str(path) }
    }
}

impl OptionalFeature {
    /// A feature named `name`, described by `description`.
    pub fn new(name: &str, description: &str) -> (r: OptionalFeature)
        ensures
            r@ == (FeatureView { name: name@, description: description@ }),
    {
        OptionalFeature { name: String::from_str(name), description: String::from_str(description) }
    }
}

/// How a choice is shown in a selection list: `"<name> - <description>"`.
pub open spec fn choice_label(name: Seq<char>, description: Seq<char>) -> Seq<char> {
    name + " - "@ + description
}

/// `"<name> - <description>"` as a string.
fn label_of(name: &str, description: &str) -> (r: String)
    ensures
        r@ == choice_label(name@, description@),
{
    let mut r = String::from_str(name);
    r.append(" - ");
    r.append(description);
    r
}

impl OptionalFeature {
    /// The label shown when the user selects features.
    pub fn label(&self) -> (r: String)
        ensures
            r@ == choice_label(self.name@, self.description@),
    {
        label_of(self.name.as_str(), self.description.as_str())
    }
}

impl OptionalDependency {
    /// The label shown when the user selects optional dependencies.
    pub fn label(&self) -> (r: String)
        ensures
            r@ == choice_label(self.label@, self.description@),
    {
        label_of(self.label, self.description)
    }
}

impl Dependency {
    /// A plain crates.io dependency with default settings: no version, no
    /// features, default features on, not a dev-dependency.
    pub fn new(name: &str) -> (r: Dependency)
        ensures
            r@ == plain_dependency(name@),
    {
        let r = Dependency {
            name: String::from_str(name),
            version: None,
            required_features: Vec::new(),
            optional_features: Vec::new(),
            default_features: true,
            dev: false,
            source: DependencySource::CratesIo,
        };
        assert(r@.required_features =~= Seq::<Seq<char>>::empty());
        assert(r@.optional_features =~= Seq::<FeatureView>::empty());
        r
    }

    /// The same dependency, pinned to `version`.
    pub fn with_version(self, version: &str) -> (r: Dependency)
        ensures
            r@ == (DependencyView { version: Some(version@), ..self@ }),
    {
        let mut d = self;
        d.version = Some(String::from_str(version));
        d
    }

    /// The same dependency, taken from `source`.
    pub fn with_source(self, source: DependencySource) -> (r: Dependency)
        ensures
            r@ == (DependencyView { source: source@, ..self@ }),
    {
        let mut d = self;
        d.source = source;
        d
    }

    /// The same dependency with exactly `features` as its required features.
    pub fn with_required_features(self, features: &[&str]) -> (r: Dependency)
        ensures
            r@ == (DependencyView { required_features: strs_view(features@), ..self@ }),
    {
        let mut d = self;
        d.required_features = to_strings(features);
        d
    }

    /// The same dependency with exactly `features` as its optional features.
    pub fn with_optional_features(self, features: Vec<OptionalFeature>) -> (r: Dependency)
        ensures
            r@ == (DependencyView { optional_features: features_view(features@), ..self@ }),
    {
        let mut d = self;
        d.optional_features = features;
        d
    }

    /// The same dependency with default features switched off.
    pub fn no_default_features(self) -> (r: Dependency)
        ensures
            r@ == (DependencyView { default_features: false, ..self@ }),
    {
        let mut d = self;
        d.default_features = false;
        d
    }

    /// The same dependency, added as a dev-dependency.
    pub fn as_dev_dependency(self) -> (r: Dependency)
        ensures
            r@ == (DependencyView { dev: true, ..self@ }),
    {
        let mut d = self;
        d.dev = true;
        d
    }
}

impl OptionalDependency {
    /// An opt-in choice shown as `label` and `description`, adding `dependency`.
    pub fn new(label: &'static str, description: &'static str, dependency: Dependency) -> (r:
        OptionalDependency)
        ensures
            r@ == (OptionalDependencyView {
                label: label@,
                description: description@,
                dependency: dependency@,
            }),
    {
        OptionalDependency { label, description, dependency }
    }
}

impl DependencySet {
    /// An empty set: nothing required, nothing offered.
    pub fn new() -> (r: DependencySet)
        ensures
            r@.required == Seq::<DependencyView>::empty(),
            r@.optional == Seq::<OptionalDependencyView>::empty(),
    {
        let r = DependencySet { required: Vec::new(), optional: Vec::new() };
        assert(r@.required =~= Seq::<DependencyView>::empty());
        assert(r@.optional =~= Seq::<OptionalDependencyView>::empty());
        r
    }

    /// The same set with `deps` appended to the required dependencies.
    pub fn with_required(self, deps: Vec<Dependency>) -> (r: DependencySet)
        ensures
            r@.required == self@.required + dependencies_view(deps@),
            r@.optional == self@.optional,
    {
        let mut s = self;
        let mut deps = deps;
        let ghost a = s.required@;
        let ghost b = deps@;
        s.required.append(&mut deps);
        assert(dependencies_view(s.required@) =~= dependencies_view(a) + dependencies_view(b));
        s
    }

    /// The same set with `deps` appended to the optional dependencies.
    pub fn with_optional(self, deps: Vec<OptionalDependency>) -> (r: DependencySet)
        ensures
            r@.optional == self@.optional + optional_view(deps@),
            r@.required == self@.required,
    {
        let mut s = self;
        let mut deps = deps;
        let ghost a = s.optional@;
        let ghost b = deps@;
        s.optional.append(&mut deps);
        assert(optional_view(s.optional@) =~= optional_view(a) + optional_view(b));
        s
    }
}

} // verus!
