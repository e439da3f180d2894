//! Templates: each one is a selectable flavor of a project type, with the
//! dependencies it offers and the layout it scaffolds.
use crate::cli::ProjectType;
use crate::dependency::{DependencySet, DependencySetView};
use crate::scaffold::{ScaffoldStep, Scaffolder, StepView, steps_view};
use vstd::prelude::*;

verus! {

/// One selectable template for a [`ProjectType`].
pub trait Template {
    /// The stable identifier.
    spec fn spec_id(&self) -> Seq<char>;

    /// The short human-readable name.
    spec fn spec_name(&self) -> Seq<char>;

    /// The one-line description.
    spec fn spec_description(&self) -> Seq<char>;

    /// The project type the template applies to.
    spec fn spec_project_type(&self) -> ProjectType;

    /// The dependencies the template requires and offers.
    spec fn spec_dependencies(&self) -> DependencySetView;

    /// The steps laying out a project rooted at `root`.
    spec fn spec_steps(&self, root: Seq<char>) -> Seq<StepView>;

    /// Stable identifier, e.g. `"axum-minimal"`. Not shown to the user.
    fn id(&self) -> (r: &str)
        ensures
            r@ == self.spec_id(),
    ;

    /// Short human-readable name shown in the selection prompt.
    fn name(&self) -> (r: &str)
        ensures
            r@ == self.spec_name(),
    ;

    /// One-line description shown alongside the name.
    fn description(&self) -> (r: &str)
        ensures
            r@ == self.spec_description(),
    ;

    /// Which [`ProjectType`] this template applies to.
    fn project_type(&self) -> (r: ProjectType)
        ensures
            r == self.spec_project_type(),
    ;

    /// The dependencies: required ones and opt-in ones.
    fn dependencies(&self) -> (r: DependencySet)
        ensures
            r@ == self.spec_dependencies(),
    ;

    /// The steps that lay out the project's directories and files, relative
    /// to the scaffolder's root.
    fn scaffold(&self, scaffolder: &Scaffolder) -> (r: Vec<ScaffoldStep>)
        ensures
            steps_view(r@) == self.spec_steps(scaffolder@),
    ;
}

/// One place in a [`TemplateRegistry`], holding a registered template.
pub struct TemplateSlot<B> {
    pub template: B,
}

/// The slot holding `template`.
pub open spec fn slot_holding<B>(template: B) -> TemplateSlot<B> {
    TemplateSlot { template }
}

/// A slot holding `template`.
fn slot_of<B>(template: B) -> (r: TemplateSlot<B>)
    ensures
        r == slot_holding(template),
{
    TemplateSlot { template }
}

/// Holds every known template, in registration order.
pub struct TemplateRegistry {
    templates: Vec<TemplateSlot<Box<dyn Template>>>,
}

impl View for TemplateRegistry {
    type V = Seq<TemplateSlot<Box<dyn Template>>>;

    closed spec fn view(&self) -> Seq<TemplateSlot<Box<dyn Template>>> {
        self.templates@
    }
}

/// The templates among the first `n` registered whose project type is `t`, in order.
pub open spec fn templates_of_type<'a>(s: Seq<TemplateSlot<Box<dyn Template>>>, t: ProjectType, n: int) -> Seq<
    &'a Box<dyn Template>,
>
    decreases n,
{
    if n <= 0 {
        Seq::empty()
    } else if s[n - 1].template.spec_project_type() == t {
        templates_of_type(s, t, n - 1).push(&s[n - 1].template)
    } else {
        templates_of_type(s, t, n - 1)
    }
}

impl TemplateRegistry {
    /// A registry without templates.
    pub fn new() -> (r: TemplateRegistry)
        ensures
            r@ == Seq::<TemplateSlot<Box<dyn Template>>>::empty(),
    {
        TemplateRegistry { templates: Vec::new() }
    }

    /// The same registry with `template` registered last.
    pub fn register(self, template: Box<dyn Template>) -> (r: TemplateRegistry)
        ensures
            ({
                let added = slot_holding(template);
                r@ == self@.push(added)
            }),
    {
        let entry = slot_of(template);
        let mut reg = self;
        reg.templates.push(entry);
        reg
    }

    /// All templates registered for `project_type`, in registration order.
    pub fn for_project_type(&self, project_type: ProjectType) -> (r: Vec<&Box<dyn Template>>)
        ensures
            r@ == templates_of_type(self@, project_type, self@.len() as int),
    {
        let mut out: Vec<&Box<dyn Template>> = Vec::new();
        let mut i: usize = 0;
        while i < self.templates.len()
            invariant
                i <= self.templates@.len(),
                out@ == templates_of_type(self.templates@, project_type, i as int),
            decreases self.templates@.len() - i,
        {
            let entry: &TemplateSlot<Box<dyn Template>> = &self.templates[i];
            let pt = entry.template.project_type();
            if pt == project_type {
                out.push(&entry.template);
            }
            i = i + 1;
        }
        out
    }
}

impl Default for TemplateRegistry {
    /// The registry of the built-in templates: the REST CRUD template.
    fn default() -> (r: TemplateRegistry)
        ensures
            r@.len() == 1,
            r@[0].template.spec_id() == "rest-crud-app"@,
            r@[0].template.spec_name() == "REST CRUD API"@,
            r@[0].template.spec_project_type() == ProjectType::RestApi,
            r@[0].template.spec_dependencies() == crate::templates::rest_api::rest_crud_dependencies(),
            forall|root: Seq<char>| #[trigger] r@[0].template.spec_steps(root)
                == crate::templates::rest_api::RestCrudTemplate.spec_steps(root),
    {
        let built_in = crate::templates::rest_api::RestCrudTemplate;
        let boxed: Box<dyn Template> = Box::new(built_in);
        let entry = slot_of(boxed);
        let mut templates: Vec<TemplateSlot<Box<dyn Template>>> = Vec::new();
        templates.push(entry);
        TemplateRegistry { templates }
    }
}

} // verus!
