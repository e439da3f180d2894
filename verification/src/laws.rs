//! Properties that hold across the library's operations, stated over the
//! specifications its functions are verified against.
use crate::route::{
    AttrDecl, ErrorView, HttpMethod, method_name_spec, is_dropped_attr, kept_attrs, MacroArg, controller_spec, first_non_ident_key, first_non_path, is_first_key, is_named, key_absent, RoutePlan, StructFields, path_extractor_for, path_field_indices, plan_matches, attr_kind_spec, classify_attrs, path_error_at, FieldDecl, KindView, RouteFieldView, StructDecl, class_seen, classify_fields, first_duplicate,
    first_path_error, kind_class, classify_spec, only_body, placeholder, request_body_last, route_fields_spec,
    without_body,
};
use crate::scaffold::{mod_rs_text, inserted_block, insert_after_marker_spec, lines_of, path_join, render_lines};
use crate::text::{seq_contains, seq_starts_with};
use crate::scaffold::StepView;
use crate::templates::rest_api::{MAIN_PATH, MAIN_SOURCE, RestCrudTemplate, STATE_PATH, STATE_SOURCE};
use crate::args::kind_value_name;
use crate::cli::ProjectType;
use crate::create::ProjectKind;
use crate::flow::{CreateAction, CreateEvent, CreateFlow, create_next, failure_of};
use crate::dependency::DependencyView;
use crate::manifest::{
    EntryShape, ItemModel, ManifestEditErrorView, TomlScalar, adds_all, adds_chain, default_feature_pairs, dependency_item_model,
    entry_shape, feature_pairs, is_version_only, optional_pair, pair_models, source_pairs,
};
use crate::dependency::SourceView;
use crate::project::{is_first_label_match, project_dependencies, template_label};
use crate::template::{Template, TemplateSlot, slot_holding, templates_of_type};
use vstd::prelude::*;

verus! {

/// Classification keeps every field, and the i-th classified field is field i.
pub proof fn lemma_classified_fields_in_order(fields: Seq<FieldDecl>, n: int)
    requires
        0 <= n <= fields.len(),
        fields.len() <= usize::MAX,
        classify_fields(fields, n) is Ok,
    ensures
        classify_fields(fields, n)->Ok_0.len() == n,
        forall|k: int| 0 <= k < n ==> (#[trigger] classify_fields(fields, n)->Ok_0[k]).field == k,
    decreases n,
{
    if n > 0 {
        lemma_classified_fields_in_order(fields, n - 1);
        let prev = classify_fields(fields, n - 1)->Ok_0;
        let v = classify_spec(fields[n - 1], (n - 1) as usize)->Ok_0;
        assert(v.field == n - 1);
        assert(classify_fields(fields, n)->Ok_0 == prev.push(v));
    }
}

/// Lengths of the two parts of the extractor order.
proof fn lemma_parts_len(s: Seq<RouteFieldView>, n: int)
    requires
        0 <= n <= s.len(),
    ensures
        without_body(s, n).len() + only_body(s, n).len() == n,
        forall|i: int| 0 <= i < without_body(s, n).len() ==> !(#[trigger] without_body(s, n)[i].kind is RequestBody),
        forall|i: int| 0 <= i < only_body(s, n).len() ==> (#[trigger] only_body(s, n)[i].kind is RequestBody),
    decreases n,
{
    if n > 0 {
        lemma_parts_len(s, n - 1);
        assert forall|i: int| 0 <= i < without_body(s, n).len() implies !(#[trigger] without_body(s, n)[i].kind is RequestBody) by {
            if i < without_body(s, n - 1).len() {
                assert(without_body(s, n)[i] == without_body(s, n - 1)[i]);
            }
        }
        assert forall|i: int| 0 <= i < only_body(s, n).len() implies (#[trigger] only_body(s, n)[i].kind is RequestBody) by {
            if i < only_body(s, n - 1).len() {
                assert(only_body(s, n)[i] == only_body(s, n - 1)[i]);
            }
        }
    }
}

/// Field numbers increase along each part when they increase along `s`.
proof fn lemma_parts_increasing(s: Seq<RouteFieldView>, n: int)
    requires
        0 <= n <= s.len(),
        forall|i: int, j: int| 0 <= i < j < s.len() ==> s[i].field < s[j].field,
    ensures
        forall|i: int, j: int|
            0 <= i < j < without_body(s, n).len() ==> without_body(s, n)[i].field < without_body(
                s,
                n,
            )[j].field,
        forall|i: int, j: int|
            0 <= i < j < only_body(s, n).len() ==> only_body(s, n)[i].field < only_body(s, n)[j].field,
        forall|i: int| 0 <= i < without_body(s, n).len() ==> exists|k: int| 0 <= k < n && #[trigger] without_body(s, n)[i] == s[k],
        forall|i: int| 0 <= i < only_body(s, n).len() ==> exists|k: int| 0 <= k < n && #[trigger] only_body(s, n)[i] == s[k],
    decreases n,
{
    if n > 0 {
        lemma_parts_increasing(s, n - 1);
        let w = without_body(s, n - 1);
        let b = only_body(s, n - 1);
        assert forall|i: int| 0 <= i < w.len() implies #[trigger] w[i].field < s[n - 1].field by {
            let k = choose|k: int| 0 <= k < n - 1 && w[i] == s[k];
        }
        assert forall|i: int| 0 <= i < b.len() implies #[trigger] b[i].field < s[n - 1].field by {
            let k = choose|k: int| 0 <= k < n - 1 && b[i] == s[k];
        }
        assert forall|i: int| 0 <= i < without_body(s, n).len() implies exists|k: int| 0 <= k < n && #[trigger] without_body(s, n)[i] == s[k] by {
            if i < w.len() {
                let k = choose|k: int| 0 <= k < n - 1 && w[i] == s[k];
                assert(without_body(s, n)[i] == s[k]);
            } else {
                assert(without_body(s, n)[i] == s[n - 1]);
            }
        }
        assert forall|i: int| 0 <= i < only_body(s, n).len() implies exists|k: int| 0 <= k < n && #[trigger] only_body(s, n)[i] == s[k] by {
            if i < b.len() {
                let k = choose|k: int| 0 <= k < n - 1 && b[i] == s[k];
                assert(only_body(s, n)[i] == s[k]);
            } else {
                assert(only_body(s, n)[i] == s[n - 1]);
            }
        }
    }
}

/// Extractor order keeps every field, puts the request body after every
/// other field, and otherwise keeps declaration order.
pub proof fn lemma_extractor_order(fields: Seq<FieldDecl>)
    requires
        fields.len() <= usize::MAX,
        classify_fields(fields, fields.len() as int) is Ok,
    ensures
        ({
            let t = request_body_last(classify_fields(fields, fields.len() as int)->Ok_0);
            &&& t.len() == fields.len()
            &&& forall|i: int, j: int|
                0 <= i < j < t.len() && (t[i].kind is RequestBody) ==> (t[j].kind is RequestBody)
            &&& forall|i: int, j: int|
                0 <= i < j < t.len() && (t[i].kind is RequestBody) == (t[j].kind is RequestBody)
                    ==> t[i].field < t[j].field
        }),
{
    let s = classify_fields(fields, fields.len() as int)->Ok_0;
    lemma_classified_fields_in_order(fields, fields.len() as int);
    let n = s.len() as int;
    lemma_parts_len(s, n);
    lemma_parts_increasing(s, n);
    let w = without_body(s, n);
    let b = only_body(s, n);
    let t = request_body_last(s);
    assert forall|i: int, j: int|
        0 <= i < j < t.len() && (t[i].kind is RequestBody) implies (t[j].kind is RequestBody) by {
        if i < w.len() {
            assert(t[i] == w[i]);
        } else {
            assert(t[j] == b[j - w.len()]);
        }
    }
    assert forall|i: int, j: int|
        0 <= i < j < t.len() && (t[i].kind is RequestBody) == (t[j].kind is RequestBody)
            implies t[i].field < t[j].field by {
        if j < w.len() {
            assert(t[i] == w[i] && t[j] == w[j]);
        } else if i >= w.len() {
            assert(t[i] == b[i - w.len()] && t[j] == b[j - w.len()]);
        } else {
            assert(t[i] == w[i] && t[j] == b[j - w.len()]);
        }
    }
}

/// With no duplicate rejection among the first `n` positions, no two of
/// them are both query, both body or both context fields.
proof fn lemma_no_duplicate(t: Seq<RouteFieldView>, n: int)
    requires
        0 <= n <= t.len(),
        first_duplicate(t, n) is None,
    ensures
        forall|i: int, j: int|
            0 <= i < j < n && kind_class(t[i].kind) == kind_class(t[j].kind) ==> kind_class(t[j].kind)
                < 2 || kind_class(t[j].kind) == 1,
    decreases n,
{
    if n > 0 {
        lemma_no_duplicate(t, n - 1);
        assert forall|i: int, j: int|
            0 <= i < j < n && kind_class(t[i].kind) == kind_class(t[j].kind) implies kind_class(
            t[j].kind,
        ) < 2 || kind_class(t[j].kind) == 1 by {
            if j == n - 1 {
                let c = kind_class(t[j].kind);
                if c >= 2 {
                    assert(kind_class(t[i].kind) == c);
                    assert(class_seen(t, c, j));
                }
            }
        }
    }
}

/// An accepted route struct has at most one query-parameter field, one
/// request-body field and one context field.
pub proof fn lemma_accepted_route_single_extractors(item: StructDecl, template: Seq<char>)
    requires
        route_fields_spec(item, template) is Ok,
    ensures
        ({
            let t = route_fields_spec(item, template)->Ok_0;
            forall|i: int, j: int|
                0 <= i < j < t.len() && kind_class(t[i].kind) == kind_class(t[j].kind) ==> kind_class(
                    t[j].kind,
                ) <= 1
        }),
{
    let t = route_fields_spec(item, template)->Ok_0;
    lemma_no_duplicate(t, t.len() as int);
}

/// With no path rejection among the first `n` positions, every path field
/// among them has its placeholder in the template.
proof fn lemma_no_path_error(t: Seq<RouteFieldView>, n: int, template: Seq<char>)
    requires
        0 <= n <= t.len(),
        first_path_error(t, n, template) is None,
    ensures
        forall|i: int|
            0 <= i < n ==> match #[trigger] t[i].kind {
                KindView::Path(Some(name)) => crate::text::seq_contains(template, placeholder(name)),
                KindView::Path(None) => crate::text::seq_contains(template, placeholder(t[i].ident)),
                _ => true,
            },
    decreases n,
{
    if n > 0 {
        lemma_no_path_error(t, n - 1, template);
    }
}

/// Every path field of an accepted route struct names a `{variable}` of the
/// route template: its explicit name, or else its field name.
pub proof fn lemma_accepted_route_path_vars(item: StructDecl, template: Seq<char>)
    requires
        route_fields_spec(item, template) is Ok,
    ensures
        ({
            let t = route_fields_spec(item, template)->Ok_0;
            forall|i: int|
                0 <= i < t.len() ==> match #[trigger] t[i].kind {
                    KindView::Path(Some(name)) => crate::text::seq_contains(template, placeholder(name)),
                    KindView::Path(None) => crate::text::seq_contains(
                        template,
                        placeholder(t[i].ident),
                    ),
                    _ => true,
                }
        }),
{
    let t = route_fields_spec(item, template)->Ok_0;
    lemma_no_path_error(t, t.len() as int, template);
}

/// Lines `a..n`, each followed by a newline.
pub open spec fn joined_lines(lines: Seq<Seq<char>>, a: int, n: int) -> Seq<char>
    decreases n - a,
{
    if n <= a {
        Seq::empty()
    } else {
        joined_lines(lines, a, n - 1) + lines[n - 1] + seq!['\n']
    }
}

/// Rendering the first `n` lines when line `k` is the first to hold the marker.
proof fn lemma_render_prefix(
    lines: Seq<Seq<char>>,
    n: int,
    k: int,
    marker: Seq<char>,
    contents: Seq<char>,
)
    requires
        0 <= n <= lines.len(),
        0 <= k < lines.len(),
        seq_contains(lines[k], marker),
        forall|j: int| 0 <= j < k ==> !seq_contains(#[trigger] lines[j], marker),
    ensures
        n <= k ==> render_lines(lines, n, marker, contents) == (joined_lines(lines, 0, n), false),
        n > k ==> render_lines(lines, n, marker, contents) == (
            joined_lines(lines, 0, k + 1) + inserted_block(contents) + joined_lines(lines, k + 1, n),
            true,
        ),
    decreases n,
{
    if n > 0 {
        lemma_render_prefix(lines, n - 1, k, marker, contents);
        if n > k + 1 {
            let x = joined_lines(lines, 0, k + 1) + inserted_block(contents);
            assert(x + joined_lines(lines, k + 1, n - 1) + lines[n - 1] + seq!['\n'] =~= x
                + joined_lines(lines, k + 1, n));
        } else if n == k + 1 {
            assert(joined_lines(lines, k + 1, n) =~= Seq::<char>::empty());
            assert(joined_lines(lines, 0, k + 1) + inserted_block(contents) =~= joined_lines(
                lines,
                0,
                k + 1,
            ) + inserted_block(contents) + joined_lines(lines, k + 1, n));
        }
    }
}

/// Rendering when no line holds the marker.
proof fn lemma_render_no_marker(lines: Seq<Seq<char>>, n: int, marker: Seq<char>, contents: Seq<char>)
    requires
        0 <= n <= lines.len(),
        forall|j: int| 0 <= j < lines.len() ==> !seq_contains(#[trigger] lines[j], marker),
    ensures
        render_lines(lines, n, marker, contents).1 == false,
    decreases n,
{
    if n > 0 {
        lemma_render_no_marker(lines, n - 1, marker, contents);
    }
}

/// Inserting after a marker puts the (newline-terminated) contents right
/// after the first line that contains the marker, every line keeping its
/// order and ending in a newline; when no line contains the marker nothing
/// is produced.
pub proof fn lemma_insert_after_first_marker(existing: Seq<char>, marker: Seq<char>, contents: Seq<char>)
    ensures
        ({
            let lines = lines_of(existing);
            if exists|k: int| 0 <= k < lines.len() && seq_contains(#[trigger] lines[k], marker) {
                let k = choose|k: int|
                    0 <= k < lines.len() && seq_contains(#[trigger] lines[k], marker) && forall|j: int|
                        0 <= j < k ==> !seq_contains(#[trigger] lines[j], marker);
                insert_after_marker_spec(existing, marker, contents) == Some(
                    joined_lines(lines, 0, k + 1) + inserted_block(contents) + joined_lines(
                        lines,
                        k + 1,
                        lines.len() as int,
                    ),
                )
            } else {
                insert_after_marker_spec(existing, marker, contents) is None
            }
        }),
{
    let lines = lines_of(existing);
    if exists|k: int| 0 <= k < lines.len() && seq_contains(#[trigger] lines[k], marker) {
        lemma_first_marker_exists(lines, marker);
        let k = choose|k: int|
            0 <= k < lines.len() && seq_contains(#[trigger] lines[k], marker) && forall|j: int|
                0 <= j < k ==> !seq_contains(#[trigger] lines[j], marker);
        lemma_render_prefix(lines, lines.len() as int, k, marker, contents);
    } else {
        lemma_render_no_marker(lines, lines.len() as int, marker, contents);
    }
}

/// Some line holds the marker, so there is a first such line.
proof fn lemma_first_marker_exists(lines: Seq<Seq<char>>, marker: Seq<char>)
    requires
        exists|k: int| 0 <= k < lines.len() && seq_contains(#[trigger] lines[k], marker),
    ensures
        exists|k: int|
            0 <= k < lines.len() && seq_contains(#[trigger] lines[k], marker) && forall|j: int|
                0 <= j < k ==> !seq_contains(#[trigger] lines[j], marker),
{
    let k0 = choose|k: int| 0 <= k < lines.len() && seq_contains(#[trigger] lines[k], marker);
    lemma_first_marker_below(lines, marker, k0);
}

/// Below any line holding the marker there is a first one.
proof fn lemma_first_marker_below(lines: Seq<Seq<char>>, marker: Seq<char>, k0: int)
    requires
        0 <= k0 < lines.len(),
        seq_contains(lines[k0], marker),
    ensures
        exists|k: int|
            0 <= k <= k0 && seq_contains(#[trigger] lines[k], marker) && forall|j: int|
                0 <= j < k ==> !seq_contains(#[trigger] lines[j], marker),
    decreases k0,
{
    if exists|j: int| 0 <= j < k0 && seq_contains(#[trigger] lines[j], marker) {
        let j = choose|j: int| 0 <= j < k0 && seq_contains(#[trigger] lines[j], marker);
        lemma_first_marker_below(lines, marker, j);
    } else {
        assert(0 <= k0 <= k0 && seq_contains(lines[k0], marker) && forall|j: int|
            0 <= j < k0 ==> !seq_contains(#[trigger] lines[j], marker));
    }
}

/// A relative path resolved against a non-empty root stays under that root.
pub proof fn lemma_resolve_stays_under_root(root: Seq<char>, rel: Seq<char>)
    requires
        root.len() > 0,
        !(rel.len() > 0 && rel[0] == '/'),
    ensures
        seq_starts_with(path_join(root, rel), root),
{
    let p = path_join(root, rel);
    if root.last() == '/' {
        assert(p.subrange(0, root.len() as int) =~= root);
    } else {
        assert(p.subrange(0, root.len() as int) =~= root);
    }
}

/// An absolute path is not changed by resolving it against a root.
pub proof fn lemma_resolve_absolute(root: Seq<char>, rel: Seq<char>)
    requires
        rel.len() > 0 && rel[0] == '/',
    ensures
        path_join(root, rel) == rel,
{
}

/// The templates chosen for a project type all have that type, were all
/// registered, keep registration order, and are at most as many as were
/// registered.
pub proof fn lemma_templates_of_type(s: Seq<TemplateSlot<Box<dyn Template>>>, t: ProjectType, n: int)
    requires
        0 <= n <= s.len(),
    ensures
        templates_of_type(s, t, n).len() <= n,
        forall|i: int|
            0 <= i < templates_of_type(s, t, n).len() ==> exists|k: int|
                0 <= k < n && s[k].template.spec_project_type() == t && #[trigger] templates_of_type(s, t, n)[i]
                    == &s[k].template,
    decreases n,
{
    if n > 0 {
        lemma_templates_of_type(s, t, n - 1);
        let prev = templates_of_type(s, t, n - 1);
        assert forall|i: int| 0 <= i < templates_of_type(s, t, n).len() implies exists|k: int|
            0 <= k < n && s[k].template.spec_project_type() == t && #[trigger] templates_of_type(s, t, n)[i]
                == &s[k].template by {
            if i < prev.len() {
                assert(templates_of_type(s, t, n)[i] == prev[i]);
                let k = choose|k: int|
                    0 <= k < n - 1 && s[k].template.spec_project_type() == t && prev[i] == &s[k].template;
                assert(0 <= k < n && s[k].template.spec_project_type() == t && templates_of_type(s, t, n)[i]
                    == &s[k].template);
            } else {
                assert(templates_of_type(s, t, n)[i] == &s[n - 1].template);
            }
        }
    }
}

/// Registering a template appends it to the templates of its own project
/// type and leaves those of every other type unchanged.
pub proof fn lemma_register_extends_its_type(
    before: Seq<TemplateSlot<Box<dyn Template>>>,
    template: Box<dyn Template>,
    t: ProjectType,
)
    ensures
        ({
            let added = slot_holding(template);
            let after = before.push(added);
            templates_of_type(after, t, after.len() as int) == if template.spec_project_type() == t {
                templates_of_type(before, t, before.len() as int).push(&after.last().template)
            } else {
                templates_of_type(before, t, before.len() as int)
            }
        }),
{
    let added = slot_holding(template);
    let after = before.push(added);
    lemma_templates_of_type_prefix(before, after, t, before.len() as int);
}

/// Registries that agree on their first `n` slots choose the same templates
/// among them.
proof fn lemma_templates_of_type_prefix(
    before: Seq<TemplateSlot<Box<dyn Template>>>,
    after: Seq<TemplateSlot<Box<dyn Template>>>,
    t: ProjectType,
    n: int,
)
    requires
        0 <= n <= before.len(),
        before.len() <= after.len(),
        forall|k: int| 0 <= k < before.len() ==> after[k] == before[k],
    ensures
        templates_of_type(after, t, n) == templates_of_type(before, t, n),
    decreases n,
{
    if n > 0 {
        lemma_templates_of_type_prefix(before, after, t, n - 1);
    }
}

/// Choosing the label offered for template `i` selects template `i`, as long
/// as no earlier template is offered under the same label.
pub proof fn lemma_label_choice_selects_template(templates: Seq<&Box<dyn Template>>, i: int)
    requires
        0 <= i < templates.len(),
        forall|k: int|
            0 <= k < i ==> template_label(&**#[trigger] templates[k]) != template_label(&**templates[i]),
    ensures
        is_first_label_match(templates, template_label(&**templates[i]), i),
{
}

/// The keys of a dependency's inline table, in order.
pub open spec fn entry_keys(d: DependencyView) -> Seq<Seq<char>> {
    match entry_shape(d) {
        EntryShape::Version(_) => Seq::empty(),
        EntryShape::Table(pairs) => pairs.map_values(|p: (Seq<char>, crate::manifest::TomlScalar)| p.0),
    }
}

/// The inline table written for a dependency names no key twice, so every
/// insertion adds a new key.
pub proof fn lemma_entry_keys_distinct(d: DependencyView)
    ensures
        forall|i: int, j: int| 0 <= i < j < entry_keys(d).len() ==> entry_keys(d)[i] != entry_keys(d)[j],
{
    reveal_strlit("version");
    reveal_strlit("git");
    reveal_strlit("branch");
    reveal_strlit("tag");
    reveal_strlit("rev");
    reveal_strlit("path");
    reveal_strlit("features");
    reveal_strlit("default-features");
    let keys = entry_keys(d);
    assert forall|i: int, j: int| 0 <= i < j < keys.len() implies keys[i] != keys[j] by {
        if keys[i] == keys[j] {
            assert(keys[i].len() == keys[j].len());
            assert(keys[i][0] == keys[j][0]);
        }
    }
}

/// Distinct project kinds have distinct command-line names.
pub proof fn lemma_kind_names_distinct(a: ProjectKind, b: ProjectKind)
    requires
        a != b,
    ensures
        kind_value_name(a) != kind_value_name(b),
{
    reveal_strlit("bin");
    reveal_strlit("lib");
    assert(kind_value_name(a)[0] != kind_value_name(b)[0]);
}

/// The helper attributes among the first `n` decide a field's kind: the scan
/// fails exactly when one of them is a malformed `#[path]`, finds no kind
/// exactly when none of them is a helper attribute, and otherwise gives the
/// kind of the last helper attribute.
pub proof fn lemma_classify_attrs_outcome(attrs: Seq<AttrDecl>, field: usize, n: int)
    requires
        0 <= n <= attrs.len(),
    ensures
        classify_attrs(attrs, field, n) is Err <==> exists|j: int|
            0 <= j < n && (#[trigger] attr_kind_spec(attrs[j], field, j as usize)) matches Some(Err(_)),
        classify_attrs(attrs, field, n) == Ok::<Option<KindView>, ErrorView>(None) <==> forall|j: int|
            0 <= j < n ==> (#[trigger] attr_kind_spec(attrs[j], field, j as usize)) is None,
        classify_attrs(attrs, field, n) matches Ok(Some(k)) ==> exists|j: int|
            0 <= j < n && #[trigger] attr_kind_spec(attrs[j], field, j as usize) == Some(
                Ok::<KindView, ErrorView>(k),
            ) && forall|l: int| j < l < n ==> (#[trigger] attr_kind_spec(attrs[l], field, l as usize)) is None,
    decreases n,
{
    if n > 0 {
        lemma_classify_attrs_outcome(attrs, field, n - 1);
        let last = attr_kind_spec(attrs[n - 1], field, (n - 1) as usize);
        match classify_attrs(attrs, field, n - 1) {
            Err(_) => {
                let j = choose|j: int|
                    0 <= j < n - 1 && (#[trigger] attr_kind_spec(attrs[j], field, j as usize)) matches Some(Err(_));
                assert(0 <= j < n && attr_kind_spec(attrs[j], field, j as usize) matches Some(Err(_)));
            },
            Ok(k) => {
                if classify_attrs(attrs, field, n) is Err {
                    assert(last matches Some(Err(_)));
                } else {
                    assert forall|j: int| 0 <= j < n - 1 implies !((#[trigger] attr_kind_spec(attrs[j], field, j as usize)) matches Some(Err(_))) by {
                    }
                }
                match last {
                    None => {
                        if let Some(kk) = k {
                            let j = choose|j: int|
                                0 <= j < n - 1 && #[trigger] attr_kind_spec(attrs[j], field, j as usize) == Some(
                                    Ok::<KindView, ErrorView>(kk),
                                ) && forall|l: int| j < l < n - 1 ==> (#[trigger] attr_kind_spec(attrs[l], field, l as usize)) is None;
                            assert forall|l: int| j < l < n implies (#[trigger] attr_kind_spec(attrs[l], field, l as usize)) is None by {
                                if l < n - 1 {
                                }
                            }
                        }
                    },
                    Some(Ok(k2)) => {
                        assert(attr_kind_spec(attrs[n - 1], field, (n - 1) as usize) == Some(Ok::<KindView, ErrorView>(k2)));
                    },
                    Some(Err(_)) => {},
                }
            },
        }
    }
}

/// A field is rejected exactly when it has no name, none of its attributes
/// is a helper attribute, or one of them is a malformed `#[path]`; when it is
/// accepted its kind is that of its last helper attribute.
pub proof fn lemma_classify_field_outcome(f: FieldDecl, i: usize)
    ensures
        classify_spec(f, i) is Err <==> (f.ident is None || (forall|j: int|
            0 <= j < f.attrs@.len() ==> (#[trigger] attr_kind_spec(f.attrs@[j], i, j as usize)) is None)
            || exists|j: int|
            0 <= j < f.attrs@.len() && (#[trigger] attr_kind_spec(f.attrs@[j], i, j as usize)) matches Some(
                Err(_),
            )),
        classify_spec(f, i) is Ok ==> ({
            let v = classify_spec(f, i)->Ok_0;
            &&& v.field == i
            &&& f.ident is Some && v.ident == f.ident->Some_0@
            &&& exists|j: int|
                0 <= j < f.attrs@.len() && #[trigger] attr_kind_spec(f.attrs@[j], i, j as usize) == Some(
                    Ok::<KindView, ErrorView>(v.kind),
                ) && forall|l: int|
                    j < l < f.attrs@.len() ==> (#[trigger] attr_kind_spec(f.attrs@[l], i, l as usize)) is None
        }),
{
    lemma_classify_attrs_outcome(f.attrs@, i, f.attrs@.len() as int);
}

/// Adding dependencies one after another: a successful outcome comes through
/// a successful addition of every dependency in turn, and a failed one is the
/// error of one addition that failed after all the earlier ones succeeded.
pub proof fn lemma_add_all_first_failure(
    w: spec_fn(Seq<char>, DependencyView, Result<Seq<char>, ManifestEditErrorView>) -> bool,
    manifest: Seq<char>,
    deps: Seq<DependencyView>,
    n: int,
    result: Result<Seq<char>, ManifestEditErrorView>,
)
    requires
        0 <= n <= deps.len(),
        adds_all(w, manifest, deps, n, result),
    ensures
        result is Ok ==> exists|texts: Seq<Seq<char>>|
            #[trigger] adds_chain(w, manifest, deps, texts) && texts.len() == n + 1 && result
                == Ok::<Seq<char>, ManifestEditErrorView>(texts[n]),
        result is Err ==> exists|texts: Seq<Seq<char>>|
            #[trigger] adds_chain(w, manifest, deps, texts) && 1 <= texts.len() <= n && w(
                texts.last(),
                deps[texts.len() - 1],
                result,
            ),
{
    if result is Err {
        let texts = choose|texts: Seq<Seq<char>>|
            #[trigger] adds_chain(w, manifest, deps, texts) && texts.len() <= n && result is Err && w(
                texts.last(),
                deps[texts.len() - 1],
                result,
            );
        assert(adds_chain(w, manifest, deps, texts) && 1 <= texts.len() <= n && w(
            texts.last(),
            deps[texts.len() - 1],
            result,
        ));
    }
}

/// Two route fields of the same query, body or context kind.
pub open spec fn same_single_kind(a: RouteFieldView, b: RouteFieldView) -> bool {
    kind_class(a.kind) == kind_class(b.kind) && kind_class(b.kind) >= 2
}

/// A path field whose `{variable}` the route template lacks: its explicit
/// name when it has one, otherwise its field name.
pub open spec fn path_var_missing(f: RouteFieldView, template: Seq<char>) -> bool {
    match f.kind {
        KindView::Path(Some(name)) => !seq_contains(template, placeholder(name)),
        KindView::Path(None) => !seq_contains(template, placeholder(f.ident)),
        _ => false,
    }
}

/// The duplicate scan finds something exactly when two positions hold the
/// same query, body or context kind.
proof fn lemma_first_duplicate_iff(t: Seq<RouteFieldView>, n: int)
    requires
        0 <= n <= t.len(),
    ensures
        first_duplicate(t, n) is Some <==> exists|i: int, j: int|
            0 <= i < j < n && #[trigger] same_single_kind(t[i], t[j]),
    decreases n,
{
    if n > 0 {
        lemma_first_duplicate_iff(t, n - 1);
        if first_duplicate(t, n) is Some && first_duplicate(t, n - 1) is None {
            let c = kind_class(t[n - 1].kind);
            assert(c >= 2 && class_seen(t, c, n - 1));
            let i = choose|i: int| 0 <= i < n - 1 && kind_class(#[trigger] t[i].kind) == c;
            assert(same_single_kind(t[i], t[n - 1]));
        }
        if exists|i: int, j: int| 0 <= i < j < n && #[trigger] same_single_kind(t[i], t[j]) {
            let (i, j) = choose|i: int, j: int| 0 <= i < j < n && #[trigger] same_single_kind(t[i], t[j]);
            if j < n - 1 {
                assert(first_duplicate(t, n - 1) is Some);
            } else if first_duplicate(t, n - 1) is None {
                assert(kind_class(t[i].kind) == kind_class(t[n - 1].kind));
                assert(class_seen(t, kind_class(t[n - 1].kind), n - 1));
            }
        }
    }
}

/// The path scan finds something exactly when some position holds a path
/// field whose variable the template lacks.
proof fn lemma_first_path_error_iff(t: Seq<RouteFieldView>, n: int, template: Seq<char>)
    requires
        0 <= n <= t.len(),
    ensures
        first_path_error(t, n, template) is Some <==> exists|k: int|
            0 <= k < n && path_var_missing(#[trigger] t[k], template),
    decreases n,
{
    if n > 0 {
        lemma_first_path_error_iff(t, n - 1, template);
        assert(path_error_at(t, n - 1, template) is Some <==> path_var_missing(t[n - 1], template));
        if exists|k: int| 0 <= k < n && path_var_missing(#[trigger] t[k], template) {
            let k = choose|k: int| 0 <= k < n && path_var_missing(#[trigger] t[k], template);
            if k < n - 1 {
                assert(first_path_error(t, n - 1, template) is Some);
            }
        }
    }
}

/// Every classified field lands in one of the two parts of the extractor order.
proof fn lemma_parts_cover(s: Seq<RouteFieldView>, n: int)
    requires
        0 <= n <= s.len(),
    ensures
        forall|k: int|
            0 <= k < n && !(s[k].kind is RequestBody) ==> exists|i: int|
                0 <= i < without_body(s, n).len() && #[trigger] without_body(s, n)[i] == #[trigger] s[k],
        forall|k: int|
            0 <= k < n && (s[k].kind is RequestBody) ==> exists|i: int|
                0 <= i < only_body(s, n).len() && #[trigger] only_body(s, n)[i] == #[trigger] s[k],
    decreases n,
{
    if n > 0 {
        lemma_parts_cover(s, n - 1);
        let w = without_body(s, n - 1);
        let b = only_body(s, n - 1);
        assert forall|k: int|
            0 <= k < n && !(s[k].kind is RequestBody) implies exists|i: int|
                0 <= i < without_body(s, n).len() && #[trigger] without_body(s, n)[i] == #[trigger] s[k] by {
            if k < n - 1 {
                let i = choose|i: int| 0 <= i < w.len() && #[trigger] w[i] == #[trigger] s[k];
                assert(without_body(s, n)[i] == w[i]);
            } else {
                assert(without_body(s, n)[w.len() as int] == s[k]);
            }
        }
        assert forall|k: int|
            0 <= k < n && (s[k].kind is RequestBody) implies exists|i: int|
                0 <= i < only_body(s, n).len() && #[trigger] only_body(s, n)[i] == #[trigger] s[k] by {
            if k < n - 1 {
                let i = choose|i: int| 0 <= i < b.len() && #[trigger] b[i] == #[trigger] s[k];
                assert(only_body(s, n)[i] == b[i]);
            } else {
                assert(only_body(s, n)[b.len() as int] == s[k]);
            }
        }
    }
}


/// The extractor order is as long as declaration order.
proof fn lemma_rbl_len(s: Seq<RouteFieldView>)
    ensures
        request_body_last(s).len() == s.len(),
{
    lemma_parts_len(s, s.len() as int);
}

/// Each position of the extractor order holds some classified field.
proof fn lemma_rbl_source(s: Seq<RouteFieldView>, i: int) -> (k: int)
    requires
        forall|k: int| 0 <= k < s.len() ==> (#[trigger] s[k]).field == k,
        0 <= i < s.len(),
    ensures
        0 <= k < s.len(),
        request_body_last(s)[i] == s[k],
{
    let n = s.len() as int;
    let t = request_body_last(s);
    let w = without_body(s, n);
    let b = only_body(s, n);
    lemma_parts_len(s, n);
    lemma_parts_increasing(s, n);
    if i < w.len() {
        assert(t[i] == w[i]);
        choose|k: int| 0 <= k < n && #[trigger] w[i] == s[k]
    } else {
        assert(t[i] == b[i - w.len()]);
        choose|k: int| 0 <= k < n && #[trigger] b[i - w.len()] == s[k]
    }
}

/// Each classified field has a position in the extractor order.
proof fn lemma_rbl_place(s: Seq<RouteFieldView>, k: int) -> (i: int)
    requires
        0 <= k < s.len(),
    ensures
        0 <= i < s.len(),
        request_body_last(s)[i] == s[k],
{
    let n = s.len() as int;
    let t = request_body_last(s);
    let w = without_body(s, n);
    let b = only_body(s, n);
    lemma_parts_len(s, n);
    lemma_parts_cover(s, n);
    if s[k].kind is RequestBody {
        let i = choose|i: int| 0 <= i < b.len() && #[trigger] b[i] == #[trigger] s[k];
        assert(t[w.len() + i] == b[i]);
        w.len() + i
    } else {
        let i = choose|i: int| 0 <= i < w.len() && #[trigger] w[i] == #[trigger] s[k];
        assert(t[i] == w[i]);
        i
    }
}

/// Two positions of the extractor order hold different fields.
proof fn lemma_rbl_distinct(s: Seq<RouteFieldView>, i: int, j: int)
    requires
        forall|k: int| 0 <= k < s.len() ==> (#[trigger] s[k]).field == k,
        0 <= i < j < s.len(),
    ensures
        request_body_last(s)[i] != request_body_last(s)[j],
{
    let n = s.len() as int;
    let t = request_body_last(s);
    let w = without_body(s, n);
    let b = only_body(s, n);
    lemma_parts_len(s, n);
    lemma_parts_increasing(s, n);
    if j < w.len() {
        assert(t[i] == w[i] && t[j] == w[j]);
        assert(w[i].field < w[j].field);
    } else if i >= w.len() {
        assert(t[i] == b[i - w.len()] && t[j] == b[j - w.len()]);
        assert(b[i - w.len()].field < b[j - w.len()].field);
    } else {
        assert(t[i] == w[i] && t[j] == b[j - w.len()]);
        assert(!(w[i].kind is RequestBody));
        assert(b[j - w.len()].kind is RequestBody);
    }
}

/// Two fields of one query, body or context kind occur in extractor order
/// exactly when they occur in declaration order.
proof fn lemma_duplicates_in_either_order(s: Seq<RouteFieldView>)
    requires
        forall|k: int| 0 <= k < s.len() ==> (#[trigger] s[k]).field == k,
    ensures
        (exists|i: int, j: int|
            0 <= i < j < s.len() && #[trigger] same_single_kind(request_body_last(s)[i], request_body_last(s)[j]))
            <==> (exists|i: int, j: int| 0 <= i < j < s.len() && #[trigger] same_single_kind(s[i], s[j])),
{
    let n = s.len() as int;
    let t = request_body_last(s);
    lemma_rbl_len(s);
    if exists|i: int, j: int| 0 <= i < j < n && #[trigger] same_single_kind(t[i], t[j]) {
        let (i, j) = choose|i: int, j: int| 0 <= i < j < n && #[trigger] same_single_kind(t[i], t[j]);
        let a = lemma_rbl_source(s, i);
        let b = lemma_rbl_source(s, j);
        lemma_rbl_distinct(s, i, j);
        if a < b {
            assert(same_single_kind(s[a], s[b]));
        } else {
            assert(same_single_kind(s[b], s[a]));
        }
    }
    if exists|i: int, j: int| 0 <= i < j < n && #[trigger] same_single_kind(s[i], s[j]) {
        let (a, b) = choose|i: int, j: int| 0 <= i < j < n && #[trigger] same_single_kind(s[i], s[j]);
        let i = lemma_rbl_place(s, a);
        let j = lemma_rbl_place(s, b);
        assert(s[a].field != s[b].field);
        if i < j {
            assert(same_single_kind(t[i], t[j]));
        } else {
            assert(same_single_kind(t[j], t[i]));
        }
    }
}

/// A path field lacking its template variable occurs in extractor order
/// exactly when it occurs in declaration order.
proof fn lemma_missing_var_in_either_order(s: Seq<RouteFieldView>, template: Seq<char>)
    requires
        forall|k: int| 0 <= k < s.len() ==> (#[trigger] s[k]).field == k,
    ensures
        (exists|k: int| 0 <= k < s.len() && path_var_missing(#[trigger] request_body_last(s)[k], template))
            <==> (exists|k: int| 0 <= k < s.len() && path_var_missing(#[trigger] s[k], template)),
{
    let n = s.len() as int;
    let t = request_body_last(s);
    lemma_rbl_len(s);
    if exists|k: int| 0 <= k < n && path_var_missing(#[trigger] t[k], template) {
        let i = choose|k: int| 0 <= k < n && path_var_missing(#[trigger] t[k], template);
        let a = lemma_rbl_source(s, i);
        assert(path_var_missing(s[a], template));
    }
    if exists|k: int| 0 <= k < n && path_var_missing(#[trigger] s[k], template) {
        let a = choose|k: int| 0 <= k < n && path_var_missing(#[trigger] s[k], template);
        let i = lemma_rbl_place(s, a);
        assert(path_var_missing(t[i], template));
    }
}

/// Classification succeeds exactly when every field is accepted, and then
/// gives each field's own classification.
proof fn lemma_classify_fields_iff(fields: Seq<FieldDecl>, n: int)
    requires
        0 <= n <= fields.len(),
    ensures
        classify_fields(fields, n) is Err <==> exists|k: int|
            0 <= k < n && (#[trigger] classify_spec(fields[k], k as usize)) is Err,
        classify_fields(fields, n) is Ok ==> classify_fields(fields, n)->Ok_0.len() == n
            && forall|k: int|
            0 <= k < n ==> #[trigger] classify_fields(fields, n)->Ok_0[k] == classify_spec(
                fields[k],
                k as usize,
            )->Ok_0,
    decreases n,
{
    if n > 0 {
        lemma_classify_fields_iff(fields, n - 1);
        if exists|k: int| 0 <= k < n && (#[trigger] classify_spec(fields[k], k as usize)) is Err {
            let k = choose|k: int| 0 <= k < n && (#[trigger] classify_spec(fields[k], k as usize)) is Err;
            if k < n - 1 {
                assert(classify_fields(fields, n - 1) is Err);
            }
        }
        if classify_fields(fields, n) is Ok {
            let prev = classify_fields(fields, n - 1)->Ok_0;
            let v = classify_spec(fields[n - 1], (n - 1) as usize)->Ok_0;
            assert(classify_fields(fields, n)->Ok_0 == prev.push(v));
            assert forall|k: int| 0 <= k < n implies #[trigger] classify_fields(fields, n)->Ok_0[k]
                == classify_spec(fields[k], k as usize)->Ok_0 by {
                if k < n - 1 {
                    assert(prev[k] == classify_spec(fields[k], k as usize)->Ok_0);
                }
            }
        }
    }
}

/// A route struct is refused exactly when its fields are not named, some
/// field is refused, two fields are both `#[query_params]`, both
/// `#[request_body]` or both `#[context]`, or a path field's variable is not
/// in the route template.  Several `#[path]` or `#[state]` fields are never
/// refused by themselves.
pub proof fn lemma_route_refusals(item: StructDecl, template: Seq<char>)
    requires
        item.fields matches StructFields::Named(fields) ==> fields@.len() <= usize::MAX,
    ensures
        route_fields_spec(item, template) is Err <==> match item.fields {
            StructFields::Named(fields) => {
                let f = fields@;
                ||| exists|k: int| 0 <= k < f.len() && (#[trigger] classify_spec(f[k], k as usize)) is Err
                ||| (forall|k: int| 0 <= k < f.len() ==> (#[trigger] classify_spec(f[k], k as usize)) is Ok)
                    && exists|i: int, j: int|
                    0 <= i < j < f.len() && #[trigger] same_single_kind(
                        classify_spec(f[i], i as usize)->Ok_0,
                        classify_spec(f[j], j as usize)->Ok_0,
                    )
                ||| (forall|k: int| 0 <= k < f.len() ==> (#[trigger] classify_spec(f[k], k as usize)) is Ok)
                    && exists|k: int|
                    0 <= k < f.len() && path_var_missing(
                        #[trigger] classify_spec(f[k], k as usize)->Ok_0,
                        template,
                    )
            },
            _ => true,
        },
{
    if let StructFields::Named(fields) = item.fields {
        let f = fields@;
        let n = f.len() as int;
        lemma_classify_fields_iff(f, n);
        if classify_fields(f, n) is Ok {
            let s = classify_fields(f, n)->Ok_0;
            lemma_classified_fields_in_order(f, n);
            let t = request_body_last(s);
            lemma_rbl_len(s);
            lemma_first_duplicate_iff(t, n);
            lemma_first_path_error_iff(t, n, template);
            lemma_duplicates_in_either_order(s);
            lemma_missing_var_in_either_order(s, template);
            assert forall|k: int| 0 <= k < n implies (#[trigger] classify_spec(f[k], k as usize)) is Ok by {
                if classify_spec(f[k], k as usize) is Err {
                    assert(classify_fields(f, n) is Err);
                }
            }
            assert((exists|i: int, j: int| 0 <= i < j < n && #[trigger] same_single_kind(s[i], s[j]))
                <==> exists|i: int, j: int|
                0 <= i < j < n && #[trigger] same_single_kind(
                    classify_spec(f[i], i as usize)->Ok_0,
                    classify_spec(f[j], j as usize)->Ok_0,
                )) by {
                if exists|i: int, j: int| 0 <= i < j < n && #[trigger] same_single_kind(s[i], s[j]) {
                    let (i, j) = choose|i: int, j: int| 0 <= i < j < n && #[trigger] same_single_kind(s[i], s[j]);
                    assert(s[i] == classify_spec(f[i], i as usize)->Ok_0);
                    assert(s[j] == classify_spec(f[j], j as usize)->Ok_0);
                }
                if exists|i: int, j: int|
                    0 <= i < j < n && #[trigger] same_single_kind(
                        classify_spec(f[i], i as usize)->Ok_0,
                        classify_spec(f[j], j as usize)->Ok_0,
                    ) {
                    let (i, j) = choose|i: int, j: int|
                        0 <= i < j < n && #[trigger] same_single_kind(
                            classify_spec(f[i], i as usize)->Ok_0,
                            classify_spec(f[j], j as usize)->Ok_0,
                        );
                    assert(s[i] == classify_spec(f[i], i as usize)->Ok_0);
                    assert(s[j] == classify_spec(f[j], j as usize)->Ok_0);
                    assert(same_single_kind(s[i], s[j]));
                }
            }
            assert((exists|k: int| 0 <= k < n && path_var_missing(#[trigger] s[k], template))
                <==> exists|k: int|
                0 <= k < n && path_var_missing(#[trigger] classify_spec(f[k], k as usize)->Ok_0, template)) by {
                if exists|k: int| 0 <= k < n && path_var_missing(#[trigger] s[k], template) {
                    let k = choose|k: int| 0 <= k < n && path_var_missing(#[trigger] s[k], template);
                    assert(s[k] == classify_spec(f[k], k as usize)->Ok_0);
                }
                if exists|k: int|
                    0 <= k < n && path_var_missing(#[trigger] classify_spec(f[k], k as usize)->Ok_0, template) {
                    let k = choose|k: int|
                        0 <= k < n && path_var_missing(#[trigger] classify_spec(f[k], k as usize)->Ok_0, template);
                    assert(s[k] == classify_spec(f[k], k as usize)->Ok_0);
                    assert(path_var_missing(s[k], template));
                }
            }
        }
    }
}

/// Some path position among the first `n` holds field number `v`.
spec fn path_field_at(t: Seq<RouteFieldView>, n: int, v: usize) -> bool {
    exists|p: int| 0 <= p < n && (t[p].kind is Path) && t[p].field == v
}

/// The path-field list holds exactly the field numbers of the path
/// positions, in position order.
proof fn lemma_path_field_indices(t: Seq<RouteFieldView>, n: int)
    requires
        0 <= n <= t.len(),
        forall|p: int, q: int|
            0 <= p < q < t.len() && (t[p].kind is Path) && (t[q].kind is Path) ==> t[p].field < t[q].field,
    ensures
        forall|m: int, m2: int|
            0 <= m < m2 < path_field_indices(t, n).len() ==> path_field_indices(t, n)[m]
                < path_field_indices(t, n)[m2],
        forall|m: int|
            0 <= m < path_field_indices(t, n).len() ==> path_field_at(t, n, #[trigger] path_field_indices(t, n)[m]),
        forall|p: int|
            0 <= p < n && (#[trigger] t[p].kind is Path) ==> path_field_indices(t, n).contains(t[p].field),
    decreases n,
{
    if n > 0 {
        lemma_path_field_indices(t, n - 1);
        let prev = path_field_indices(t, n - 1);
        let cur = path_field_indices(t, n);
        assert forall|m: int| 0 <= m < prev.len() implies path_field_at(t, n, #[trigger] prev[m]) by {
            assert(path_field_at(t, n - 1, prev[m]));
            let p = choose|p: int| 0 <= p < n - 1 && (t[p].kind is Path) && t[p].field == prev[m];
            assert(0 <= p < n && (t[p].kind is Path) && t[p].field == prev[m]);
        }
        if t[n - 1].kind is Path {
            assert(cur == prev.push(t[n - 1].field));
            assert forall|m: int| 0 <= m < prev.len() implies prev[m] < t[n - 1].field by {
                assert(path_field_at(t, n - 1, prev[m]));
                let p = choose|p: int| 0 <= p < n - 1 && (t[p].kind is Path) && t[p].field == prev[m];
            }
            assert forall|m: int| 0 <= m < cur.len() implies path_field_at(t, n, #[trigger] cur[m]) by {
                if m < prev.len() {
                    assert(cur[m] == prev[m]);
                    assert(path_field_at(t, n, prev[m]));
                } else {
                    assert(cur[m] == t[n - 1].field);
                    assert(0 <= n - 1 < n && (t[n - 1].kind is Path) && t[n - 1].field == cur[m]);
                }
            }
            assert forall|p: int| 0 <= p < n && (#[trigger] t[p].kind is Path) implies cur.contains(t[p].field) by {
                if p < n - 1 {
                    let m = choose|m: int| 0 <= m < prev.len() && prev[m] == t[p].field;
                    assert(cur[m] == prev[m]);
                } else {
                    assert(cur[prev.len() as int] == t[p].field);
                }
            }
        } else {
            assert(cur == prev);
        }
    }
}

/// The path extractor of an accepted route struct names exactly its path
/// fields, in declaration order: none, one, or a tuple of several.
pub proof fn lemma_path_fields_in_declaration_order(item: StructDecl, template: Seq<char>)
    requires
        route_fields_spec(item, template) is Ok,
        item.fields matches StructFields::Named(fields) ==> fields@.len() <= usize::MAX,
    ensures
        item.fields matches StructFields::Named(fields) && ({
            let t = route_fields_spec(item, template)->Ok_0;
            let idx = path_field_indices(t, t.len() as int);
            &&& forall|m: int, m2: int| 0 <= m < m2 < idx.len() ==> idx[m] < idx[m2]
            &&& forall|k: int|
                0 <= k < fields@.len() ==> ((#[trigger] classify_spec(fields@[k], k as usize))->Ok_0.kind is Path
                    <==> idx.contains(k as usize))
        }),
{
    if let StructFields::Named(fields) = item.fields {
        let f = fields@;
        let n = f.len() as int;
        lemma_classify_fields_iff(f, n);
        lemma_classified_fields_in_order(f, n);
        lemma_extractor_order(f);
        let s = classify_fields(f, n)->Ok_0;
        let t = request_body_last(s);
        lemma_rbl_len(s);
        assert(route_fields_spec(item, template)->Ok_0 == t);
        assert forall|p: int, q: int|
            0 <= p < q < t.len() && (t[p].kind is Path) && (t[q].kind is Path) implies t[p].field < t[q].field by {
            assert((t[p].kind is RequestBody) == (t[q].kind is RequestBody));
        }
        lemma_path_field_indices(t, n);
        let idx = path_field_indices(t, n);
        assert forall|k: int|
            0 <= k < n implies ((#[trigger] classify_spec(f[k], k as usize))->Ok_0.kind is Path
                <==> idx.contains(k as usize)) by {
            assert(s[k] == classify_spec(f[k], k as usize)->Ok_0);
            assert(s[k].field == k);
            if s[k].kind is Path {
                let i = lemma_rbl_place(s, k);
                assert(t[i].kind is Path);
            }
            if idx.contains(k as usize) {
                let m = choose|m: int| 0 <= m < idx.len() && idx[m] == k as usize;
                assert(path_field_at(t, n, idx[m]));
                let p = choose|p: int| 0 <= p < n && (t[p].kind is Path) && t[p].field == idx[m];
                let a = lemma_rbl_source(s, p);
                assert(s[a].field == a);
            }
        }
    }
}

/// A `create` run creates the project only once every answer is in: the
/// dependencies chosen with no template, or, with a template, the
/// dependencies chosen and the structure confirmed or declined.
pub proof fn lemma_create_after_answers(s: CreateFlow, e: CreateEvent)
    ensures
        create_next(s, e).1 is CreateProject <==> create_next(s, e).0 is Creating,
        create_next(s, e).1 is CreateProject ==> (s matches CreateFlow::ChoosingDependencies { template: None }
            && e is DependenciesChosen) || (s is Confirming && e is Confirmed),
{
}

/// A `create` run writes dependencies only after the project was created,
/// and scaffolds only after they were written.
pub proof fn lemma_writes_after_creation(s: CreateFlow, e: CreateEvent)
    ensures
        create_next(s, e).1 is WriteDependencies ==> s is Creating && e matches CreateEvent::ProjectCreated(Ok(_)),
        create_next(s, e).0 is WritingDependencies ==> e matches CreateEvent::ProjectCreated(Ok(_)),
        create_next(s, e).1 is Scaffold ==> s is WritingDependencies && e matches CreateEvent::DependenciesWritten(
            Ok(_),
        ),
        create_next(s, e).0 is Scaffolding ==> s is WritingDependencies,
{
}

/// A failure reported at any point ends a `create` run with that failure,
/// and a finished run stays finished.
pub proof fn lemma_failure_ends_create(s: CreateFlow, e: CreateEvent)
    ensures
        failure_of(e) matches Some(x) ==> create_next(s, e) == (CreateFlow::Failed, CreateAction::Fail(x)),
        (s is Done || s is Failed) ==> create_next(s, e).0 is Failed,
{
}

/// A module with no submodules and no contents gets an empty `mod.rs`; with
/// submodules, each is declared in order before a blank line and the contents.
pub proof fn lemma_fresh_module_text(submodules: Seq<Seq<char>>, contents: Seq<char>)
    ensures
        submodules.len() == 0 ==> mod_rs_text(submodules, contents) == contents,
        submodules.len() == 0 && contents.len() == 0 ==> mod_rs_text(submodules, contents).len() == 0,
{
    if submodules.len() == 0 {
        assert(mod_rs_text(submodules, contents) =~= contents);
    }
}

/// The path extractor of an accepted route's plan: none without path fields,
/// a single field for one, and a tuple of all of them, in declaration order,
/// for several.
pub proof fn lemma_route_plan_path_extractor(p: RoutePlan, item: StructDecl, template: Seq<char>, method: HttpMethod)
    requires
        route_fields_spec(item, template) is Ok,
        plan_matches(p, item, route_fields_spec(item, template)->Ok_0, method),
        item.fields matches StructFields::Named(fields) ==> fields@.len() <= usize::MAX,
    ensures
        item.fields matches StructFields::Named(fields) && ({
            let idx = path_field_indices(
                route_fields_spec(item, template)->Ok_0,
                route_fields_spec(item, template)->Ok_0.len() as int,
            );
            &&& path_extractor_for(p.path, idx)
            &&& forall|m: int, m2: int| 0 <= m < m2 < idx.len() ==> idx[m] < idx[m2]
            &&& forall|k: int|
                0 <= k < fields@.len() ==> ((#[trigger] classify_spec(fields@[k], k as usize))->Ok_0.kind is Path
                    <==> idx.contains(k as usize))
        }),
{
    lemma_path_fields_in_declaration_order(item, template);
}

/// The key scan finds nothing exactly when every key is a single identifier.
proof fn lemma_first_non_ident_key_none(args: Seq<MacroArg>, n: int)
    requires
        0 <= n <= args.len(),
    ensures
        first_non_ident_key(args, n) is None <==> forall|j: int| 0 <= j < n ==> (#[trigger] args[j].key) is Some,
    decreases n,
{
    if n > 0 {
        lemma_first_non_ident_key_none(args, n - 1);
    }
}

/// The route scan finds nothing exactly when every element is a path.
proof fn lemma_first_non_path_none(items: Seq<bool>, n: int)
    requires
        0 <= n <= items.len(),
    ensures
        first_non_path(items, n) is None <==> forall|j: int| 0 <= j < n ==> #[trigger] items[j],
    decreases n,
{
    if n > 0 {
        lemma_first_non_path_none(items, n - 1);
    }
}

/// When some argument has key `key`, there is a first one.
proof fn lemma_first_key_exists(args: Seq<MacroArg>, key: Seq<char>)
    requires
        !key_absent(args, key),
    ensures
        exists|i: int| is_first_key(args, key, i),
{
    let j0 = choose|j: int| 0 <= j < args.len() && is_named(#[trigger] args[j].key, key);
    lemma_first_key_below(args, key, j0);
}

/// Below an argument with key `key` there is a first one.
proof fn lemma_first_key_below(args: Seq<MacroArg>, key: Seq<char>, j0: int)
    requires
        0 <= j0 < args.len(),
        is_named(args[j0].key, key),
    ensures
        exists|i: int| is_first_key(args, key, i),
    decreases j0,
{
    if exists|j: int| 0 <= j < j0 && is_named(#[trigger] args[j].key, key) {
        let j = choose|j: int| 0 <= j < j0 && is_named(#[trigger] args[j].key, key);
        lemma_first_key_below(args, key, j);
    } else {
        assert(is_first_key(args, key, j0));
    }
}

/// A controller's arguments are accepted exactly when every key is a single
/// identifier, `context` (if given) is a string literal, and `routes` is
/// given as an array of paths; the context is then that literal, or empty
/// when absent, and the routes are the array's, in order.
pub proof fn lemma_controller_acceptance(args: Seq<MacroArg>)
    requires
        args.len() <= usize::MAX,
    ensures
        controller_spec(args) is Ok <==> {
            &&& forall|j: int| 0 <= j < args.len() ==> (#[trigger] args[j].key) is Some
            &&& forall|i: int| #[trigger] is_first_key(args, "context"@, i) ==> args[i].value.str_lit is Some
            &&& !key_absent(args, "routes"@)
            &&& forall|i: int|
                #[trigger] is_first_key(args, "routes"@, i) ==> (args[i].value.array matches Some(items)
                    && forall|k: int| 0 <= k < items@.len() ==> #[trigger] items@[k])
        },
        controller_spec(args) matches Ok((c, i, n)) ==> {
            &&& key_absent(args, "context"@) ==> c.len() == 0
            &&& forall|j: int| #[trigger] is_first_key(args, "context"@, j) ==> (args[j].value.str_lit matches Some(
                s,
            ) && c == s@)
            &&& is_first_key(args, "routes"@, i as int)
            &&& args[i as int].value.array matches Some(items) && n == items.len()
        },
{
    lemma_first_non_ident_key_none(args, args.len() as int);
    if !key_absent(args, "context"@) {
        lemma_first_key_exists(args, "context"@);
    }
    if !key_absent(args, "routes"@) {
        lemma_first_key_exists(args, "routes"@);
        let i = choose|i: int| is_first_key(args, "routes"@, i);
        if let Some(items) = args[i].value.array {
            lemma_first_non_path_none(items@, items@.len() as int);
        }
    }
    assert forall|a: int, b: int| is_first_key(args, "context"@, a) && is_first_key(args, "context"@, b) implies a == b by {
        if a < b {
            assert(!is_named(args[a].key, "context"@));
        } else if b < a {
            assert(!is_named(args[b].key, "context"@));
        }
    }
    assert forall|a: int, b: int| is_first_key(args, "routes"@, a) && is_first_key(args, "routes"@, b) implies a == b by {
        if a < b {
            assert(!is_named(args[a].key, "routes"@));
        } else if b < a {
            assert(!is_named(args[b].key, "routes"@));
        }
    }
}

/// The REST CRUD template writes the application state type: its state file
/// at `src/routes/state.rs` defines `pub struct AppState`, and the entry
/// point it writes at `src/main.rs` names that type as the server state.
pub proof fn lemma_rest_crud_state_defined(root: Seq<char>)
    ensures
        RestCrudTemplate.spec_steps(root).len() == 5,
        RestCrudTemplate.spec_steps(root)[3] matches StepView::WriteFile { path, contents } && path
            == "src/routes/state.rs"@ && seq_contains(contents, "pub struct AppState"@),
        RestCrudTemplate.spec_steps(root)[4] matches StepView::OverwriteFile { path, contents } && path
            == "src/main.rs"@ && seq_contains(contents, "state = state::AppState"@),
{
    reveal_strlit("src/routes/state.rs");
    reveal_strlit("src/main.rs");
    reveal_strlit("pub struct AppState");
    reveal_strlit("state = state::AppState");
    reveal_strlit(r#"
            #[derive(Clone)]
            pub struct AppState {}
            "#);
    reveal_strlit(r#"
            mod state;
            mod routing;
            mod models;
            mod db;

            #[nkd_http_server::main(
                state = state::AppState,
            )]
            async fn main(app_builder: AppBuilder<state::AppState>) {
                todo!("add controllers and state to builder");
            }
            "#);
    assert(STATE_PATH@ == "src/routes/state.rs"@);
    assert(MAIN_PATH@ == "src/main.rs"@);
    let state = STATE_SOURCE@;
    assert(state == r#"
            #[derive(Clone)]
            pub struct AppState {}
            "#@);
    let needle = "pub struct AppState"@;
    assert(state.subrange(42int, 42int + needle.len()) =~= needle);
    assert(seq_contains(state, needle));
    let main = MAIN_SOURCE@;
    assert(main == r#"
            mod state;
            mod routing;
            mod models;
            mod db;

            #[nkd_http_server::main(
                state = state::AppState,
            )]
            async fn main(app_builder: AppBuilder<state::AppState>) {
                todo!("add controllers and state to builder");
            }
            "#@);
    let needle2 = "state = state::AppState"@;
    assert(main.subrange(147int, 147int + needle2.len()) =~= needle2);
    assert(seq_contains(main, needle2));
}

/// An attribute named like one of the route helper attributes.
pub open spec fn names_route_helper(a: AttrDecl) -> bool {
    ||| is_named(a.name, "state"@)
    ||| is_named(a.name, "path"@)
    ||| is_named(a.name, "query_params"@)
    ||| is_named(a.name, "request_body"@)
    ||| is_named(a.name, "context"@)
}

/// An attribute named like one of the route-method attributes.
pub open spec fn names_route_method(a: AttrDecl) -> bool {
    ||| is_named(a.name, "get"@)
    ||| is_named(a.name, "post"@)
    ||| is_named(a.name, "put"@)
    ||| is_named(a.name, "delete"@)
    ||| is_named(a.name, "patch"@)
}

/// Of the first `n` attributes of a field, exactly those that are not route
/// helper attributes (`#[state]`, `#[path]`, `#[query_params]`,
/// `#[request_body]`, `#[context]`) are kept, in order; of a struct's, exactly
/// those that are not route-method attributes.
pub proof fn lemma_kept_attrs_strip_helpers(attrs: Seq<AttrDecl>, on_struct: bool, n: int)
    requires
        0 <= n <= attrs.len(),
        attrs.len() <= usize::MAX,
    ensures
        forall|m: int|
            0 <= m < kept_attrs(attrs, on_struct, n).len() ==> {
                let k = #[trigger] kept_attrs(attrs, on_struct, n)[m] as int;
                &&& 0 <= k < n
                &&& if on_struct {
                    !names_route_method(attrs[k])
                } else {
                    !names_route_helper(attrs[k])
                }
            },
        forall|k: int|
            0 <= k < n && (if on_struct {
                !names_route_method(#[trigger] attrs[k])
            } else {
                !names_route_helper(attrs[k])
            }) ==> kept_attrs(attrs, on_struct, n).contains(k as usize),
        forall|m: int, m2: int|
            0 <= m < m2 < kept_attrs(attrs, on_struct, n).len() ==> kept_attrs(attrs, on_struct, n)[m]
                < kept_attrs(attrs, on_struct, n)[m2],
    decreases n,
{
    if n > 0 {
        lemma_kept_attrs_strip_helpers(attrs, on_struct, n - 1);
        let prev = kept_attrs(attrs, on_struct, n - 1);
        let cur = kept_attrs(attrs, on_struct, n);
        if is_dropped_attr(attrs[n - 1], on_struct) {
            assert(cur == prev);
        } else {
            assert(cur == prev.push((n - 1) as usize));
            assert(if on_struct {
                !names_route_method(attrs[n - 1])
            } else {
                !names_route_helper(attrs[n - 1])
            });
            assert forall|m: int| 0 <= m < cur.len() implies {
                let k = #[trigger] cur[m] as int;
                &&& 0 <= k < n
                &&& if on_struct {
                    !names_route_method(attrs[k])
                } else {
                    !names_route_helper(attrs[k])
                }
            } by {
                if m < prev.len() {
                    assert(cur[m] == prev[m]);
                }
            }
            assert forall|m: int, m2: int| 0 <= m < m2 < cur.len() implies cur[m] < cur[m2] by {
                assert(cur[m] == prev[m]);
                if m2 < prev.len() {
                    assert(cur[m2] == prev[m2]);
                } else {
                    assert(prev[m] < n - 1);
                }
            }
            assert forall|k: int|
                0 <= k < n && (if on_struct {
                    !names_route_method(#[trigger] attrs[k])
                } else {
                    !names_route_helper(attrs[k])
                }) implies cur.contains(k as usize) by {
                if k < n - 1 {
                    let m = choose|m: int| 0 <= m < prev.len() && prev[m] == k as usize;
                    assert(cur[m] == prev[m]);
                } else {
                    assert(cur[prev.len() as int] == k as usize);
                }
            }
        }
    }
}

/// A route macro's plan keeps on each field exactly its attributes other than
/// the route helper attributes, and on the struct exactly its attributes other
/// than the route-method attributes.
pub proof fn lemma_route_plan_strips_helpers(p: RoutePlan, item: StructDecl, t: Seq<RouteFieldView>, method: HttpMethod)
    requires
        plan_matches(p, item, t, method),
        item.attrs@.len() <= usize::MAX,
        item.fields matches StructFields::Named(fields) ==> forall|i: int|
            0 <= i < fields@.len() ==> (#[trigger] fields@[i]).attrs@.len() <= usize::MAX,
    ensures
        item.fields matches StructFields::Named(fields) && forall|i: int, m: int|
            0 <= i < fields@.len() && 0 <= m < p.kept_field_attrs@[i]@.len() ==> {
                let k = #[trigger] p.kept_field_attrs@[i]@[m] as int;
                0 <= k < fields@[i].attrs@.len() && !names_route_helper(fields@[i].attrs@[k])
            },
        forall|m: int|
            0 <= m < p.kept_struct_attrs@.len() ==> {
                let k = #[trigger] p.kept_struct_attrs@[m] as int;
                0 <= k < item.attrs@.len() && !names_route_method(item.attrs@[k])
            },
{
    if let StructFields::Named(fields) = item.fields {
        assert forall|i: int, m: int|
            0 <= i < fields@.len() && 0 <= m < p.kept_field_attrs@[i]@.len() implies {
                let k = #[trigger] p.kept_field_attrs@[i]@[m] as int;
                0 <= k < fields@[i].attrs@.len() && !names_route_helper(fields@[i].attrs@[k])
            } by {
            let attrs = fields@[i].attrs@;
            lemma_kept_attrs_strip_helpers(attrs, false, attrs.len() as int);
            assert(p.kept_field_attrs@[i]@ == kept_attrs(attrs, false, attrs.len() as int));
            assert(p.kept_field_attrs@[i]@[m] == kept_attrs(attrs, false, attrs.len() as int)[m]);
        }
    }
    lemma_kept_attrs_strip_helpers(item.attrs@, true, item.attrs@.len() as int);
    assert forall|m: int| 0 <= m < p.kept_struct_attrs@.len() implies {
        let k = #[trigger] p.kept_struct_attrs@[m] as int;
        0 <= k < item.attrs@.len() && !names_route_method(item.attrs@[k])
    } by {
        assert(p.kept_struct_attrs@[m] == kept_attrs(item.attrs@, true, item.attrs@.len() as int)[m]);
    }
}

/// The inline table written for `d` holds the pair `(key, value)`.
pub open spec fn item_holds(d: DependencyView, key: Seq<char>, value: TomlScalar) -> bool {
    dependency_item_model(d) matches ItemModel::InlineTable(pairs) && pairs.contains((key, Some(value)))
}

/// A pair of the written pairs appears, with its value, in the model.
proof fn lemma_pair_written(pairs: Seq<(Seq<char>, TomlScalar)>, i: int)
    requires
        0 <= i < pairs.len(),
    ensures
        pair_models(pairs).contains((pairs[i].0, Some(pairs[i].1))),
{
    assert(pair_models(pairs)[i] == (pairs[i].0, Some(pairs[i].1)));
}

/// Everything configured on a dependency reaches the entry written for it:
/// its git url, branch, tag and rev, its path, its version, its required
/// features and turning default features off each appear under their own
/// key; a bare string is written only for a crates.io dependency with just a
/// version.
pub proof fn lemma_dependency_item_carries_configuration(d: DependencyView)
    ensures
        d.source matches SourceView::Git { url, branch, tag, rev } ==> {
            &&& item_holds(d, "git"@, TomlScalar::Str(url))
            &&& branch matches Some(b) ==> item_holds(d, "branch"@, TomlScalar::Str(b))
            &&& tag matches Some(t) ==> item_holds(d, "tag"@, TomlScalar::Str(t))
            &&& rev matches Some(r) ==> item_holds(d, "rev"@, TomlScalar::Str(r))
        },
        d.source matches SourceView::Path { path } ==> {
            &&& item_holds(d, "path"@, TomlScalar::Str(path))
            &&& d.version matches Some(v) ==> item_holds(d, "version"@, TomlScalar::Str(v))
        },
        (d.source is CratesIo && d.version is Some) ==> (dependency_item_model(d) == ItemModel::Str(
            d.version->Some_0,
        ) || item_holds(d, "version"@, TomlScalar::Str(d.version->Some_0))),
        d.required_features.len() > 0 ==> item_holds(d, "features"@, TomlScalar::StrArray(d.required_features)),
        !d.default_features ==> item_holds(d, "default-features"@, TomlScalar::Bool(false)),
        dependency_item_model(d) is Str ==> d.source is CratesIo && d.version is Some
            && d.required_features.len() == 0 && d.default_features && dependency_item_model(d)
            == ItemModel::Str(d.version->Some_0),
{
    if !is_version_only(d) {
        let src = source_pairs(d);
        let feat = feature_pairs(d);
        let def = default_feature_pairs(d);
        let all = src + feat + def;
        match d.source {
            SourceView::Git { url, branch, tag, rev } => {
                let ob = optional_pair("branch"@, branch);
                let ot = optional_pair("tag"@, tag);
                lemma_pair_written(all, 0);
                if let Some(b) = branch {
                    assert(all[1] == ("branch"@, TomlScalar::Str(b)));
                    lemma_pair_written(all, 1);
                }
                if let Some(t) = tag {
                    assert(all[1int + ob.len()] == ("tag"@, TomlScalar::Str(t)));
                    lemma_pair_written(all, 1int + ob.len());
                }
                if let Some(r) = rev {
                    assert(all[1int + ob.len() + ot.len()] == ("rev"@, TomlScalar::Str(r)));
                    lemma_pair_written(all, 1int + ob.len() + ot.len());
                }
            },
            SourceView::Path { path } => {
                lemma_pair_written(all, 0);
                if let Some(v) = d.version {
                    assert(all[1] == ("version"@, TomlScalar::Str(v)));
                    lemma_pair_written(all, 1);
                }
            },
            SourceView::CratesIo => {
                if let Some(v) = d.version {
                    lemma_pair_written(all, 0);
                }
            },
        }
        if d.required_features.len() > 0 {
            assert(all[src.len() as int] == ("features"@, TomlScalar::StrArray(d.required_features)));
            lemma_pair_written(all, src.len() as int);
        }
        if !d.default_features {
            assert(all[src.len() + feat.len() as int] == ("default-features"@, TomlScalar::Bool(false)));
            lemma_pair_written(all, src.len() + feat.len() as int);
        }
    }
}

/// Every dependency a project type starts from or offers is for the
/// application itself, not a dev-dependency; among the offers is `serde_json`
/// at version 1, a plain crates.io dependency.
pub proof fn lemma_project_dependencies_are_application_dependencies(t: ProjectType)
    ensures
        forall|i: int|
            0 <= i < project_dependencies(t).required.len() ==> !(#[trigger] project_dependencies(t).required[i]).dev,
        forall|i: int|
            0 <= i < project_dependencies(t).optional.len() ==> !(#[trigger] project_dependencies(
                t,
            ).optional[i]).dependency.dev,
        exists|i: int|
            0 <= i < project_dependencies(t).optional.len() && {
                let o = #[trigger] project_dependencies(t).optional[i].dependency;
                &&& o.name == "serde_json"@
                &&& o.version == Some("1"@)
                &&& o.source is CratesIo
                &&& !o.dev
                &&& o.default_features
            },
{
    let ds = project_dependencies(t);
    assert(ds.optional[1].dependency.name == "serde_json"@);
}

/// The route methods have distinct names, each the method's name in upper
/// case: GET, POST, PUT, DELETE and PATCH.
pub proof fn lemma_method_names(a: HttpMethod, b: HttpMethod)
    ensures
        a != b ==> method_name_spec(a) != method_name_spec(b),
        method_name_spec(HttpMethod::Get) == "GET"@,
        method_name_spec(HttpMethod::Post) == "POST"@,
        method_name_spec(HttpMethod::Put) == "PUT"@,
        method_name_spec(HttpMethod::Delete) == "DELETE"@,
        method_name_spec(HttpMethod::Patch) == "PATCH"@,
{
    reveal_strlit("GET");
    reveal_strlit("POST");
    reveal_strlit("PUT");
    reveal_strlit("DELETE");
    reveal_strlit("PATCH");
    if a != b {
        let x = method_name_spec(a);
        let y = method_name_spec(b);
        assert(x.len() != y.len() || x[0] != y[0] || x[1] != y[1]);
    }
}

} // verus!
