//! Planning for the route macros (`#[get]`, `#[post]`, ...): which struct
//! fields become which request extractors, and which route structs are
//! rejected.  The caller describes the annotated struct with plain values
//! (`StructDecl`); the plan tells it what to emit.
use crate::text::{seq_contains, str_contains, str_eq};
use vstd::prelude::*;

verus! {

/// The value of `name = <value>` inside `#[path(...)]`.
#[derive(Debug)]
pub enum LitValue {
    /// A string literal, with its contents.
    Str(String),
    /// Any other expression.
    Other,
}

/// The arguments of a `#[path(...)]`-style list attribute.
#[derive(Debug)]
pub enum ListArgs {
    /// The arguments do not form a single `key = value` pair.
    Unparsable,
    /// One `key = value` pair; `key` is `Some` when it is a single identifier.
    NameValue { key: Option<String>, value: LitValue },
}

/// The shape of an attribute after its path.
#[derive(Debug)]
pub enum AttrArgs {
    /// `#[name]`
    Bare,
    /// `#[name(...)]`
    List(ListArgs),
    /// `#[name = ...]`
    NameValue,
}

/// One attribute on a struct or field; `name` is `Some` when the attribute's
/// path is a single identifier.
#[derive(Debug)]
pub struct AttrDecl {
    pub name: Option<String>,
    pub args: AttrArgs,
}

/// One field of a route struct.
#[derive(Debug)]
pub struct FieldDecl {
    pub ident: Option<String>,
    pub attrs: Vec<AttrDecl>,
}

/// The fields of a route struct.
#[derive(Debug)]
pub enum StructFields {
    Named(Vec<FieldDecl>),
    Unnamed,
    Unit,
}

/// The struct a route macro is applied to.
#[derive(Debug)]
pub struct StructDecl {
    pub name: String,
    pub attrs: Vec<AttrDecl>,
    pub fields: StructFields,
}

/// How a field of a route struct is filled from the request.
#[derive(Debug)]
pub enum FieldKind {
    State,
    /// `name` is the explicit path-variable name, if given.
    Path { name: Option<String> },
    QueryParams,
    RequestBody,
    Context,
}

/// A classified field: its kind, its position among the struct's fields and its name.
#[derive(Debug)]
pub struct RouteField {
    pub kind: FieldKind,
    pub field: usize,
    pub ident: String,
}

/// Why a macro invocation is rejected.  Positions are field, attribute or
/// argument indices in the order the caller gave them.
#[derive(Debug)]
pub enum MacroError {
    UnnamedField { field: usize },
    PathArgsUnparsable { field: usize, attr: usize },
    PathArgNotName { field: usize, attr: usize },
    PathNameNotString { field: usize, attr: usize },
    PathNameValueForm { field: usize, attr: usize },
    MissingRouteAttr { field: usize },
    FieldsNotNamed,
    DuplicateQueryParams,
    DuplicateRequestBody,
    DuplicateContext,
    PathNameNotInTemplate { field: usize, name: String },
    FieldNotInTemplate { field: usize },
    KeyNotIdent { arg: usize },
    ContextNotString { arg: usize },
    RoutesMissing,
    RoutesNotArray { arg: usize },
    RouteNotPath { arg: usize, item: usize },
    StateMissing,
    StateNotType { arg: usize },
    MainNotAsync,
}

/// Mathematical form of `FieldKind`.
pub enum KindView {
    State,
    Path(Option<Seq<char>>),
    QueryParams,
    RequestBody,
    Context,
}

/// Mathematical form of `RouteField`.
pub struct RouteFieldView {
    pub kind: KindView,
    pub field: usize,
    pub ident: Seq<char>,
}

/// Mathematical form of `MacroError`.
pub enum ErrorView {
    UnnamedField { field: usize },
    PathArgsUnparsable { field: usize, attr: usize },
    PathArgNotName { field: usize, attr: usize },
    PathNameNotString { field: usize, attr: usize },
    PathNameValueForm { field: usize, attr: usize },
    MissingRouteAttr { field: usize },
    FieldsNotNamed,
    DuplicateQueryParams,
    DuplicateRequestBody,
    DuplicateContext,
    PathNameNotInTemplate { field: usize, name: Seq<char> },
    FieldNotInTemplate { field: usize },
    KeyNotIdent { arg: usize },
    ContextNotString { arg: usize },
    RoutesMissing,
    RoutesNotArray { arg: usize },
    RouteNotPath { arg: usize, item: usize },
    StateMissing,
    StateNotType { arg: usize },
    MainNotAsync,
}

impl View for FieldKind {
    type V = KindView;

    open spec fn view(&self) -> KindView {
        match self {
            FieldKind::State => KindView::State,
            FieldKind::Path { name } => KindView::Path(
                match name {
                    Some(n) => Some(n@),
                    None => None,
                },
            ),
            FieldKind::QueryParams => KindView::QueryParams,
            FieldKind::RequestBody => KindView::RequestBody,
            FieldKind::Context => KindView::Context,
        }
    }
}

impl View for RouteField {
    type V = RouteFieldView;

    open spec fn view(&self) -> RouteFieldView {
        RouteFieldView { kind: self.kind@, field: self.field, ident: self.ident@ }
    }
}

impl View for MacroError {
    type V = ErrorView;

    open spec fn view(&self) -> ErrorView {
        match self {
            MacroError::UnnamedField { field } => ErrorView::UnnamedField { field: *field },
            MacroError::PathArgsUnparsable { field, attr } => ErrorView::PathArgsUnparsable {
                field: *field,
                attr: *attr,
            },
            MacroError::PathArgNotName { field, attr } => ErrorView::PathArgNotName {
                field: *field,
                attr: *attr,
            },
            MacroError::PathNameNotString { field, attr } => ErrorView::PathNameNotString {
                field: *field,
                attr: *attr,
            },
            MacroError::PathNameValueForm { field, attr } => ErrorView::PathNameValueForm {
                field: *field,
                attr: *attr,
            },
            MacroError::MissingRouteAttr { field } => ErrorView::MissingRouteAttr { field: *field },
            MacroError::FieldsNotNamed => ErrorView::FieldsNotNamed,
            MacroError::DuplicateQueryParams => ErrorView::DuplicateQueryParams,
            MacroError::DuplicateRequestBody => ErrorView::DuplicateRequestBody,
            MacroError::DuplicateContext => ErrorView::DuplicateContext,
            MacroError::PathNameNotInTemplate { field, name } => ErrorView::PathNameNotInTemplate {
                field: *field,
                name: name@,
            },
            MacroError::FieldNotInTemplate { field } => ErrorView::FieldNotInTemplate {
                field: *field,
            },
            MacroError::KeyNotIdent { arg } => ErrorView::KeyNotIdent { arg: *arg },
            MacroError::ContextNotString { arg } => ErrorView::ContextNotString { arg: *arg },
            MacroError::RoutesMissing => ErrorView::RoutesMissing,
            MacroError::RoutesNotArray { arg } => ErrorView::RoutesNotArray { arg: *arg },
            MacroError::RouteNotPath { arg, item } => ErrorView::RouteNotPath {
                arg: *arg,
                item: *item,
            },
            MacroError::StateMissing => ErrorView::StateMissing,
            MacroError::StateNotType { arg } => ErrorView::StateNotType { arg: *arg },
            MacroError::MainNotAsync => ErrorView::MainNotAsync,
        }
    }
}

/// `name` is the single identifier `s`.
pub open spec fn is_named(name: Option<String>, s: Seq<char>) -> bool {
    name matches Some(n) && n@ == s
}

/// Whether an optional identifier is exactly `s`.
pub fn name_is(name: &Option<String>, s: &str) -> (r: bool)
    ensures
        r == is_named(*name, s@),
{
    match name {
        Some(n) => str_eq(n.as_str(), s),
        None => false,
    }
}

/// What attribute `a` (number `attr` on field number `field`) says about the
/// field: nothing, a kind, or a rejection.
pub open spec fn attr_kind_spec(a: AttrDecl, field: usize, attr: usize) -> Option<
    Result<KindView, ErrorView>,
> {
    if is_named(a.name, "state"@) {
        Some(Ok(KindView::State))
    } else if is_named(a.name, "path"@) {
        Some(
            match a.args {
                AttrArgs::Bare => Ok(KindView::Path(None)),
                AttrArgs::List(ListArgs::Unparsable) => Err(
                    ErrorView::PathArgsUnparsable { field, attr },
                ),
                AttrArgs::List(ListArgs::NameValue { key, value }) => {
                    if !is_named(key, "name"@) {
                        Err(ErrorView::PathArgNotName { field, attr })
                    } else {
                        match value {
                            LitValue::Str(s) => Ok(KindView::Path(Some(s@))),
                            LitValue::Other => Err(ErrorView::PathNameNotString { field, attr }),
                        }
                    }
                },
                AttrArgs::NameValue => Err(ErrorView::PathNameValueForm { field, attr }),
            },
        )
    } else if is_named(a.name, "query_params"@) {
        Some(Ok(KindView::QueryParams))
    } else if is_named(a.name, "request_body"@) {
        Some(Ok(KindView::RequestBody))
    } else if is_named(a.name, "context"@) {
        Some(Ok(KindView::Context))
    } else {
        None
    }
}

/// The kind given by the first `n` attributes of field number `field`: the
/// last route attribute wins, and the first rejected one stops the scan.
pub open spec fn classify_attrs(attrs: Seq<AttrDecl>, field: usize, n: int) -> Result<
    Option<KindView>,
    ErrorView,
>
    decreases n,
{
    if n <= 0 {
        Ok(None)
    } else {
        match classify_attrs(attrs, field, n - 1) {
            Err(e) => Err(e),
            Ok(k) => match attr_kind_spec(attrs[n - 1], field, (n - 1) as usize) {
                None => Ok(k),
                Some(Ok(k2)) => Ok(Some(k2)),
                Some(Err(e)) => Err(e),
            },
        }
    }
}

/// A rejection within the first `n` attributes stays the result for every longer prefix.
proof fn lemma_classify_attrs_err_stays(attrs: Seq<AttrDecl>, field: usize, n: int, m: int)
    requires
        n <= m,
        classify_attrs(attrs, field, n) is Err,
    ensures
        classify_attrs(attrs, field, m) == classify_attrs(attrs, field, n),
    decreases m - n,
{
    if n < m {
        lemma_classify_attrs_err_stays(attrs, field, n, m - 1);
    }
}

/// How field number `i` is classified.
pub open spec fn classify_spec(f: FieldDecl, i: usize) -> Result<RouteFieldView, ErrorView> {
    match f.ident {
        None => Err(ErrorView::UnnamedField { field: i }),
        Some(ident) => match classify_attrs(f.attrs@, i, f.attrs@.len() as int) {
            Err(e) => Err(e),
            Ok(None) => Err(ErrorView::MissingRouteAttr { field: i }),
            Ok(Some(k)) => Ok(RouteFieldView { kind: k, field: i, ident: ident@ }),
        },
    }
}

/// What one attribute says about its field.
pub fn attr_kind(a: &AttrDecl, field: usize, attr: usize) -> (r: Option<Result<FieldKind, MacroError>>)
    ensures
        match attr_kind_spec(*a, field, attr) {
            None => r is None,
            Some(Ok(k)) => r matches Some(Ok(x)) && x@ == k,
            Some(Err(e)) => r matches Some(Err(x)) && x@ == e,
        },
{
    if name_is(&a.name, "state") {
        Some(Ok(FieldKind::State))
    } else if name_is(&a.name, "path") {
        Some(
            match &a.args {
                AttrArgs::Bare => Ok(FieldKind::Path { name: None }),
                AttrArgs::List(ListArgs::Unparsable) => Err(
                    MacroError::PathArgsUnparsable { field, attr },
                ),
                AttrArgs::List(ListArgs::NameValue { key, value }) => {
                    if !name_is(key, "name") {
                        Err(MacroError::PathArgNotName { field, attr })
                    } else {
                        match value {
                            LitValue::Str(s) => Ok(FieldKind::Path { name: Some(s.clone()) }),
                            LitValue::Other => Err(MacroError::PathNameNotString { field, attr }),
                        }
                    }
                },
                AttrArgs::NameValue => Err(MacroError::PathNameValueForm { field, attr }),
            },
        )
    } else if name_is(&a.name, "query_params") {
        Some(Ok(FieldKind::QueryParams))
    } else if name_is(&a.name, "request_body") {
        Some(Ok(FieldKind::RequestBody))
    } else if name_is(&a.name, "context") {
        Some(Ok(FieldKind::Context))
    } else {
        None
    }
}

/// Classifies field number `i` of a route struct by its route attribute.
pub fn classify_field(f: &FieldDecl, i: usize) -> (r: Result<RouteField, MacroError>)
    ensures
        match classify_spec(*f, i) {
            Ok(v) => r matches Ok(x) && x@ == v,
            Err(e) => r matches Err(x) && x@ == e,
        },
{
    let ident = match &f.ident {
        None => {
            return Err(MacroError::UnnamedField { field: i });
        },
        Some(x) => x.clone(),
    };
    let mut kind: Option<FieldKind> = None;
    let mut j: usize = 0;
    while j < f.attrs.len()
        invariant
            j <= f.attrs@.len(),
            f.ident == Some(ident),
            classify_attrs(f.attrs@, i, j as int) == Ok::<Option<KindView>, ErrorView>(
                match kind {
                    Some(k) => Some(k@),
                    None => None,
                },
            ),
        decreases f.attrs@.len() - j,
    {
        match attr_kind(&f.attrs[j], i, j) {
            None => {},
            Some(Ok(k)) => {
                kind = Some(k);
            },
            Some(Err(e)) => {
                proof {
                    lemma_classify_attrs_err_stays(f.attrs@, i, j + 1, f.attrs@.len() as int);
                }
                return Err(e);
            },
        }
        j = j + 1;
    }
    match kind {
        None => Err(MacroError::MissingRouteAttr { field: i }),
        Some(k) => Ok(RouteField { kind: k, field: i, ident }),
    }
}

/// The HTTP method a route macro registers its handler for.
#[derive(Debug, Clone, Copy, PartialEq, Eq, Structural)]
pub enum HttpMethod {
    Get,
    Post,
    Put,
    Delete,
    Patch,
}

/// The upper-case method name a route reports.
pub open spec fn method_name_spec(m: HttpMethod) -> Seq<char> {
    match m {
        HttpMethod::Get => "GET"@,
        HttpMethod::Post => "POST"@,
        HttpMethod::Put => "PUT"@,
        HttpMethod::Delete => "DELETE"@,
        HttpMethod::Patch => "PATCH"@,
    }
}

impl HttpMethod {
    /// The upper-case method name, e.g. `"GET"`.
    pub fn name(&self) -> (r: &'static str)
        ensures
            r@ == method_name_spec(*self),
    {
        match self {
            HttpMethod::Get => "GET",
            HttpMethod::Post => "POST",
            HttpMethod::Put => "PUT",
            HttpMethod::Delete => "DELETE",
            HttpMethod::Patch => "PATCH",
        }
    }
}

/// How the path variables reach the handler.
#[derive(Debug)]
pub enum PathExtractor {
    /// No field takes a path variable.
    NoPath,
    /// One field (by index) takes the single path variable.
    Single(usize),
    /// Several fields (by index, in order) take the path variables as a tuple.
    Tuple(Vec<usize>),
}

/// What a route macro emits for a struct that it accepts.
#[derive(Debug)]
pub struct RoutePlan {
    /// The classified fields in extractor order: the request body last,
    /// the rest in declaration order.
    pub fields: Vec<RouteField>,
    /// The path extractor, emitted before every other extractor.
    pub path: PathExtractor,
    /// For each field, the indices of the attributes it keeps (route attributes removed).
    pub kept_field_attrs: Vec<Vec<usize>>,
    /// The indices of the struct attributes kept (route-method attributes removed).
    pub kept_struct_attrs: Vec<usize>,
    /// Name of the generated handler function: the struct name and `_handler`.
    pub handler_name: String,
    pub method: HttpMethod,
}

/// Classification of the first `n` fields, in order; the first rejected field stops it.
pub open spec fn classify_fields(fields: Seq<FieldDecl>, n: int) -> Result<Seq<RouteFieldView>, ErrorView>
    decreases n,
{
    if n <= 0 {
        Ok(Seq::empty())
    } else {
        match classify_fields(fields, n - 1) {
            Err(e) => Err(e),
            Ok(s) => match classify_spec(fields[n - 1], (n - 1) as usize) {
                Err(e) => Err(e),
                Ok(v) => Ok(s.push(v)),
            },
        }
    }
}

/// A rejection among the first `n` fields stays the result for every longer prefix.
proof fn lemma_classify_fields_err_stays(fields: Seq<FieldDecl>, n: int, m: int)
    requires
        n <= m,
        classify_fields(fields, n) is Err,
    ensures
        classify_fields(fields, m) == classify_fields(fields, n),
    decreases m - n,
{
    if n < m {
        lemma_classify_fields_err_stays(fields, n, m - 1);
    }
}

/// The first `n` classified fields that are not the request body, in order.
pub open spec fn without_body(s: Seq<RouteFieldView>, n: int) -> Seq<RouteFieldView>
    decreases n,
{
    if n <= 0 {
        Seq::empty()
    } else if s[n - 1].kind is RequestBody {
        without_body(s, n - 1)
    } else {
        without_body(s, n - 1).push(s[n - 1])
    }
}

/// The first `n` classified fields that are the request body, in order.
pub open spec fn only_body(s: Seq<RouteFieldView>, n: int) -> Seq<RouteFieldView>
    decreases n,
{
    if n <= 0 {
        Seq::empty()
    } else if s[n - 1].kind is RequestBody {
        only_body(s, n - 1).push(s[n - 1])
    } else {
        only_body(s, n - 1)
    }
}

/// Extractor order: a stable sort that moves the request body to the end.
pub open spec fn request_body_last(s: Seq<RouteFieldView>) -> Seq<RouteFieldView> {
    without_body(s, s.len() as int) + only_body(s, s.len() as int)
}

/// A number for each kind, equal exactly when the kinds are.
pub open spec fn kind_class(k: KindView) -> int {
    match k {
        KindView::State => 0,
        KindView::Path(_) => 1,
        KindView::QueryParams => 2,
        KindView::RequestBody => 3,
        KindView::Context => 4,
    }
}

/// Some field before position `k` has class `c`.
pub open spec fn class_seen(t: Seq<RouteFieldView>, c: int, k: int) -> bool {
    exists|j: int| 0 <= j < k && kind_class(#[trigger] t[j].kind) == c
}

/// The rejection raised at position `k` for a second query, body or context field.
pub open spec fn duplicate_at(t: Seq<RouteFieldView>, k: int) -> Option<ErrorView> {
    match t[k].kind {
        KindView::QueryParams => if class_seen(t, 2, k) {
            Some(ErrorView::DuplicateQueryParams)
        } else {
            None
        },
        KindView::RequestBody => if class_seen(t, 3, k) {
            Some(ErrorView::DuplicateRequestBody)
        } else {
            None
        },
        KindView::Context => if class_seen(t, 4, k) {
            Some(ErrorView::DuplicateContext)
        } else {
            None
        },
        _ => None,
    }
}

/// The first duplicate rejection among the first `n` positions.
pub open spec fn first_duplicate(t: Seq<RouteFieldView>, n: int) -> Option<ErrorView>
    decreases n,
{
    if n <= 0 {
        None
    } else {
        match first_duplicate(t, n - 1) {
            Some(e) => Some(e),
            None => duplicate_at(t, n - 1),
        }
    }
}

/// `{name}`, the placeholder of a path variable in a route template.
pub open spec fn placeholder(name: Seq<char>) -> Seq<char> {
    seq!['{'] + name + seq!['}']
}

/// The rejection raised at position `k` for a path field whose variable the template lacks.
pub open spec fn path_error_at(t: Seq<RouteFieldView>, k: int, template: Seq<char>) -> Option<
    ErrorView,
> {
    match t[k].kind {
        KindView::Path(Some(name)) => if seq_contains(template, placeholder(name)) {
            None
        } else {
            Some(ErrorView::PathNameNotInTemplate { field: t[k].field, name })
        },
        KindView::Path(None) => if seq_contains(template, placeholder(t[k].ident)) {
            None
        } else {
            Some(ErrorView::FieldNotInTemplate { field: t[k].field })
        },
        _ => None,
    }
}

/// The first path rejection among the first `n` positions.
pub open spec fn first_path_error(t: Seq<RouteFieldView>, n: int, template: Seq<char>) -> Option<
    ErrorView,
>
    decreases n,
{
    if n <= 0 {
        None
    } else {
        match first_path_error(t, n - 1, template) {
            Some(e) => Some(e),
            None => path_error_at(t, n - 1, template),
        }
    }
}

/// The extractor-ordered fields of an accepted route struct, or why it is rejected:
/// first the field shape and classification, then duplicates, then path variables.
pub open spec fn route_fields_spec(item: StructDecl, template: Seq<char>) -> Result<
    Seq<RouteFieldView>,
    ErrorView,
> {
    match item.fields {
        StructFields::Named(fields) => match classify_fields(fields@, fields@.len() as int) {
            Err(e) => Err(e),
            Ok(s) => {
                let t = request_body_last(s);
                match first_duplicate(t, t.len() as int) {
                    Some(e) => Err(e),
                    None => match first_path_error(t, t.len() as int, template) {
                        Some(e) => Err(e),
                        None => Ok(t),
                    },
                }
            },
        },
        _ => Err(ErrorView::FieldsNotNamed),
    }
}

/// The field indices of the path fields among the first `n` positions, in order.
pub open spec fn path_field_indices(t: Seq<RouteFieldView>, n: int) -> Seq<usize>
    decreases n,
{
    if n <= 0 {
        Seq::empty()
    } else if t[n - 1].kind is Path {
        path_field_indices(t, n - 1).push(t[n - 1].field)
    } else {
        path_field_indices(t, n - 1)
    }
}

/// `p` is the extractor for the path fields `idx`.
pub open spec fn path_extractor_for(p: PathExtractor, idx: Seq<usize>) -> bool {
    match p {
        PathExtractor::NoPath => idx.len() == 0,
        PathExtractor::Single(i) => idx.len() == 1 && idx[0] == i,
        PathExtractor::Tuple(v) => idx.len() >= 2 && v@ == idx,
    }
}

/// The helper attributes that route structs put on fields.
pub open spec fn is_route_attr(a: AttrDecl) -> bool {
    is_named(a.name, "state"@) || is_named(a.name, "path"@) || is_named(a.name, "query_params"@)
        || is_named(a.name, "request_body"@) || is_named(a.name, "context"@)
}

/// The route-method attributes.
pub open spec fn is_method_attr(a: AttrDecl) -> bool {
    is_named(a.name, "get"@) || is_named(a.name, "post"@) || is_named(a.name, "put"@)
        || is_named(a.name, "delete"@) || is_named(a.name, "patch"@)
}

/// The attributes a route macro removes: route-method attributes on the
/// struct (`on_struct`), helper attributes on fields (otherwise).
pub open spec fn is_dropped_attr(a: AttrDecl, on_struct: bool) -> bool {
    if on_struct {
        is_method_attr(a)
    } else {
        is_route_attr(a)
    }
}

/// Indices of the first `n` attributes that are kept, in order.
pub open spec fn kept_attrs(attrs: Seq<AttrDecl>, on_struct: bool, n: int) -> Seq<usize>
    decreases n,
{
    if n <= 0 {
        Seq::empty()
    } else if is_dropped_attr(attrs[n - 1], on_struct) {
        kept_attrs(attrs, on_struct, n - 1)
    } else {
        kept_attrs(attrs, on_struct, n - 1).push((n - 1) as usize)
    }
}

/// The views of a list of classified fields.
pub open spec fn fields_view(v: Seq<RouteField>) -> Seq<RouteFieldView> {
    v.map_values(|r: RouteField| r@)
}

/// The plan `p` is the one for accepting `item` as a route whose fields are `t`.
pub open spec fn plan_matches(p: RoutePlan, item: StructDecl, t: Seq<RouteFieldView>, method: HttpMethod) -> bool {
    &&& fields_view(p.fields@) == t
    &&& path_extractor_for(p.path, path_field_indices(t, t.len() as int))
    &&& item.fields matches StructFields::Named(fields) && p.kept_field_attrs@.len() == fields@.len()
        && forall|i: int|
        0 <= i < fields@.len() ==> #[trigger] p.kept_field_attrs@[i]@ == kept_attrs(
            fields@[i].attrs@,
            false,
            fields@[i].attrs@.len() as int,
        )
    &&& p.kept_struct_attrs@ == kept_attrs(item.attrs@, true, item.attrs@.len() as int)
    &&& p.handler_name@ == item.name@ + "_handler"@
    &&& p.method == method
}

/// Whether a route macro removes attribute `a`.
pub fn dropped_attr(a: &AttrDecl, on_struct: bool) -> (r: bool)
    ensures
        r == is_dropped_attr(*a, on_struct),
{
    if on_struct {
        name_is(&a.name, "get") || name_is(&a.name, "post") || name_is(&a.name, "put")
            || name_is(&a.name, "delete") || name_is(&a.name, "patch")
    } else {
        name_is(&a.name, "state") || name_is(&a.name, "path") || name_is(&a.name, "query_params")
            || name_is(&a.name, "request_body") || name_is(&a.name, "context")
    }
}

/// Indices of the attributes a route macro keeps, in order.
pub fn kept_attr_indices(attrs: &Vec<AttrDecl>, on_struct: bool) -> (r: Vec<usize>)
    ensures
        r@ == kept_attrs(attrs@, on_struct, attrs@.len() as int),
{
    let mut r: Vec<usize> = Vec::new();
    let mut j: usize = 0;
    while j < attrs.len()
        invariant
            j <= attrs@.len(),
            r@ == kept_attrs(attrs@, on_struct, j as int),
        decreases attrs@.len() - j,
    {
        if !dropped_attr(&attrs[j], on_struct) {
            r.push(j);
        }
        j = j + 1;
    }
    r
}

/// Classifies every field, in order, and puts them in extractor order.
fn classify_in_extractor_order(fields: &Vec<FieldDecl>) -> (r: Result<Vec<RouteField>, MacroError>)
    ensures
        match classify_fields(fields@, fields@.len() as int) {
            Ok(s) => r matches Ok(v) && fields_view(v@) == request_body_last(s),
            Err(e) => r matches Err(x) && x@ == e,
        },
{
    let mut others: Vec<RouteField> = Vec::new();
    let mut bodies: Vec<RouteField> = Vec::new();
    let ghost mut s: Seq<RouteFieldView> = Seq::empty();
    let mut i: usize = 0;
    while i < fields.len()
        invariant
            i <= fields@.len(),
            classify_fields(fields@, i as int) == Ok::<Seq<RouteFieldView>, ErrorView>(s),
            s.len() == i,
            fields_view(others@) == without_body(s, i as int),
            fields_view(bodies@) == only_body(s, i as int),
        decreases fields@.len() - i,
    {
        match classify_field(&fields[i], i) {
            Err(e) => {
                proof {
                    lemma_classify_fields_err_stays(fields@, i + 1, fields@.len() as int);
                }
                return Err(e);
            },
            Ok(rf) => {
                let ghost v = rf@;
                let is_body = match rf.kind {
                    FieldKind::RequestBody => true,
                    _ => false,
                };
                if is_body {
                    bodies.push(rf);
                } else {
                    others.push(rf);
                }
                proof {
                    let s2 = s.push(v);
                    assert(s2.drop_last() =~= s);
                    lemma_without_body_prefix(s2, s, i as int);
                    lemma_only_body_prefix(s2, s, i as int);
                    assert(fields_view(others@) =~= without_body(s2, i + 1));
                    assert(fields_view(bodies@) =~= only_body(s2, i + 1));
                    s = s2;
                }
            },
        }
        i = i + 1;
    }
    let ghost left = fields_view(others@);
    let ghost right = fields_view(bodies@);
    others.append(&mut bodies);
    assert(fields_view(others@) =~= left + right);
    Ok(others)
}

/// `without_body` only reads the first `n` positions.
proof fn lemma_without_body_prefix(s2: Seq<RouteFieldView>, s: Seq<RouteFieldView>, n: int)
    requires
        0 <= n <= s.len(),
        s.len() <= s2.len(),
        forall|k: int| 0 <= k < s.len() ==> s2[k] == s[k],
    ensures
        without_body(s2, n) == without_body(s, n),
    decreases n,
{
    if n > 0 {
        lemma_without_body_prefix(s2, s, n - 1);
    }
}

/// `only_body` only reads the first `n` positions.
proof fn lemma_only_body_prefix(s2: Seq<RouteFieldView>, s: Seq<RouteFieldView>, n: int)
    requires
        0 <= n <= s.len(),
        s.len() <= s2.len(),
        forall|k: int| 0 <= k < s.len() ==> s2[k] == s[k],
    ensures
        only_body(s2, n) == only_body(s, n),
    decreases n,
{
    if n > 0 {
        lemma_only_body_prefix(s2, s, n - 1);
    }
}

/// A rejection found among the first `n` positions stays the first one.
proof fn lemma_first_duplicate_stays(t: Seq<RouteFieldView>, n: int, m: int)
    requires
        n <= m,
        first_duplicate(t, n) is Some,
    ensures
        first_duplicate(t, m) == first_duplicate(t, n),
    decreases m - n,
{
    if n < m {
        lemma_first_duplicate_stays(t, n, m - 1);
    }
}

/// A rejection found among the first `n` positions stays the first one.
proof fn lemma_first_path_error_stays(t: Seq<RouteFieldView>, template: Seq<char>, n: int, m: int)
    requires
        n <= m,
        first_path_error(t, n, template) is Some,
    ensures
        first_path_error(t, m, template) == first_path_error(t, n, template),
    decreases m - n,
{
    if n < m {
        lemma_first_path_error_stays(t, template, n, m - 1);
    }
}

/// The first duplicate query, body or context field, in extractor order.
fn check_duplicates(t: &Vec<RouteField>) -> (r: Option<MacroError>)
    ensures
        match first_duplicate(fields_view(t@), t@.len() as int) {
            None => r is None,
            Some(e) => r matches Some(x) && x@ == e,
        },
{
    let ghost tv = fields_view(t@);
    let mut seen_query = false;
    let mut seen_body = false;
    let mut seen_ctx = false;
    let mut k: usize = 0;
    while k < t.len()
        invariant
            k <= t@.len(),
            tv == fields_view(t@),
            tv.len() == t@.len(),
            seen_query == class_seen(tv, 2, k as int),
            seen_body == class_seen(tv, 3, k as int),
            seen_ctx == class_seen(tv, 4, k as int),
            first_duplicate(tv, k as int) is None,
        decreases t@.len() - k,
    {
        assert(tv[k as int] == t@[k as int]@);
        match t[k].kind {
            FieldKind::QueryParams => {
                if seen_query {
                    proof {
                        lemma_first_duplicate_stays(tv, k + 1, tv.len() as int);
                    }
                    return Some(MacroError::DuplicateQueryParams);
                }
                seen_query = true;
            },
            FieldKind::RequestBody => {
                if seen_body {
                    proof {
                        lemma_first_duplicate_stays(tv, k + 1, tv.len() as int);
                    }
                    return Some(MacroError::DuplicateRequestBody);
                }
                seen_body = true;
            },
            FieldKind::Context => {
                if seen_ctx {
                    proof {
                        lemma_first_duplicate_stays(tv, k + 1, tv.len() as int);
                    }
                    return Some(MacroError::DuplicateContext);
                }
                seen_ctx = true;
            },
            _ => {},
        }
        proof {
            assert forall|c: int| #![trigger class_seen(tv, c, k + 1)]
                class_seen(tv, c, k + 1) == (class_seen(tv, c, k as int) || kind_class(
                    tv[k as int].kind,
                ) == c) by {
                if class_seen(tv, c, k + 1) && !class_seen(tv, c, k as int) {
                    let j = choose|j: int| 0 <= j < k + 1 && kind_class(#[trigger] tv[j].kind) == c;
                    assert(j == k);
                }
                if kind_class(tv[k as int].kind) == c {
                    assert(0 <= k < k + 1 && kind_class(tv[k as int].kind) == c);
                }
            }
            assert(class_seen(tv, 2, k + 1) == (class_seen(tv, 2, k as int) || kind_class(tv[k as int].kind) == 2));
            assert(class_seen(tv, 3, k + 1) == (class_seen(tv, 3, k as int) || kind_class(tv[k as int].kind) == 3));
            assert(class_seen(tv, 4, k + 1) == (class_seen(tv, 4, k as int) || kind_class(tv[k as int].kind) == 4));
        }
        k = k + 1;
    }
    None
}

/// `{name}` as a string.
pub fn placeholder_of(name: &str) -> (r: String)
    ensures
        r@ == placeholder(name@),
{
    proof {
        reveal_strlit("{");
        reveal_strlit("}");
    }
    let mut r = String::from_str("{");
    r.append(name);
    r.append("}");
    assert(r@ =~= placeholder(name@));
    r
}

/// The first path field whose variable does not occur in `template`, in extractor order.
fn check_path_vars(t: &Vec<RouteField>, template: &str) -> (r: Option<MacroError>)
    ensures
        match first_path_error(fields_view(t@), t@.len() as int, template@) {
            None => r is None,
            Some(e) => r matches Some(x) && x@ == e,
        },
{
    let ghost tv = fields_view(t@);
    let mut k: usize = 0;
    while k < t.len()
        invariant
            k <= t@.len(),
            tv == fields_view(t@),
            tv.len() == t@.len(),
            first_path_error(tv, k as int, template@) is None,
        decreases t@.len() - k,
    {
        assert(tv[k as int] == t@[k as int]@);
        match &t[k].kind {
            FieldKind::Path { name: Some(name) } => {
                let ph = placeholder_of(name.as_str());
                if !str_contains(template, ph.as_str()) {
                    proof {
                        lemma_first_path_error_stays(tv, template@, k + 1, tv.len() as int);
                    }
                    return Some(MacroError::PathNameNotInTemplate { field: t[k].field, name: name.clone() });
                }
            },
            FieldKind::Path { name: None } => {
                let ph = placeholder_of(t[k].ident.as_str());
                if !str_contains(template, ph.as_str()) {
                    proof {
                        lemma_first_path_error_stays(tv, template@, k + 1, tv.len() as int);
                    }
                    return Some(MacroError::FieldNotInTemplate { field: t[k].field });
                }
            },
            _ => {},
        }
        k = k + 1;
    }
    None
}

/// The field indices of the path fields, in extractor order, as an extractor.
fn path_extractor(t: &Vec<RouteField>) -> (r: PathExtractor)
    ensures
        path_extractor_for(r, path_field_indices(fields_view(t@), t@.len() as int)),
{
    let ghost tv = fields_view(t@);
    let mut idx: Vec<usize> = Vec::new();
    let mut k: usize = 0;
    while k < t.len()
        invariant
            k <= t@.len(),
            tv == fields_view(t@),
            tv.len() == t@.len(),
            idx@ == path_field_indices(tv, k as int),
        decreases t@.len() - k,
    {
        assert(tv[k as int] == t@[k as int]@);
        match &t[k].kind {
            FieldKind::Path { .. } => {
                idx.push(t[k].field);
            },
            _ => {},
        }
        k = k + 1;
    }
    if idx.len() == 0 {
        PathExtractor::NoPath
    } else if idx.len() == 1 {
        PathExtractor::Single(idx[0])
    } else {
        PathExtractor::Tuple(idx)
    }
}

/// Plans the expansion of a route macro (`#[get("/...")]` and its siblings)
/// applied to `item`, with route `template`.  The struct is rejected when its
/// fields are not named, a field lacks a route attribute or carries a bad
/// `#[path]`, a query, body or context field appears twice, or a path field's
/// variable is missing from the template.
pub fn expand_route_macro(template: &str, item: &StructDecl, method: HttpMethod) -> (r: Result<
    RoutePlan,
    MacroError,
>)
    ensures
        match route_fields_spec(*item, template@) {
            Err(e) => r matches Err(x) && x@ == e,
            Ok(t) => r matches Ok(p) && plan_matches(p, *item, t, method),
        },
{
    let fields = match &item.fields {
        StructFields::Named(fields) => fields,
        _ => {
            return Err(MacroError::FieldsNotNamed);
        },
    };
    let sorted = match classify_in_extractor_order(fields) {
        Ok(v) => v,
        Err(e) => {
            return Err(e);
        },
    };
    match check_duplicates(&sorted) {
        Some(e) => {
            return Err(e);
        },
        None => {},
    }
    match check_path_vars(&sorted, template) {
        Some(e) => {
            return Err(e);
        },
        None => {},
    }
    let path = path_extractor(&sorted);
    let mut kept_field_attrs: Vec<Vec<usize>> = Vec::new();
    let mut i: usize = 0;
    while i < fields.len()
        invariant
            i <= fields@.len(),
            kept_field_attrs@.len() == i,
            forall|j: int|
                0 <= j < i ==> #[trigger] kept_field_attrs@[j]@ == kept_attrs(
                    fields@[j].attrs@,
                    false,
                    fields@[j].attrs@.len() as int,
                ),
        decreases fields@.len() - i,
    {
        kept_field_attrs.push(kept_attr_indices(&fields[i].attrs, false));
        i = i + 1;
    }
    let kept_struct_attrs = kept_attr_indices(&item.attrs, true);
    let mut handler_name = item.name.clone();
    handler_name.append("_handler");
    Ok(RoutePlan { fields: sorted, path, kept_field_attrs, kept_struct_attrs, handler_name, method })
}

/// What the attribute-argument parser found in the value of one `key = value`
/// argument of `#[controller(...)]` or `#[main(...)]`.
#[derive(Debug)]
pub struct ArgValue {
    /// The contents, when the value is a string literal.
    pub str_lit: Option<String>,
    /// Whether the value's tokens also form a type.
    pub is_type: bool,
    /// When the value is an array `[...]`: for each element, whether it is a path.
    pub array: Option<Vec<bool>>,
}

/// One `key = value` argument; `key` is `Some` when it is a single identifier.
#[derive(Debug)]
pub struct MacroArg {
    pub key: Option<String>,
    pub value: ArgValue,
}

/// The first argument among the first `n` whose key is not a single identifier.
pub open spec fn first_non_ident_key(args: Seq<MacroArg>, n: int) -> Option<usize>
    decreases n,
{
    if n <= 0 {
        None
    } else {
        match first_non_ident_key(args, n - 1) {
            Some(i) => Some(i),
            None => if args[n - 1].key is None {
                Some((n - 1) as usize)
            } else {
                None
            },
        }
    }
}

/// `i` is the first argument whose key is `key`.
pub open spec fn is_first_key(args: Seq<MacroArg>, key: Seq<char>, i: int) -> bool {
    &&& 0 <= i < args.len()
    &&& is_named(args[i].key, key)
    &&& forall|j: int| 0 <= j < i ==> !is_named(#[trigger] args[j].key, key)
}

/// No argument has key `key`.
pub open spec fn key_absent(args: Seq<MacroArg>, key: Seq<char>) -> bool {
    forall|j: int| 0 <= j < args.len() ==> !is_named(#[trigger] args[j].key, key)
}

/// Checks that every argument key is a single identifier; the first that is
/// not is reported.
pub fn parse_kv_args(args: &Vec<MacroArg>) -> (r: Result<(), MacroError>)
    ensures
        match first_non_ident_key(args@, args@.len() as int) {
            None => r is Ok,
            Some(i) => r matches Err(x) && x@ == ErrorView::KeyNotIdent { arg: i },
        },
{
    let mut i: usize = 0;
    while i < args.len()
        invariant
            i <= args@.len(),
            first_non_ident_key(args@, i as int) is None,
        decreases args@.len() - i,
    {
        if args[i].key.is_none() {
            proof {
                lemma_first_non_ident_key_stays(args@, i + 1, args@.len() as int);
            }
            return Err(MacroError::KeyNotIdent { arg: i });
        }
        i = i + 1;
    }
    Ok(())
}

/// A non-identifier key found among the first `n` arguments stays the first one.
proof fn lemma_first_non_ident_key_stays(args: Seq<MacroArg>, n: int, m: int)
    requires
        n <= m,
        first_non_ident_key(args, n) is Some,
    ensures
        first_non_ident_key(args, m) == first_non_ident_key(args, n),
    decreases m - n,
{
    if n < m {
        lemma_first_non_ident_key_stays(args, n, m - 1);
    }
}

/// The index of the first argument whose key is `key`.
pub fn find_key_value(args: &Vec<MacroArg>, key: &str) -> (r: Option<usize>)
    ensures
        match r {
            Some(i) => is_first_key(args@, key@, i as int),
            None => key_absent(args@, key@),
        },
{
    let mut i: usize = 0;
    while i < args.len()
        invariant
            i <= args@.len(),
            forall|j: int| 0 <= j < i ==> !is_named(#[trigger] args@[j].key, key@),
        decreases args@.len() - i,
    {
        if name_is(&args[i].key, key) {
            return Some(i);
        }
        i = i + 1;
    }
    None
}

/// The first element among the first `n` that is not a path.
pub open spec fn first_non_path(items: Seq<bool>, n: int) -> Option<usize>
    decreases n,
{
    if n <= 0 {
        None
    } else {
        match first_non_path(items, n - 1) {
            Some(k) => Some(k),
            None => if !items[n - 1] {
                Some((n - 1) as usize)
            } else {
                None
            },
        }
    }
}

/// A non-path element found among the first `n` stays the first one.
proof fn lemma_first_non_path_stays(items: Seq<bool>, n: int, m: int)
    requires
        n <= m,
        first_non_path(items, n) is Some,
    ensures
        first_non_path(items, m) == first_non_path(items, n),
    decreases m - n,
{
    if n < m {
        lemma_first_non_path_stays(items, n, m - 1);
    }
}

/// Checks that argument number `arg` is an array of paths and returns how many
/// paths it holds.
pub fn parse_path_array(value: &ArgValue, arg: usize) -> (r: Result<usize, MacroError>)
    ensures
        match value.array {
            None => r matches Err(x) && x@ == ErrorView::RoutesNotArray { arg },
            Some(items) => match first_non_path(items@, items@.len() as int) {
                Some(k) => r matches Err(x) && x@ == ErrorView::RouteNotPath { arg, item: k },
                None => r == Ok::<usize, MacroError>(items.len()),
            },
        },
{
    match &value.array {
        None => Err(MacroError::RoutesNotArray { arg }),
        Some(items) => {
            let mut k: usize = 0;
            while k < items.len()
                invariant
                    k <= items@.len(),
                    value.array == Some(*items),
                    first_non_path(items@, k as int) is None,
                decreases items@.len() - k,
            {
                if !items[k] {
                    proof {
                        lemma_first_non_path_stays(items@, k + 1, items@.len() as int);
                    }
                    return Err(MacroError::RouteNotPath { arg, item: k });
                }
                k = k + 1;
            }
            Ok(items.len())
        },
    }
}

/// What `#[controller(context = "...", routes = [...])]` emits.
#[derive(Debug)]
pub struct ControllerPlan {
    /// The context every route of the controller is nested under (`""` when not given).
    pub context: String,
    /// The argument holding the routes array.
    pub routes_arg: usize,
    /// How many routes the array holds; each is registered in order.
    pub route_count: usize,
}

/// The controller plan for `args`: the context, the routes argument and the
/// number of routes, or why the arguments are rejected.
pub open spec fn controller_spec(args: Seq<MacroArg>) -> Result<(Seq<char>, usize, usize), ErrorView> {
    match first_non_ident_key(args, args.len() as int) {
        Some(i) => Err(ErrorView::KeyNotIdent { arg: i }),
        None => {
            let ctx: Result<Seq<char>, ErrorView> = if key_absent(args, "context"@) {
                Ok(Seq::empty())
            } else {
                let i = choose|i: int| is_first_key(args, "context"@, i);
                match args[i].value.str_lit {
                    Some(s) => Ok(s@),
                    None => Err(ErrorView::ContextNotString { arg: i as usize }),
                }
            };
            match ctx {
                Err(e) => Err(e),
                Ok(c) => if key_absent(args, "routes"@) {
                    Err(ErrorView::RoutesMissing)
                } else {
                    let i = choose|i: int| is_first_key(args, "routes"@, i);
                    match args[i].value.array {
                        None => Err(ErrorView::RoutesNotArray { arg: i as usize }),
                        Some(items) => match first_non_path(items@, items@.len() as int) {
                            Some(k) => Err(ErrorView::RouteNotPath { arg: i as usize, item: k }),
                            None => Ok((c, i as usize, items.len())),
                        },
                    }
                },
            }
        },
    }
}

/// At most one index is the first with a given key.
proof fn lemma_first_key_unique(args: Seq<MacroArg>, key: Seq<char>, i: int, j: int)
    requires
        is_first_key(args, key, i),
        is_first_key(args, key, j),
    ensures
        i == j,
{
}

/// Plans `#[controller(...)]`: keys must be identifiers, `context` (optional)
/// must be a string literal, `routes` must be given as an array of paths.
pub fn plan_controller(args: &Vec<MacroArg>) -> (r: Result<ControllerPlan, MacroError>)
    ensures
        match controller_spec(args@) {
            Err(e) => r matches Err(x) && x@ == e,
            Ok((c, a, n)) => r matches Ok(p) && p.context@ == c && p.routes_arg == a
                && p.route_count == n,
        },
{
    match parse_kv_args(args) {
        Err(e) => {
            return Err(e);
        },
        Ok(()) => {},
    }
    let context = match find_key_value(args, "context") {
        None => String::new(),
        Some(i) => {
            proof {
                assert forall|j: int| is_first_key(args@, "context"@, j) implies j == i by {
                    lemma_first_key_unique(args@, "context"@, i as int, j);
                }
            }
            match &args[i].value.str_lit {
                Some(s) => s.clone(),
                None => {
                    return Err(MacroError::ContextNotString { arg: i });
                },
            }
        },
    };
    match find_key_value(args, "routes") {
        None => Err(MacroError::RoutesMissing),
        Some(i) => {
            proof {
                assert forall|j: int| is_first_key(args@, "routes"@, j) implies j == i by {
                    lemma_first_key_unique(args@, "routes"@, i as int, j);
                }
            }
            match parse_path_array(&args[i].value, i) {
                Err(e) => Err(e),
                Ok(n) => Ok(ControllerPlan { context, routes_arg: i, route_count: n }),
            }
        },
    }
}

/// What `#[main(state = ...)]` emits: the application state type is the value
/// of argument `state_arg`.
#[derive(Debug)]
pub struct MainPlan {
    pub state_arg: usize,
}

/// The argument holding the state type, or why `#[main(...)]` is rejected.
pub open spec fn main_spec(args: Seq<MacroArg>, is_async: bool) -> Result<usize, ErrorView> {
    match first_non_ident_key(args, args.len() as int) {
        Some(i) => Err(ErrorView::KeyNotIdent { arg: i }),
        None => if key_absent(args, "state"@) {
            Err(ErrorView::StateMissing)
        } else {
            let i = choose|i: int| is_first_key(args, "state"@, i);
            if !args[i].value.is_type {
                Err(ErrorView::StateNotType { arg: i as usize })
            } else if !is_async {
                Err(ErrorView::MainNotAsync)
            } else {
                Ok(i as usize)
            }
        },
    }
}

/// Plans `#[main(state = Type)]` on a function: keys must be identifiers,
/// `state` must be given as a type, and the function must be `async`.
pub fn plan_main(args: &Vec<MacroArg>, is_async: bool) -> (r: Result<MainPlan, MacroError>)
    ensures
        match main_spec(args@, is_async) {
            Err(e) => r matches Err(x) && x@ == e,
            Ok(i) => r matches Ok(p) && p.state_arg == i,
        },
{
    match parse_kv_args(args) {
        Err(e) => {
            return Err(e);
        },
        Ok(()) => {},
    }
    match find_key_value(args, "state") {
        None => Err(MacroError::StateMissing),
        Some(i) => {
            proof {
                assert forall|j: int| is_first_key(args@, "state"@, j) implies j == i by {
                    lemma_first_key_unique(args@, "state"@, i as int, j);
                }
            }
            if !args[i].value.is_type {
                Err(MacroError::StateNotType { arg: i })
            } else if !is_async {
                Err(MacroError::MainNotAsync)
            } else {
                Ok(MainPlan { state_arg: i })
            }
        },
    }
}

/// Whether a controller's routes are nested under its context: not when the
/// context is empty or `/`.
pub fn nests_under_context(context: &str) -> (r: bool)
    ensures
        r == !(context@.len() == 0 || context@ == "/"@),
{
    let c = crate::text::chars_of(context);
    !(c.len() == 0 || str_eq(context, "/"))
}

} // verus!
