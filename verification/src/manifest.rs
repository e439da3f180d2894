//! Writing a dependency into a `Cargo.toml` with `toml_edit`, keeping the
//! rest of the document as it was.
use crate::dependency::{Dependency, DependencySource, DependencyView, SourceView};
use vstd::prelude::*;

verus! {

#[verifier::external_type_specification]
#[verifier::external_body]
pub struct ExDocumentMut(toml_edit::DocumentMut);

#[verifier::external_type_specification]
#[verifier::external_body]
pub struct ExTomlError(toml_edit::TomlError);

#[verifier::external_type_specification]
#[verifier::external_body]
pub struct ExItem(toml_edit::Item);

#[verifier::external_type_specification]
#[verifier::external_body]
pub struct ExValue(toml_edit::Value);

#[verifier::external_type_specification]
#[verifier::external_body]
pub struct ExInlineTable(toml_edit::InlineTable);

#[verifier::external_type_specification]
#[verifier::external_body]
pub struct ExArray(toml_edit::Array);

/// What the library reads of a `toml_edit` item on the right-hand side of
/// `name = ...`.
pub enum ItemModel {
    /// A string value.
    Str(Seq<char>),
    /// An inline table: its keys in order, each with the string, boolean or
    /// string array it holds (`None` for any other value).
    InlineTable(Seq<(Seq<char>, Option<TomlScalar>)>),
    /// Anything else.
    Other,
}

/// What the library reads of a top-level item of a document.
pub enum TopModel {
    /// A table or an inline table, with the model of the item under each of
    /// its keys that holds one.
    Table(Map<Seq<char>, ItemModel>),
    /// Any other item.
    Other,
}

/// What the library reads of a document: each top-level key that holds an
/// item, with the model of that item.
pub type DocModel = Map<Seq<char>, TopModel>;

/// The string, boolean or array of strings that a `toml_edit::Value` holds;
/// `None` for any other value.
pub uninterp spec fn toml_value_model(v: toml_edit::Value) -> Option<TomlScalar>;

/// The strings of a `toml_edit::Array` whose values are all strings, in order.
pub uninterp spec fn toml_array_strings(a: toml_edit::Array) -> Option<Seq<Seq<char>>>;

/// The keys of a `toml_edit::InlineTable` in order, each with the model of its value.
pub uninterp spec fn toml_inline_table_pairs(t: toml_edit::InlineTable) -> Seq<(Seq<char>, Option<TomlScalar>)>;

/// The model of a `toml_edit::Item`: a string value, an inline table value,
/// or `Other` for anything else (including `Item::None`).
pub uninterp spec fn toml_item_model(i: toml_edit::Item) -> ItemModel;

/// The model of a `toml_edit::DocumentMut`.
pub uninterp spec fn toml_document_model(doc: toml_edit::DocumentMut) -> DocModel;

/// The model of the document `raw` parses to, or `None` when `raw` is not TOML.
pub uninterp spec fn toml_parse_model(raw: Seq<char>) -> Option<DocModel>;

/// What `doc.to_string()` gives.
pub uninterp spec fn toml_document_text(doc: toml_edit::DocumentMut) -> Seq<char>;

/// The keys of inline-table pairs, in order.
pub open spec fn pair_keys(pairs: Seq<(Seq<char>, Option<TomlScalar>)>) -> Seq<Seq<char>> {
    pairs.map_values(|p: (Seq<char>, Option<TomlScalar>)| p.0)
}

/// The items under top-level key `key`: those of its table, none when it is absent.
pub open spec fn entries_of(m: DocModel, key: Seq<char>) -> Map<Seq<char>, ItemModel> {
    if m.contains_key(key) {
        match m[key] {
            TopModel::Table(e) => e,
            TopModel::Other => Map::empty(),
        }
    } else {
        Map::empty()
    }
}

/// Top-level key `key` can receive entries: it is absent or a table.
pub open spec fn table_usable(m: DocModel, key: Seq<char>) -> bool {
    !m.contains_key(key) || m[key] is Table
}

/// `toml_edit::value(s)`: an item holding the string `s`.
#[verifier::external_body]
fn toml_string_item_of(s: &str) -> (r: toml_edit::Item)
    ensures
        toml_item_model(r) == ItemModel::Str(s@),
{
    toml_edit::value(s)
}

/// `toml_edit::Value::from(s)`: a string value.
#[verifier::external_body]
fn toml_string_value_of(s: &str) -> (r: toml_edit::Value)
    ensures
        toml_value_model(r) == Some(TomlScalar::Str(s@)),
{
    toml_edit::Value::from(s)
}

/// `toml_edit::Value::from(b)`: a boolean value.
#[verifier::external_body]
fn toml_bool_value_of(b: bool) -> (r: toml_edit::Value)
    ensures
        toml_value_model(r) == Some(TomlScalar::Bool(b)),
{
    toml_edit::Value::from(b)
}

/// `toml_edit::Array::new()`: an empty array.
#[verifier::external_body]
fn toml_array_new() -> (r: toml_edit::Array)
    ensures
        toml_array_strings(r) == Some(Seq::<Seq<char>>::empty()),
{
    toml_edit::Array::new()
}

/// `Array::push(s)`: appends a string value.
#[verifier::external_body]
fn toml_array_push(a: &mut toml_edit::Array, s: &str)
    ensures
        toml_array_strings(*old(a)) matches Some(items) ==> toml_array_strings(*final(a)) == Some(
            items.push(s@),
        ),
{
    a.push(s)
}

/// `toml_edit::Value::Array(a)`.
#[verifier::external_body]
fn toml_array_value_of(a: toml_edit::Array) -> (r: toml_edit::Value)
    ensures
        toml_array_strings(a) matches Some(items) ==> toml_value_model(r) == Some(TomlScalar::StrArray(items)),
{
    toml_edit::Value::Array(a)
}

/// `toml_edit::InlineTable::new()`: an empty inline table.
#[verifier::external_body]
fn toml_inline_table_new() -> (r: toml_edit::InlineTable)
    ensures
        toml_inline_table_pairs(r) == Seq::<(Seq<char>, Option<TomlScalar>)>::empty(),
{
    toml_edit::InlineTable::new()
}

/// `InlineTable::insert(key, value)`: a new key goes last.
#[verifier::external_body]
fn toml_inline_table_insert(t: &mut toml_edit::InlineTable, key: &str, value: toml_edit::Value)
    ensures
        !pair_keys(toml_inline_table_pairs(*old(t))).contains(key@) ==> toml_inline_table_pairs(*final(t))
            == toml_inline_table_pairs(*old(t)).push((key@, toml_value_model(value))),
{
    t.insert(key, value);
}

/// `toml_edit::Item::Value(toml_edit::Value::InlineTable(t))`.
#[verifier::external_body]
fn toml_inline_table_item_of(t: toml_edit::InlineTable) -> (r: toml_edit::Item)
    ensures
        toml_item_model(r) == ItemModel::InlineTable(toml_inline_table_pairs(t)),
{
    toml_edit::Item::Value(toml_edit::Value::InlineTable(t))
}

/// `raw.parse::<toml_edit::DocumentMut>()`.
#[verifier::external_body]
fn parse_document(raw: &str) -> (r: Result<toml_edit::DocumentMut, toml_edit::TomlError>)
    ensures
        match r {
            Ok(doc) => toml_parse_model(raw@) == Some(toml_document_model(doc)),
            Err(_) => toml_parse_model(raw@) is None,
        },
{
    raw.parse::<toml_edit::DocumentMut>()
}

/// `doc.get(key).is_some()`.
#[verifier::external_body]
fn document_has_key(doc: &toml_edit::DocumentMut, key: &str) -> (r: bool)
    ensures
        r == toml_document_model(*doc).contains_key(key@),
{
    doc.get(key).is_some()
}

/// Whether `doc[key]` is absent or table-like (`Item::is_table_like`).
#[verifier::external_body]
fn document_accepts_entries(doc: &toml_edit::DocumentMut, key: &str) -> (r: bool)
    ensures
        r == table_usable(toml_document_model(*doc), key@),
{
    doc.get(key).map_or(true, toml_edit::Item::is_table_like)
}

/// `doc[key] = toml_edit::Item::Table(toml_edit::Table::new())`.
#[verifier::external_body]
fn document_insert_table(doc: &mut toml_edit::DocumentMut, key: &str)
    ensures
        toml_document_model(*final(doc)) == toml_document_model(*old(doc)).insert(
            key@,
            TopModel::Table(Map::empty()),
        ),
{
    doc[key] = toml_edit::Item::Table(toml_edit::Table::new());
}

/// `doc[table][name] = item`, which `toml_edit` only allows when `doc[table]`
/// is absent or table-like; an absent table is created.
#[verifier::external_body]
fn document_set_entry(doc: &mut toml_edit::DocumentMut, table: &str, name: &str, item: toml_edit::Item)
    requires
        table_usable(toml_document_model(*old(doc)), table@),
        !(toml_item_model(item) is Other),
    ensures
        toml_document_model(*final(doc)) == toml_document_model(*old(doc)).insert(
            table@,
            TopModel::Table(entries_of(toml_document_model(*old(doc)), table@).insert(name@, toml_item_model(item))),
        ),
{
    doc[table][name] = item;
}

/// `doc.to_string()`.
#[verifier::external_body]
fn document_text(doc: &toml_edit::DocumentMut) -> (r: String)
    ensures
        r@ == toml_document_text(*doc),
{
    doc.to_string()
}

/// A value in a dependency's inline table.
pub enum TomlScalar {
    Str(Seq<char>),
    Bool(bool),
    StrArray(Seq<Seq<char>>),
}

/// The shape of the right-hand side of `name = ...` for a dependency.
pub enum EntryShape {
    /// A bare version string.
    Version(Seq<char>),
    /// An inline table with these keys and values, in order.
    Table(Seq<(Seq<char>, TomlScalar)>),
}

/// A dependency written as a bare version: a pinned version, no required
/// features, default features on, from crates.io.
pub open spec fn is_version_only(d: DependencyView) -> bool {
    d.version is Some && d.required_features.len() == 0 && d.default_features
        && d.source is CratesIo
}

/// `[(key, Str(v))]` when `v` is given, else nothing.
pub open spec fn optional_pair(key: Seq<char>, v: Option<Seq<char>>) -> Seq<(Seq<char>, TomlScalar)> {
    match v {
        Some(s) => seq![(key, TomlScalar::Str(s))],
        None => Seq::empty(),
    }
}

/// The keys saying where the dependency comes from.
pub open spec fn source_pairs(d: DependencyView) -> Seq<(Seq<char>, TomlScalar)> {
    match d.source {
        SourceView::CratesIo => optional_pair("version"@, d.version),
        SourceView::Git { url, branch, tag, rev } => seq![("git"@, TomlScalar::Str(url))]
            + optional_pair("branch"@, branch) + optional_pair("tag"@, tag) + optional_pair(
            "rev"@,
            rev,
        ),
        SourceView::Path { path } => seq![("path"@, TomlScalar::Str(path))] + optional_pair("version"@, d.version),
    }
}

/// The `features` key, when the dependency has required features.
pub open spec fn feature_pairs(d: DependencyView) -> Seq<(Seq<char>, TomlScalar)> {
    if d.required_features.len() > 0 {
        seq![("features"@, TomlScalar::StrArray(d.required_features))]
    } else {
        Seq::empty()
    }
}

/// The `default-features = false` key, when default features are off.
pub open spec fn default_feature_pairs(d: DependencyView) -> Seq<(Seq<char>, TomlScalar)> {
    if !d.default_features {
        seq![("default-features"@, TomlScalar::Bool(false))]
    } else {
        Seq::empty()
    }
}

/// How a dependency is written: a bare version, or an inline table of
/// source, features and default-features keys.  A crates.io dependency with
/// no version and nothing else configured gets an empty table, which cargo
/// rejects until a version is set, rather than a silent `"*"`.
pub open spec fn entry_shape(d: DependencyView) -> EntryShape {
    if is_version_only(d) {
        EntryShape::Version(d.version->0)
    } else {
        EntryShape::Table(source_pairs(d) + feature_pairs(d) + default_feature_pairs(d))
    }
}

/// The inline-table pairs written for the given scalar pairs.
pub open spec fn pair_models(pairs: Seq<(Seq<char>, TomlScalar)>) -> Seq<(Seq<char>, Option<TomlScalar>)> {
    pairs.map_values(|p: (Seq<char>, TomlScalar)| (p.0, Some(p.1)))
}

/// Appending a pair appends its model.
proof fn lemma_pair_models_push(pairs: Seq<(Seq<char>, TomlScalar)>, p: (Seq<char>, TomlScalar))
    ensures
        pair_models(pairs.push(p)) == pair_models(pairs).push((p.0, Some(p.1))),
{
    assert(pair_models(pairs.push(p)) =~= pair_models(pairs).push((p.0, Some(p.1))));
}

/// A key that no pair has is not among the written keys.
proof fn lemma_key_absent(pairs: Seq<(Seq<char>, TomlScalar)>, k: Seq<char>)
    requires
        forall|i: int| 0 <= i < pairs.len() ==> (#[trigger] pairs[i]).0 != k,
    ensures
        !pair_keys(pair_models(pairs)).contains(k),
{
    if pair_keys(pair_models(pairs)).contains(k) {
        let i = choose|i: int| 0 <= i < pair_keys(pair_models(pairs)).len() && pair_keys(pair_models(pairs))[i] == k;
        assert(pairs[i].0 == k);
    }
}

/// The model of the item written for a dependency.
pub open spec fn dependency_item_model(d: DependencyView) -> ItemModel {
    match entry_shape(d) {
        EntryShape::Version(v) => ItemModel::Str(v),
        EntryShape::Table(pairs) => ItemModel::InlineTable(pair_models(pairs)),
    }
}

/// The `toml_edit` array of the given strings.
fn string_array(items: &Vec<String>) -> (r: toml_edit::Array)
    ensures
        toml_array_strings(r) == Some(crate::dependency::strings_view(items@)),
{
    let mut arr = toml_array_new();
    assert(crate::dependency::strings_view(items@.subrange(0, 0)) =~= Seq::<Seq<char>>::empty());
    let mut i: usize = 0;
    while i < items.len()
        invariant
            i <= items@.len(),
            toml_array_strings(arr) == Some(crate::dependency::strings_view(items@.subrange(0, i as int))),
        decreases items@.len() - i,
    {
        let ghost before = crate::dependency::strings_view(items@.subrange(0, i as int));
        toml_array_push(&mut arr, items[i].as_str());
        assert(crate::dependency::strings_view(items@.subrange(0, i + 1)) =~= before.push(
            items@[i as int]@,
        ));
        i = i + 1;
    }
    assert(items@.subrange(0, items@.len() as int) =~= items@);
    arr
}

/// The first characters of the keys of `pairs` are all in `heads`.
spec fn heads_within(pairs: Seq<(Seq<char>, TomlScalar)>, heads: Set<char>) -> bool {
    forall|i: int| 0 <= i < pairs.len() ==> (#[trigger] pairs[i]).0.len() > 0 && heads.contains(pairs[i].0[0])
}

/// Appends the pair `(key, value)` to the table and its model, when no key
/// written so far starts like `key`.
proof fn lemma_push_fresh(
    pairs: Seq<(Seq<char>, TomlScalar)>,
    heads: Set<char>,
    key: Seq<char>,
    v: TomlScalar,
)
    requires
        heads_within(pairs, heads),
        key.len() > 0,
        !heads.contains(key[0]),
    ensures
        !pair_keys(pair_models(pairs)).contains(key),
        heads_within(pairs.push((key, v)), heads.insert(key[0])),
        pair_models(pairs.push((key, v))) == pair_models(pairs).push((key, Some(v))),
{
    assert forall|i: int| 0 <= i < pairs.len() implies (#[trigger] pairs[i]).0 != key by {
        assert(heads.contains(pairs[i].0[0]));
    }
    lemma_key_absent(pairs, key);
    lemma_pair_models_push(pairs, (key, v));
}

/// Turns a dependency into the item on the right-hand side of `name = ...`
/// in `Cargo.toml`: a bare version when only a version is configured,
/// otherwise an inline table (empty when nothing at all is configured).
pub fn build_dependency_item(dependency: &Dependency) -> (r: toml_edit::Item)
    ensures
        toml_item_model(r) == dependency_item_model(dependency@),
{
    let crates_io = match &dependency.source {
        DependencySource::CratesIo => true,
        _ => false,
    };
    if dependency.required_features.len() == 0 && dependency.default_features && crates_io {
        match &dependency.version {
            Some(v) => {
                return toml_string_item_of(v.as_str());
            },
            None => {},
        }
    }
    proof {
        reveal_strlit("version");
        reveal_strlit("git");
        reveal_strlit("branch");
        reveal_strlit("tag");
        reveal_strlit("rev");
        reveal_strlit("path");
        reveal_strlit("features");
        reveal_strlit("default-features");
    }
    let ghost d = dependency@;
    let mut table = toml_inline_table_new();
    let ghost mut pairs: Seq<(Seq<char>, TomlScalar)> = Seq::empty();
    let ghost mut heads: Set<char> = Set::empty();
    assert(pair_models(pairs) =~= Seq::<(Seq<char>, Option<TomlScalar>)>::empty());
    match &dependency.source {
        DependencySource::CratesIo => {
            match &dependency.version {
                Some(v) => {
                    let val = toml_string_value_of(v.as_str());
                    proof {
                        lemma_push_fresh(pairs, heads, "version"@, TomlScalar::Str(v@));
                    }
                    toml_inline_table_insert(&mut table, "version", val);
                    proof {
                        pairs = pairs.push(("version"@, TomlScalar::Str(v@)));
                        heads = heads.insert('v');
                    }
                },
                None => {},
            }
        },
        DependencySource::Git { url, branch, tag, rev } => {
            let val = toml_string_value_of(url.as_str());
            proof {
                lemma_push_fresh(pairs, heads, "git"@, TomlScalar::Str(url@));
            }
            toml_inline_table_insert(&mut table, "git", val);
            proof {
                pairs = pairs.push(("git"@, TomlScalar::Str(url@)));
                heads = heads.insert('g');
            }
            match branch {
                Some(b) => {
                    let val = toml_string_value_of(b.as_str());
                    proof {
                        lemma_push_fresh(pairs, heads, "branch"@, TomlScalar::Str(b@));
                    }
                    toml_inline_table_insert(&mut table, "branch", val);
                    proof {
                        pairs = pairs.push(("branch"@, TomlScalar::Str(b@)));
                        heads = heads.insert('b');
                    }
                },
                None => {},
            }
            match tag {
                Some(t) => {
                    let val = toml_string_value_of(t.as_str());
                    proof {
                        lemma_push_fresh(pairs, heads, "tag"@, TomlScalar::Str(t@));
                    }
                    toml_inline_table_insert(&mut table, "tag", val);
                    proof {
                        pairs = pairs.push(("tag"@, TomlScalar::Str(t@)));
                        heads = heads.insert('t');
                    }
                },
                None => {},
            }
            match rev {
                Some(r) => {
                    let val = toml_string_value_of(r.as_str());
                    proof {
                        lemma_push_fresh(pairs, heads, "rev"@, TomlScalar::Str(r@));
                    }
                    toml_inline_table_insert(&mut table, "rev", val);
                    proof {
                        pairs = pairs.push(("rev"@, TomlScalar::Str(r@)));
                        heads = heads.insert('r');
                    }
                },
                None => {},
            }
        },
        DependencySource::Path { path } => {
            let val = toml_string_value_of(path.as_str());
            proof {
                lemma_push_fresh(pairs, heads, "path"@, TomlScalar::Str(path@));
            }
            toml_inline_table_insert(&mut table, "path", val);
            proof {
                pairs = pairs.push(("path"@, TomlScalar::Str(path@)));
                heads = heads.insert('p');
            }
            match &dependency.version {
                Some(v) => {
                    let val = toml_string_value_of(v.as_str());
                    proof {
                        lemma_push_fresh(pairs, heads, "version"@, TomlScalar::Str(v@));
                    }
                    toml_inline_table_insert(&mut table, "version", val);
                    proof {
                        pairs = pairs.push(("version"@, TomlScalar::Str(v@)));
                        heads = heads.insert('v');
                    }
                },
                None => {},
            }
        },
    }
    assert(pairs =~= source_pairs(d));
    assert(heads.subset_of(set!['v', 'g', 'b', 't', 'r', 'p']));
    if dependency.required_features.len() != 0 {
        let arr = string_array(&dependency.required_features);
        let val = toml_array_value_of(arr);
        proof {
            lemma_push_fresh(pairs, heads, "features"@, TomlScalar::StrArray(d.required_features));
        }
        toml_inline_table_insert(&mut table, "features", val);
        proof {
            pairs = pairs.push(("features"@, TomlScalar::StrArray(d.required_features)));
            heads = heads.insert('f');
        }
    }
    assert(heads.subset_of(set!['v', 'g', 'b', 't', 'r', 'p', 'f']));
    if !dependency.default_features {
        let val = toml_bool_value_of(false);
        proof {
            lemma_push_fresh(pairs, heads, "default-features"@, TomlScalar::Bool(false));
        }
        toml_inline_table_insert(&mut table, "default-features", val);
        proof {
            pairs = pairs.push(("default-features"@, TomlScalar::Bool(false)));
        }
    }
    assert(pairs =~= source_pairs(d) + feature_pairs(d) + default_feature_pairs(d));
    toml_inline_table_item_of(table)
}

/// The table a dependency goes into: `dev-dependencies` or `dependencies`.
pub open spec fn table_key(dev: bool) -> Seq<char> {
    if dev {
        "dev-dependencies"@
    } else {
        "dependencies"@
    }
}

/// The table a dependency goes into.
pub fn dependency_table_key(dev: bool) -> (r: &'static str)
    ensures
        r@ == table_key(dev),
{
    if dev {
        "dev-dependencies"
    } else {
        "dependencies"
    }
}

/// Document `m` with the dependency written into its table (created when
/// missing); every other top-level item, and every other entry of that
/// table, stays as it was.
pub open spec fn with_dependency(m: DocModel, d: DependencyView) -> DocModel {
    let key = table_key(d.dev);
    m.insert(key, TopModel::Table(entries_of(m, key).insert(d.name, dependency_item_model(d))))
}

/// Writes `dependency` as `name = ...` into its table of `doc`, creating the
/// table when it is missing; an existing entry of that name is replaced.
pub fn insert_dependency(doc: &mut toml_edit::DocumentMut, dependency: &Dependency)
    requires
        table_usable(toml_document_model(*old(doc)), table_key(dependency@.dev)),
    ensures
        toml_document_model(*final(doc)) == with_dependency(toml_document_model(*old(doc)), dependency@),
{
    let key = dependency_table_key(dependency.dev);
    if !document_has_key(doc, key) {
        document_insert_table(doc, key);
    }
    let item = build_dependency_item(dependency);
    document_set_entry(doc, key, dependency.name.as_str(), item);
    proof {
        let m = toml_document_model(*old(doc));
        let k = table_key(dependency@.dev);
        assert(entries_of(m.insert(k, TopModel::Table(Map::empty())), k) == Map::<Seq<char>, ItemModel>::empty());
        assert(toml_document_model(*doc) =~= with_dependency(m, dependency@));
    }
}

/// Why a manifest could not receive a dependency.
#[derive(Debug)]
pub enum ManifestEditError {
    /// The manifest is not valid TOML.
    Parse(toml_edit::TomlError),
    /// The dependency's table key holds something other than a table.
    NotATable { key: String },
}

/// Mathematical form of `ManifestEditError`.
pub enum ManifestEditErrorView {
    Parse,
    NotATable(Seq<char>),
}

impl View for ManifestEditError {
    type V = ManifestEditErrorView;

    open spec fn view(&self) -> ManifestEditErrorView {
        match self {
            ManifestEditError::Parse(_) => ManifestEditErrorView::Parse,
            ManifestEditError::NotATable { key } => ManifestEditErrorView::NotATable(key@),
        }
    }
}

/// The mathematical form of an edit's outcome.
pub open spec fn edit_outcome(r: Result<String, ManifestEditError>) -> Result<Seq<char>, ManifestEditErrorView> {
    match r {
        Ok(s) => Ok(s@),
        Err(e) => Err(e@),
    }
}

/// The document model after adding dependency `d` to the manifest `raw`, or
/// why it cannot be added.
pub open spec fn add_dependency_model(raw: Seq<char>, d: DependencyView) -> Result<DocModel, ManifestEditErrorView> {
    match toml_parse_model(raw) {
        None => Err(ManifestEditErrorView::Parse),
        Some(m) => if table_usable(m, table_key(d.dev)) {
            Ok(with_dependency(m, d))
        } else {
            Err(ManifestEditErrorView::NotATable(table_key(d.dev)))
        },
    }
}

/// `result` is a possible outcome of adding `d` to the manifest `raw`: the
/// error, or the text of a document with the dependency written in and
/// everything else as parsed from `raw`.
pub open spec fn adds_dependency(raw: Seq<char>, d: DependencyView, result: Result<Seq<char>, ManifestEditErrorView>) -> bool {
    match add_dependency_model(raw, d) {
        Err(e) => result == Err::<Seq<char>, ManifestEditErrorView>(e),
        Ok(m) => result matches Ok(text) && exists|doc: toml_edit::DocumentMut|
            toml_document_model(doc) == m && #[trigger] toml_document_text(doc) == text,
    }
}

/// Adds `dependency` to the manifest text `raw` and returns the new text,
/// keeping the rest of the document's formatting.
pub fn add_dependency_to_manifest(raw: &str, dependency: &Dependency) -> (r: Result<
    String,
    ManifestEditError,
>)
    ensures
        adds_dependency(raw@, dependency@, edit_outcome(r)),
{
    let mut doc = match parse_document(raw) {
        Ok(doc) => doc,
        Err(e) => {
            return Err(ManifestEditError::Parse(e));
        },
    };
    let key = dependency_table_key(dependency.dev);
    if !document_accepts_entries(&doc, key) {
        return Err(ManifestEditError::NotATable { key: String::from_str(key) });
    }
    insert_dependency(&mut doc, dependency);
    let text = document_text(&doc);
    proof {
        assert(toml_document_model(doc) == add_dependency_model(raw@, dependency@)->Ok_0);
        assert(toml_document_text(doc) == text@);
    }
    Ok(text)
}

/// Adds dependencies to a project's manifest, given as text.
pub trait DependencyWriter {
    /// `result` is a possible outcome of adding `dependency` to `manifest`.
    spec fn spec_adds(&self, manifest: Seq<char>, dependency: DependencyView, result: Result<
        Seq<char>,
        ManifestEditErrorView,
    >) -> bool;

    /// Adds `dependency` to `manifest`.
    fn add_dependency(&self, manifest: &str, dependency: &Dependency) -> (r: Result<
        String,
        ManifestEditError,
    >)
        ensures
            self.spec_adds(manifest@, dependency@, edit_outcome(r)),
    ;

    /// Adds each dependency in turn, stopping at the first that fails.
    fn add_dependencies(&self, manifest: &str, dependencies: &Vec<Dependency>) -> (r: Result<
        String,
        ManifestEditError,
    >)
        ensures
            adds_all(
                |m: Seq<char>, d: DependencyView, o: Result<Seq<char>, ManifestEditErrorView>| self.spec_adds(m, d, o),
                manifest@,
                crate::dependency::dependencies_view(dependencies@),
                dependencies@.len() as int,
                edit_outcome(r),
            ),
    {
        let ghost deps = crate::dependency::dependencies_view(dependencies@);
        let ghost w = |m: Seq<char>, d: DependencyView, o: Result<Seq<char>, ManifestEditErrorView>| self.spec_adds(m, d, o);
        let mut text = String::from_str(manifest);
        let ghost mut texts: Seq<Seq<char>> = seq![manifest@];
        let mut i: usize = 0;
        while i < dependencies.len()
            invariant
                i <= dependencies@.len(),
                deps == crate::dependency::dependencies_view(dependencies@),
                deps.len() == dependencies@.len(),
                w == (|m: Seq<char>, d: DependencyView, o: Result<Seq<char>, ManifestEditErrorView>| self.spec_adds(m, d, o)),
                adds_chain(w, manifest@, deps, texts),
                texts.len() == i + 1,
                texts[i as int] == text@,
            decreases dependencies@.len() - i,
        {
            let r = self.add_dependency(text.as_str(), &dependencies[i]);
            proof {
                assert(w(text@, deps[i as int], edit_outcome(r)));
            }
            match r {
                Ok(next) => {
                    proof {
                        let grown = texts.push(next@);
                        assert forall|k: int| 0 <= k < grown.len() - 1 implies #[trigger] w(
                            grown[k],
                            deps[k],
                            Ok::<Seq<char>, ManifestEditErrorView>(grown[k + 1]),
                        ) by {
                            if k < texts.len() - 1 {
                                assert(w(texts[k], deps[k], Ok::<Seq<char>, ManifestEditErrorView>(texts[k + 1])));
                            }
                        }
                        texts = grown;
                    }
                    text = next;
                },
                Err(e) => {
                    proof {
                        assert(adds_chain(w, manifest@, deps, texts) && texts.len() <= deps.len() && edit_outcome(
                            Err::<String, ManifestEditError>(e),
                        ) is Err && w(texts.last(), deps[texts.len() - 1], Err::<Seq<char>, ManifestEditErrorView>(e@)));
                    }
                    return Err(e);
                },
            }
            i = i + 1;
        }
        proof {
            assert(adds_chain(w, manifest@, deps, texts) && texts.len() == deps.len() + 1);
        }
        Ok(text)
    }
}

/// `texts` are the manifests met when adding dependencies in turn with `w`,
/// each addition succeeding: `texts[0]` is `manifest`, and adding `deps[k]`
/// to `texts[k]` can give `texts[k + 1]`.
pub open spec fn adds_chain(
    w: spec_fn(Seq<char>, DependencyView, Result<Seq<char>, ManifestEditErrorView>) -> bool,
    manifest: Seq<char>,
    deps: Seq<DependencyView>,
    texts: Seq<Seq<char>>,
) -> bool {
    &&& texts.len() >= 1
    &&& texts.len() <= deps.len() + 1
    &&& texts[0] == manifest
    &&& forall|k: int|
        0 <= k < texts.len() - 1 ==> #[trigger] w(texts[k], deps[k], Ok::<Seq<char>, ManifestEditErrorView>(texts[k + 1]))
}

/// `result` is a possible outcome of adding the first `n` dependencies in
/// turn with `w`: the text after all of them, each addition succeeding, or
/// the error of the first addition that fails.
pub open spec fn adds_all(
    w: spec_fn(Seq<char>, DependencyView, Result<Seq<char>, ManifestEditErrorView>) -> bool,
    manifest: Seq<char>,
    deps: Seq<DependencyView>,
    n: int,
    result: Result<Seq<char>, ManifestEditErrorView>,
) -> bool {
    ||| exists|texts: Seq<Seq<char>>|
        #[trigger] adds_chain(w, manifest, deps, texts) && texts.len() == n + 1 && result == Ok::<
            Seq<char>,
            ManifestEditErrorView,
        >(texts[n])
    ||| exists|texts: Seq<Seq<char>>|
        #[trigger] adds_chain(w, manifest, deps, texts) && texts.len() <= n && result is Err && w(
            texts.last(),
            deps[texts.len() - 1],
            result,
        )
}

/// The default [`DependencyWriter`]: edits the manifest with `toml_edit`,
/// preserving formatting and comments.
pub struct ManifestDependencyWriter;

impl DependencyWriter for ManifestDependencyWriter {
    open spec fn spec_adds(&self, manifest: Seq<char>, dependency: DependencyView, result: Result<
        Seq<char>,
        ManifestEditErrorView,
    >) -> bool {
        adds_dependency(manifest, dependency, result)
    }

    fn add_dependency(&self, manifest: &str, dependency: &Dependency) -> (r: Result<
        String,
        ManifestEditError,
    >) {
        add_dependency_to_manifest(manifest, dependency)
    }
}

} // verus!
