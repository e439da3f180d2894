//! Building a generated project's layout: paths relative to the project root,
//! module directories with their `mod.rs`, and edits to existing files.
//! File-system access is left to the caller; this module decides paths and
//! contents.
use crate::text::{chars_of, contains_chars, seq_contains, seq_ends_with, string_from_chars};
use vstd::prelude::*;

verus! {

/// `rel` joined onto `base` the way a Unix `PathBuf::push` does: an absolute
/// `rel` replaces `base`; otherwise a `/` separates them unless `base` is
/// empty or already ends with one.
pub open spec fn path_join(base: Seq<char>, rel: Seq<char>) -> Seq<char> {
    if rel.len() > 0 && rel[0] == '/' {
        rel
    } else if base.len() == 0 {
        rel
    } else if base.last() == '/' {
        base + rel
    } else {
        base + seq!['/'] + rel
    }
}

/// Joins `rel` onto `base` (Unix path rules).
pub fn join_path(base: &str, rel: &str) -> (r: String)
    ensures
        r@ == path_join(base@, rel@),
{
    let b = chars_of(base);
    let rc = chars_of(rel);
    let mut out: Vec<char> = Vec::new();
    if rc.len() > 0 && rc[0] == '/' {
        return String::from_str(rel);
    }
    if b.len() == 0 {
        return String::from_str(rel);
    }
    out.extend_from_slice(b.as_slice());
    if b[b.len() - 1] != '/' {
        out.push('/');
    }
    out.extend_from_slice(rc.as_slice());
    assert(b@.last() == b@[b@.len() - 1]);
    let r = string_from_chars(&out);
    assert(r@ =~= path_join(base@, rel@));
    r
}

/// The path made of `segments`, pushed one after another onto an empty path.
pub open spec fn segments_path(segments: Seq<&str>, n: int) -> Seq<char>
    decreases n,
{
    if n <= 0 {
        Seq::empty()
    } else {
        path_join(segments_path(segments, n - 1), segments[n - 1]@)
    }
}

/// Root handle for scaffolding, rooted at the generated project's directory.
#[derive(Debug)]
pub struct Scaffolder {
    root: String,
}

impl View for Scaffolder {
    type V = Seq<char>;

    closed spec fn view(&self) -> Seq<char> {
        self.root@
    }
}

impl Scaffolder {
    /// A scaffolder rooted at `root`.
    pub fn new(root: &str) -> (r: Scaffolder)
        ensures
            r@ == root@,
    {
        Scaffolder { root: String::from_str(root) }
    }

    /// The project root.
    pub fn root(&self) -> (r: &str)
        ensures
            r@ == self@,
    {
        self.root.as_str()
    }

    /// A path relative to the project root, e.g. `"src/routes/mod.rs"`.
    pub fn resolve(&self, relative_path: &str) -> (r: String)
        ensures
            r@ == path_join(self@, relative_path@),
    {
        join_path(self.root.as_str(), relative_path)
    }

    /// Starts building a Rust module (a directory and its `mod.rs`) at the
    /// given path segments, e.g. `["src", "routes"]`.
    pub fn module<'a>(&'a self, path_segments: &[&str]) -> (r: ModuleBuilder<'a>)
        ensures
            r@ == (ModuleBuilderView {
                root: self@,
                dir: segments_path(path_segments@, path_segments@.len() as int),
                contents: Seq::empty(),
                submodules: Seq::empty(),
            }),
    {
        let mut path = String::new();
        let mut i: usize = 0;
        while i < path_segments.len()
            invariant
                i <= path_segments@.len(),
                path@ == segments_path(path_segments@, i as int),
            decreases path_segments@.len() - i,
        {
            path = join_path(path.as_str(), path_segments[i]);
            i = i + 1;
        }
        let r = ModuleBuilder {
            scaffolder: self,
            dir: path,
            mod_rs_contents: String::new(),
            submodules: Vec::new(),
        };
        assert(r@.submodules =~= Seq::<Seq<char>>::empty());
        r
    }
}

/// Builder for one Rust module directory: a directory holding a `mod.rs`,
/// optionally declaring submodules.
#[derive(Debug)]
pub struct ModuleBuilder<'a> {
    scaffolder: &'a Scaffolder,
    dir: String,
    mod_rs_contents: String,
    submodules: Vec<String>,
}

/// Mathematical form of `ModuleBuilder`.
pub struct ModuleBuilderView {
    pub root: Seq<char>,
    pub dir: Seq<char>,
    pub contents: Seq<char>,
    pub submodules: Seq<Seq<char>>,
}

impl<'a> View for ModuleBuilder<'a> {
    type V = ModuleBuilderView;

    closed spec fn view(&self) -> ModuleBuilderView {
        ModuleBuilderView {
            root: self.scaffolder@,
            dir: self.dir@,
            contents: self.mod_rs_contents@,
            submodules: crate::dependency::strings_view(self.submodules@),
        }
    }
}

/// The files a module builder writes: its directory (relative to the root),
/// its `mod.rs` path (relative to the root) and text, and the directory
/// resolved against the root.
#[derive(Debug)]
pub struct ModuleWrite {
    pub dir: String,
    pub mod_rs_path: String,
    pub mod_rs: String,
    pub resolved_dir: String,
}

/// `pub mod <name>;` lines for the first `n` submodules.
pub open spec fn submodule_lines(submodules: Seq<Seq<char>>, n: int) -> Seq<char>
    decreases n,
{
    if n <= 0 {
        Seq::empty()
    } else {
        submodule_lines(submodules, n - 1) + "pub mod "@ + submodules[n - 1] + ";\n"@
    }
}

/// The text of `mod.rs`: the submodule declarations, a blank line when there
/// are any, then the module's own contents.
pub open spec fn mod_rs_text(submodules: Seq<Seq<char>>, contents: Seq<char>) -> Seq<char> {
    submodule_lines(submodules, submodules.len() as int) + (if submodules.len() > 0 {
        "\n"@
    } else {
        Seq::empty()
    }) + contents
}

impl<'a> ModuleBuilder<'a> {
    /// Declares `pub mod <name>;` in this module's `mod.rs`.
    pub fn declare_submodule(self, name: &str) -> (r: ModuleBuilder<'a>)
        ensures
            r@ == (ModuleBuilderView { submodules: self@.submodules.push(name@), ..self@ }),
    {
        let mut b = self;
        let ghost before = b.submodules@;
        b.submodules.push(String::from_str(name));
        assert(crate::dependency::strings_view(b.submodules@) =~= crate::dependency::strings_view(
            before,
        ).push(name@));
        b
    }

    /// Sets the body of `mod.rs`, placed after the submodule declarations.
    pub fn with_contents(self, contents: &str) -> (r: ModuleBuilder<'a>)
        ensures
            r@ == (ModuleBuilderView { contents: contents@, ..self@ }),
    {
        let mut b = self;
        b.mod_rs_contents = String::from_str(contents);
        b
    }

    /// What building the module writes: the directory, and `mod.rs` inside it.
    pub fn build(self) -> (r: ModuleWrite)
        ensures
            r.dir@ == self@.dir,
            r.mod_rs_path@ == path_join(self@.dir, "mod.rs"@),
            r.mod_rs@ == mod_rs_text(self@.submodules, self@.contents),
            r.resolved_dir@ == path_join(self@.root, self@.dir),
    {
        let ghost subs = self@.submodules;
        proof {
            reveal_strlit("\n");
        }
        let mut text = String::new();
        let mut i: usize = 0;
        while i < self.submodules.len()
            invariant
                i <= self.submodules@.len(),
                subs == crate::dependency::strings_view(self.submodules@),
                text@ == submodule_lines(subs, i as int),
            decreases self.submodules@.len() - i,
        {
            text.append("pub mod ");
            text.append(self.submodules[i].as_str());
            text.append(";\n");
            i = i + 1;
        }
        if self.submodules.len() > 0 {
            text.append("\n");
        }
        text.append(self.mod_rs_contents.as_str());
        let mod_rs_path = join_path(self.dir.as_str(), "mod.rs");
        let resolved_dir = self.scaffolder.resolve(self.dir.as_str());
        assert(text@ =~= mod_rs_text(subs, self@.contents));
        ModuleWrite { dir: self.dir, mod_rs_path, mod_rs: text, resolved_dir }
    }
}

/// One step of laying out a project.
#[derive(Debug)]
pub enum ScaffoldStep {
    /// Create the module directory and write its `mod.rs` (overwriting).
    Module(ModuleWrite),
    /// Write a new file (relative to the root); fails if it already exists.
    WriteFile { path: String, contents: String },
    /// Write a file (relative to the root), replacing it if present.
    OverwriteFile { path: String, contents: String },
}

/// Mathematical form of `ScaffoldStep`: for a module, its directory, `mod.rs`
/// path and text, and resolved directory.
pub enum StepView {
    Module { dir: Seq<char>, mod_rs_path: Seq<char>, mod_rs: Seq<char>, resolved_dir: Seq<char> },
    WriteFile { path: Seq<char>, contents: Seq<char> },
    OverwriteFile { path: Seq<char>, contents: Seq<char> },
}

impl View for ScaffoldStep {
    type V = StepView;

    open spec fn view(&self) -> StepView {
        match self {
            ScaffoldStep::Module(m) => StepView::Module {
                dir: m.dir@,
                mod_rs_path: m.mod_rs_path@,
                mod_rs: m.mod_rs@,
                resolved_dir: m.resolved_dir@,
            },
            ScaffoldStep::WriteFile { path, contents } => StepView::WriteFile {
                path: path@,
                contents: contents@,
            },
            ScaffoldStep::OverwriteFile { path, contents } => StepView::OverwriteFile {
                path: path@,
                contents: contents@,
            },
        }
    }
}

/// The views of a list of steps.
pub open spec fn steps_view(v: Seq<ScaffoldStep>) -> Seq<StepView> {
    v.map_values(|s: ScaffoldStep| s@)
}

// ---------------------------------------------------------------------------
// Inserting text after a marker line
// ---------------------------------------------------------------------------

/// A line without the `\r` of a `\r\n` ending.
pub open spec fn strip_cr(l: Seq<char>) -> Seq<char> {
    if l.len() > 0 && l.last() == '\r' {
        l.drop_last()
    } else {
        l
    }
}

/// After the first `n` characters of `s`: the finished lines, and the
/// characters of the line still open.
pub open spec fn scan_lines(s: Seq<char>, n: int) -> (Seq<Seq<char>>, Seq<char>)
    decreases n,
{
    if n <= 0 {
        (Seq::empty(), Seq::empty())
    } else {
        let (ls, cur) = scan_lines(s, n - 1);
        if s[n - 1] == '\n' {
            (ls.push(strip_cr(cur)), Seq::empty())
        } else {
            (ls, cur.push(s[n - 1]))
        }
    }
}

/// The lines of `s` as `str::lines` gives them: split at `\n`, a `\r` before
/// the `\n` dropped, and no empty line after a final `\n`.
pub open spec fn lines_of(s: Seq<char>) -> Seq<Seq<char>> {
    let (ls, cur) = scan_lines(s, s.len() as int);
    if cur.len() > 0 {
        ls.push(cur)
    } else {
        ls
    }
}

/// The inserted text, ending in a newline.
pub open spec fn inserted_block(contents: Seq<char>) -> Seq<char> {
    if seq_ends_with(contents, seq!['\n']) {
        contents
    } else {
        contents + seq!['\n']
    }
}

/// The first `n` lines, each followed by `\n`, with the block inserted after
/// the first of them that contains `marker`; and whether one did.
pub open spec fn render_lines(lines: Seq<Seq<char>>, n: int, marker: Seq<char>, contents: Seq<char>) -> (
    Seq<char>,
    bool,
)
    decreases n,
{
    if n <= 0 {
        (Seq::empty(), false)
    } else {
        let (o, found) = render_lines(lines, n - 1, marker, contents);
        let o2 = o + lines[n - 1] + seq!['\n'];
        if !found && seq_contains(lines[n - 1], marker) {
            (o2 + inserted_block(contents), true)
        } else {
            (o2, found)
        }
    }
}

/// The file text with `contents` inserted after the first line containing
/// `marker`, or `None` when no line does.
pub open spec fn insert_after_marker_spec(existing: Seq<char>, marker: Seq<char>, contents: Seq<char>) -> Option<
    Seq<char>,
> {
    let lines = lines_of(existing);
    let (o, found) = render_lines(lines, lines.len() as int, marker, contents);
    if found {
        Some(o)
    } else {
        None
    }
}

/// The lines of `s`.
pub fn split_lines(s: &Vec<char>) -> (r: Vec<Vec<char>>)
    ensures
        r@.map_values(|l: Vec<char>| l@) == lines_of(s@),
{
    let mut lines: Vec<Vec<char>> = Vec::new();
    let mut cur: Vec<char> = Vec::new();
    let mut i: usize = 0;
    while i < s.len()
        invariant
            i <= s@.len(),
            lines@.map_values(|l: Vec<char>| l@) == scan_lines(s@, i as int).0,
            cur@ == scan_lines(s@, i as int).1,
        decreases s@.len() - i,
    {
        let c = s[i];
        if c == '\n' {
            let n = cur.len();
            if n > 0 && cur[n - 1] == '\r' {
                cur.pop();
            }
            let ghost before = lines@.map_values(|l: Vec<char>| l@);
            let finished = cur;
            lines.push(finished);
            cur = Vec::new();
            assert(lines@.map_values(|l: Vec<char>| l@) =~= before.push(finished@));
        } else {
            cur.push(c);
        }
        i = i + 1;
    }
    if cur.len() > 0 {
        let ghost before = lines@.map_values(|l: Vec<char>| l@);
        let finished = cur;
        lines.push(finished);
        assert(lines@.map_values(|l: Vec<char>| l@) =~= before.push(finished@));
    }
    lines
}

/// Inserts `contents` right after the first line of `existing` that contains
/// `marker` (an exact substring match), adding a newline after `contents`
/// when it lacks one.  Every line of the result ends in a newline.  `None`
/// when no line contains the marker.
pub fn insert_after_marker_text(existing: &str, marker: &str, contents: &str) -> (r: Option<String>)
    ensures
        match insert_after_marker_spec(existing@, marker@, contents@) {
            Some(t) => r matches Some(s) && s@ == t,
            None => r is None,
        },
{
    let text = chars_of(existing);
    let marker_chars = chars_of(marker);
    let block = chars_of(contents);
    let lines = split_lines(&text);
    let ghost lv = lines@.map_values(|l: Vec<char>| l@);
    let mut out: Vec<char> = Vec::new();
    let mut found = false;
    let mut i: usize = 0;
    while i < lines.len()
        invariant
            i <= lines@.len(),
            lv == lines@.map_values(|l: Vec<char>| l@),
            lv == lines_of(existing@),
            marker_chars@ == marker@,
            block@ == contents@,
            (out@, found) == render_lines(lv, i as int, marker@, contents@),
        decreases lines@.len() - i,
    {
        let line = &lines[i];
        out.extend_from_slice(line.as_slice());
        out.push('\n');
        if !found && contains_chars(line, &marker_chars) {
            out.extend_from_slice(block.as_slice());
            let n = block.len();
            if !(n > 0 && block[n - 1] == '\n') {
                out.push('\n');
            }
            found = true;
            proof {
                let ends = crate::text::seq_ends_with(block@, seq!['\n']);
                if n > 0 && block@[n - 1] == '\n' {
                    assert(block@.subrange(block@.len() - 1, block@.len() as int) =~= seq!['\n']);
                } else if ends {
                    assert(block@.subrange(block@.len() - 1, block@.len() as int)[0] == block@[n - 1]);
                }
            }
        }
        i = i + 1;
    }
    if found {
        Some(string_from_chars(&out))
    } else {
        None
    }
}

} // verus!
