//! What revd takes from git: the diff model the analysis runs over, and the
//! reading of `git rev-parse` answers. Running git itself happens elsewhere.
use crate::text::{chars_of, concat, ends_with, owned, seq_ends_with, seq_starts_with, seq_trim, slice_chars, starts_with, str_eq, trim};
use vstd::prelude::*;

verus! {

/// One line a commit added.
#[derive(Debug, Clone)]
pub struct AddedLine {
    /// 1-based line number in the new file.
    pub line: u32,
    pub text: String,
}

/// The lines a commit added to one file.
#[derive(Debug, Clone)]
pub struct FileDiff {
    /// Path relative to the repository root.
    pub path: String,
    /// Short language tag of the file, see [`lang_of`].
    pub lang: String,
    pub added: Vec<AddedLine>,
}

/// What an [`AddedLine`] is, as values.
pub struct AddedLineView {
    pub line: u32,
    pub text: Seq<char>,
}

impl View for AddedLine {
    type V = AddedLineView;

    open spec fn view(&self) -> AddedLineView {
        AddedLineView { line: self.line, text: self.text@ }
    }
}

/// What a [`FileDiff`] is, as values.
pub struct FileDiffView {
    pub path: Seq<char>,
    pub lang: Seq<char>,
    pub added: Seq<AddedLineView>,
}

impl View for FileDiff {
    type V = FileDiffView;

    open spec fn view(&self) -> FileDiffView {
        FileDiffView {
            path: self.path@,
            lang: self.lang@,
            added: self.added@.map_values(|a: AddedLine| a@),
        }
    }
}

/// The views of a sequence of file diffs.
pub open spec fn diffs_view(v: Seq<FileDiff>) -> Seq<FileDiffView> {
    v.map_values(|d: FileDiff| d@)
}

/// The language tag of a file, from its extension; empty when unknown.
pub open spec fn spec_lang_of(path: Seq<char>) -> Seq<char> {
    if seq_ends_with(path, ".go"@) {
        "go"@
    } else if seq_ends_with(path, ".ts"@) || seq_ends_with(path, ".tsx"@) || seq_ends_with(path, ".mts"@)
        || seq_ends_with(path, ".cts"@) {
        "ts"@
    } else if seq_ends_with(path, ".js"@) || seq_ends_with(path, ".jsx"@) || seq_ends_with(path, ".mjs"@)
        || seq_ends_with(path, ".cjs"@) {
        "js"@
    } else if seq_ends_with(path, ".py"@) {
        "python"@
    } else if seq_ends_with(path, ".rs"@) {
        "rust"@
    } else if seq_ends_with(path, ".java"@) {
        "java"@
    } else {
        Seq::empty()
    }
}

/// `stem + ext` ends with `ext`.
proof fn lemma_ends_with_ext(stem: Seq<char>, ext: Seq<char>)
    ensures
        seq_ends_with(stem + ext, ext),
{
    let x = stem + ext;
    assert(x.subrange(x.len() - ext.len(), x.len() as int) =~= ext);
}

/// `stem + ext` does not end with `p` where their last three characters differ.
proof fn lemma_not_other_ext(stem: Seq<char>, ext: Seq<char>, p: Seq<char>)
    requires
        ext.len() >= 3,
        p.len() >= 3,
        ext[ext.len() - 1] != p[p.len() - 1] || ext[ext.len() - 2] != p[p.len() - 2] || ext[ext.len() - 3] != p[p.len()
            - 3],
    ensures
        !seq_ends_with(stem + ext, p),
{
    let x = stem + ext;
    if seq_ends_with(x, p) {
        let t = x.subrange(x.len() - p.len(), x.len() as int);
        assert(t[p.len() - 1] == x[x.len() - 1] && x[x.len() - 1] == ext[ext.len() - 1]);
        assert(t[p.len() - 2] == x[x.len() - 2] && x[x.len() - 2] == ext[ext.len() - 2]);
        assert(t[p.len() - 3] == x[x.len() - 3] && x[x.len() - 3] == ext[ext.len() - 3]);
    }
}

/// A file's language tag follows its extension: `.go` gives `go`; `.ts`,
/// `.tsx`, `.mts`, `.cts` give `ts`; `.js`, `.jsx`, `.mjs`, `.cjs` give `js`;
/// `.py` gives `python`; `.rs` gives `rust`; `.java` gives `java`.
pub proof fn language_tags_follow_extensions(stem: Seq<char>)
    ensures
        spec_lang_of(stem + ".go"@) == "go"@,
        spec_lang_of(stem + ".ts"@) == "ts"@,
        spec_lang_of(stem + ".tsx"@) == "ts"@,
        spec_lang_of(stem + ".mts"@) == "ts"@,
        spec_lang_of(stem + ".cts"@) == "ts"@,
        spec_lang_of(stem + ".js"@) == "js"@,
        spec_lang_of(stem + ".jsx"@) == "js"@,
        spec_lang_of(stem + ".mjs"@) == "js"@,
        spec_lang_of(stem + ".cjs"@) == "js"@,
        spec_lang_of(stem + ".py"@) == "python"@,
        spec_lang_of(stem + ".rs"@) == "rust"@,
        spec_lang_of(stem + ".java"@) == "java"@,
{
    reveal_strlit(".go");
    reveal_strlit(".ts");
    reveal_strlit(".tsx");
    reveal_strlit(".mts");
    reveal_strlit(".cts");
    reveal_strlit(".js");
    reveal_strlit(".jsx");
    reveal_strlit(".mjs");
    reveal_strlit(".cjs");
    reveal_strlit(".py");
    reveal_strlit(".rs");
    reveal_strlit(".java");
    lemma_ends_with_ext(stem, ".go"@);
    lemma_ends_with_ext(stem, ".ts"@);
    lemma_not_other_ext(stem, ".ts"@, ".go"@);
    lemma_ends_with_ext(stem, ".tsx"@);
    lemma_not_other_ext(stem, ".tsx"@, ".go"@);
    lemma_ends_with_ext(stem, ".mts"@);
    lemma_not_other_ext(stem, ".mts"@, ".go"@);
    lemma_ends_with_ext(stem, ".cts"@);
    lemma_not_other_ext(stem, ".cts"@, ".go"@);
    lemma_ends_with_ext(stem, ".js"@);
    lemma_not_other_ext(stem, ".js"@, ".go"@);
    lemma_not_other_ext(stem, ".js"@, ".ts"@);
    lemma_not_other_ext(stem, ".js"@, ".tsx"@);
    lemma_not_other_ext(stem, ".js"@, ".mts"@);
    lemma_not_other_ext(stem, ".js"@, ".cts"@);
    lemma_ends_with_ext(stem, ".jsx"@);
    lemma_not_other_ext(stem, ".jsx"@, ".go"@);
    lemma_not_other_ext(stem, ".jsx"@, ".ts"@);
    lemma_not_other_ext(stem, ".jsx"@, ".tsx"@);
    lemma_not_other_ext(stem, ".jsx"@, ".mts"@);
    lemma_not_other_ext(stem, ".jsx"@, ".cts"@);
    lemma_ends_with_ext(stem, ".mjs"@);
    lemma_not_other_ext(stem, ".mjs"@, ".go"@);
    lemma_not_other_ext(stem, ".mjs"@, ".ts"@);
    lemma_not_other_ext(stem, ".mjs"@, ".tsx"@);
    lemma_not_other_ext(stem, ".mjs"@, ".mts"@);
    lemma_not_other_ext(stem, ".mjs"@, ".cts"@);
    lemma_ends_with_ext(stem, ".cjs"@);
    lemma_not_other_ext(stem, ".cjs"@, ".go"@);
    lemma_not_other_ext(stem, ".cjs"@, ".ts"@);
    lemma_not_other_ext(stem, ".cjs"@, ".tsx"@);
    lemma_not_other_ext(stem, ".cjs"@, ".mts"@);
    lemma_not_other_ext(stem, ".cjs"@, ".cts"@);
    lemma_ends_with_ext(stem, ".py"@);
    lemma_not_other_ext(stem, ".py"@, ".go"@);
    lemma_not_other_ext(stem, ".py"@, ".ts"@);
    lemma_not_other_ext(stem, ".py"@, ".tsx"@);
    lemma_not_other_ext(stem, ".py"@, ".mts"@);
    lemma_not_other_ext(stem, ".py"@, ".cts"@);
    lemma_not_other_ext(stem, ".py"@, ".js"@);
    lemma_not_other_ext(stem, ".py"@, ".jsx"@);
    lemma_not_other_ext(stem, ".py"@, ".mjs"@);
    lemma_not_other_ext(stem, ".py"@, ".cjs"@);
    lemma_ends_with_ext(stem, ".rs"@);
    lemma_not_other_ext(stem, ".rs"@, ".go"@);
    lemma_not_other_ext(stem, ".rs"@, ".ts"@);
    lemma_not_other_ext(stem, ".rs"@, ".tsx"@);
    lemma_not_other_ext(stem, ".rs"@, ".mts"@);
    lemma_not_other_ext(stem, ".rs"@, ".cts"@);
    lemma_not_other_ext(stem, ".rs"@, ".js"@);
    lemma_not_other_ext(stem, ".rs"@, ".jsx"@);
    lemma_not_other_ext(stem, ".rs"@, ".mjs"@);
    lemma_not_other_ext(stem, ".rs"@, ".cjs"@);
    lemma_not_other_ext(stem, ".rs"@, ".py"@);
    lemma_ends_with_ext(stem, ".java"@);
    lemma_not_other_ext(stem, ".java"@, ".go"@);
    lemma_not_other_ext(stem, ".java"@, ".ts"@);
    lemma_not_other_ext(stem, ".java"@, ".tsx"@);
    lemma_not_other_ext(stem, ".java"@, ".mts"@);
    lemma_not_other_ext(stem, ".java"@, ".cts"@);
    lemma_not_other_ext(stem, ".java"@, ".js"@);
    lemma_not_other_ext(stem, ".java"@, ".jsx"@);
    lemma_not_other_ext(stem, ".java"@, ".mjs"@);
    lemma_not_other_ext(stem, ".java"@, ".cjs"@);
    lemma_not_other_ext(stem, ".java"@, ".py"@);
    lemma_not_other_ext(stem, ".java"@, ".rs"@);
}

/// The language tag of a file, from its extension; empty when unknown.
pub fn lang_of(path: &str) -> (r: String)
    ensures
        r@ == spec_lang_of(path@),
{
    if ends_with(path, ".go") {
        owned("go")
    } else if ends_with(path, ".ts") || ends_with(path, ".tsx") || ends_with(path, ".mts") || ends_with(
        path,
        ".cts",
    ) {
        owned("ts")
    } else if ends_with(path, ".js") || ends_with(path, ".jsx") || ends_with(path, ".mjs") || ends_with(
        path,
        ".cjs",
    ) {
        owned("js")
    } else if ends_with(path, ".py") {
        owned("python")
    } else if ends_with(path, ".rs") {
        owned("rust")
    } else if ends_with(path, ".java") {
        owned("java")
    } else {
        String::new()
    }
}

/// The repository root, from the output of `git rev-parse --show-toplevel`.
pub fn toplevel(stdout: &str) -> (r: String)
    ensures
        r@ == seq_trim(stdout@),
{
    trim(stdout)
}

/// The commit id, from the output of `git rev-parse HEAD`.
pub fn head(stdout: &str) -> (r: String)
    ensures
        r@ == seq_trim(stdout@),
{
    trim(stdout)
}

/// `rel` resolved against `base`, as `Path::join` does for `/`-separated paths:
/// an absolute `rel` stands alone.
pub open spec fn spec_join(base: Seq<char>, rel: Seq<char>) -> Seq<char> {
    if seq_starts_with(rel, "/"@) {
        rel
    } else if base.len() == 0 || seq_ends_with(base, "/"@) {
        base + rel
    } else {
        base + "/"@ + rel
    }
}

/// `rel` resolved against `base`.
pub fn join_path(base: &str, rel: &str) -> (r: String)
    ensures
        r@ == spec_join(base@, rel@),
{
    if starts_with(rel, "/") {
        owned(rel)
    } else if base.unicode_len() == 0 || ends_with(base, "/") {
        concat(base, rel)
    } else {
        let b = concat(base, "/");
        concat(b.as_str(), rel)
    }
}

/// The hooks directory git uses for the repository at `root`, from the output
/// of `git rev-parse --git-path hooks` run there (which honours `core.hooksPath`).
pub fn hooks_dir(root: &str, stdout: &str) -> (r: String)
    ensures
        r@ == spec_join(root@, seq_trim(stdout@)),
{
    let rel = trim(stdout);
    join_path(root, rel.as_str())
}


// ------------------------------------------------------ path components --

/// From position `i` of `x`, past any empty (`/`) and `.` components.
pub open spec fn skip_empty(x: Seq<char>, i: int) -> int
    decreases x.len() - i,
{
    if i < 0 || i >= x.len() {
        i
    } else if x[i] == '/' {
        skip_empty(x, i + 1)
    } else if x[i] == '.' && (i + 1 == x.len() || x[i + 1] == '/') {
        skip_empty(x, i + 1)
    } else {
        i
    }
}

/// Where the component starting at `i` of `x` ends: at the next `/` or the end.
pub open spec fn seg_end(x: Seq<char>, i: int) -> int
    decreases x.len() - i,
{
    if i < 0 || i >= x.len() || x[i] == '/' {
        i
    } else {
        seg_end(x, i + 1)
    }
}

/// `x[lo..hi]` ends at the returned position once trailing empty and `.`
/// components are dropped.
pub open spec fn trim_back(x: Seq<char>, lo: int, hi: int) -> int
    decreases hi - lo,
{
    if hi <= lo {
        hi
    } else if x[hi - 1] == '/' {
        trim_back(x, lo, hi - 1)
    } else if x[hi - 1] == '.' && (hi - 1 == lo || x[hi - 2] == '/') {
        trim_back(x, lo, hi - 1)
    } else {
        hi
    }
}

/// Bounds of [`skip_empty`] and [`seg_end`].
pub proof fn lemma_component_bounds(x: Seq<char>, i: int)
    requires
        0 <= i <= x.len(),
    ensures
        i <= skip_empty(x, i) <= x.len(),
        skip_empty(x, i) < x.len() ==> x[skip_empty(x, i)] != '/',
        i <= seg_end(x, i) <= x.len(),
        i < x.len() && x[i] != '/' ==> i < seg_end(x, i),
    decreases x.len() - i,
{
    if i < x.len() {
        lemma_component_bounds(x, i + 1);
    }
}

/// What is left of `p` from position `i` once the components of `b` from
/// position `j` are matched one by one, as `Path::strip_prefix` gives it:
/// `None` when a component differs or `p` runs out first.
pub open spec fn strip_from(p: Seq<char>, i: int, b: Seq<char>, j: int) -> Option<Seq<char>>
    decreases b.len() - j,
{
    if j < 0 || j > b.len() || i < 0 || i > p.len() {
        None
    } else {
        let j1 = skip_empty(b, j);
        let i1 = skip_empty(p, i);
        proof {
            lemma_component_bounds(b, j);
            lemma_component_bounds(p, i);
        }
        if j1 >= b.len() {
            Some(p.subrange(i1, trim_back(p, i1, p.len() as int)))
        } else if i1 >= p.len() {
            None
        } else {
            let je = seg_end(b, j1);
            let ie = seg_end(p, i1);
            proof {
                lemma_component_bounds(b, j1);
                lemma_component_bounds(p, i1);
            }
            if p.subrange(i1, ie) == b.subrange(j1, je) {
                strip_from(p, ie, b, je)
            } else {
                None
            }
        }
    }
}

/// `p` starts at the file-system root.
pub open spec fn rooted(p: Seq<char>) -> bool {
    p.len() > 0 && p[0] == '/'
}

/// `p` starts with a `.` component (and not at the root).
pub open spec fn starts_here(p: Seq<char>) -> bool {
    p.len() > 0 && p[0] == '.' && (p.len() == 1 || p[1] == '/')
}

/// `Path::new(p).strip_prefix(b)`, displayed: what follows the components of
/// `b` in `p`, or `None` when `b`'s components do not begin `p`'s.
pub open spec fn strip_prefix(p: Seq<char>, b: Seq<char>) -> Option<Seq<char>> {
    if rooted(p) != rooted(b) || starts_here(p) != starts_here(b) {
        None
    } else {
        strip_from(p, 0, b, 0)
    }
}

fn skip_empty_at(x: &Vec<char>, i: usize) -> (r: usize)
    requires
        i <= x@.len(),
    ensures
        r == skip_empty(x@, i as int),
{
    let mut k = i;
    while k < x.len() && (x[k] == '/' || (x[k] == '.' && (k + 1 == x.len() || x[k + 1] == '/')))
        invariant
            i <= k <= x@.len(),
            skip_empty(x@, i as int) == skip_empty(x@, k as int),
        decreases x.len() - k,
    {
        k = k + 1;
    }
    k
}

fn seg_end_at(x: &Vec<char>, i: usize) -> (r: usize)
    requires
        i <= x@.len(),
    ensures
        r == seg_end(x@, i as int),
{
    let mut k = i;
    while k < x.len() && x[k] != '/'
        invariant
            i <= k <= x@.len(),
            seg_end(x@, i as int) == seg_end(x@, k as int),
        decreases x.len() - k,
    {
        k = k + 1;
    }
    k
}

fn trim_back_at(x: &Vec<char>, lo: usize, hi: usize) -> (r: usize)
    requires
        lo <= hi <= x@.len(),
    ensures
        r == trim_back(x@, lo as int, hi as int),
{
    let mut k = hi;
    while k > lo && (x[k - 1] == '/' || (x[k - 1] == '.' && (k - 1 == lo || x[k - 2] == '/')))
        invariant
            lo <= k <= hi <= x@.len(),
            trim_back(x@, lo as int, hi as int) == trim_back(x@, lo as int, k as int),
        decreases k,
    {
        k = k - 1;
    }
    k
}

/// `Path::new(p).strip_prefix(b)`, displayed.
pub fn path_strip_prefix(p: &str, b: &str) -> (r: Option<String>)
    ensures
        match r {
            Some(s) => strip_prefix(p@, b@) == Some(s@),
            None => strip_prefix(p@, b@) is None,
        },
{
    let x = chars_of(p);
    let y = chars_of(b);
    let rp = x.len() > 0 && x[0] == '/';
    let rb = y.len() > 0 && y[0] == '/';
    let cp = x.len() > 0 && x[0] == '.' && (x.len() == 1 || x[1] == '/');
    let cb = y.len() > 0 && y[0] == '.' && (y.len() == 1 || y[1] == '/');
    if rp != rb || cp != cb {
        return None;
    }
    let mut i: usize = 0;
    let mut j: usize = 0;
    loop
        invariant
            x@ == p@,
            y@ == b@,
            i <= x@.len(),
            j <= y@.len(),
            strip_prefix(p@, b@) == strip_from(p@, i as int, b@, j as int),
        decreases y@.len() - j,
    {
        let j1 = skip_empty_at(&y, j);
        let i1 = skip_empty_at(&x, i);
        proof {
            lemma_component_bounds(y@, j as int);
            lemma_component_bounds(x@, i as int);
        }
        if j1 >= y.len() {
            let e = trim_back_at(&x, i1, x.len());
            proof {
                lemma_trim_back_bounds(x@, i1 as int, x@.len() as int);
            }
            let r = slice_chars(p, i1, e);
            return Some(r);
        }
        if i1 >= x.len() {
            return None;
        }
        let je = seg_end_at(&y, j1);
        let ie = seg_end_at(&x, i1);
        proof {
            lemma_component_bounds(y@, j1 as int);
            lemma_component_bounds(x@, i1 as int);
        }
        let pc = slice_chars(p, i1, ie);
        let bc = slice_chars(b, j1, je);
        if !str_eq(pc.as_str(), bc.as_str()) {
            return None;
        }
        i = ie;
        j = je;
    }
}

proof fn lemma_trim_back_bounds(x: Seq<char>, lo: int, hi: int)
    requires
        lo <= hi,
    ensures
        lo <= trim_back(x, lo, hi) <= hi,
    decreases hi - lo,
{
    if hi > lo {
        lemma_trim_back_bounds(x, lo, hi - 1);
    }
}

} // verus!
