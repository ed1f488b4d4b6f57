//! Deterministic language detection from marker files. No AI, no network:
//! a project's build files say what it is with certainty.
//!
//! The file system is read elsewhere; detection works on a [`Listing`] of the
//! entries below the project root, so the same listing always gives the same
//! answer.
use crate::text::{join, less_than, lemma_lt_total, lemma_lt_transitive, seq_join, seq_le, seq_lt, seq_starts_with, starts_with, str_eq};
use vstd::prelude::*;

verus! {

/// A language revd recognises from its build files.
#[derive(Debug, Clone, Copy, PartialEq, Eq, Hash, PartialOrd, Ord, Structural)]
pub enum Lang {
    Go,
    TypeScript,
    Python,
    Rust,
    Java,
}

/// The marker file names of a language, strongest first.
pub open spec fn spec_markers(l: Lang) -> Seq<Seq<char>> {
    match l {
        Lang::Go => seq!["go.mod"@, "go.work"@],
        Lang::TypeScript => seq!["tsconfig.json"@, "package.json"@],
        Lang::Python => seq!["pyproject.toml"@, "setup.py"@, "requirements.txt"@, "Pipfile"@],
        Lang::Rust => seq!["Cargo.toml"@],
        Lang::Java => seq!["pom.xml"@, "build.gradle"@, "build.gradle.kts"@],
    }
}

/// Directories never worth descending into.
pub open spec fn spec_skip_dir(name: Seq<char>) -> bool {
    ||| name == ".git"@
    ||| name == "node_modules"@
    ||| name == "vendor"@
    ||| name == "target"@
    ||| name == "dist"@
    ||| name == "build"@
    ||| name == ".venv"@
    ||| name == "venv"@
    ||| name == "__pycache__"@
    ||| name == ".gradle"@
    ||| name == ".idea"@
}

/// A directory named `name` is searched for markers: it is neither skipped nor hidden.
pub open spec fn spec_descend(name: Seq<char>) -> bool {
    !spec_skip_dir(name) && !seq_starts_with(name, "."@)
}

impl Lang {
    /// Every language, in declaration order (which is also the `Ord` order).
    pub const ALL: [Lang; 5] = [Lang::Go, Lang::TypeScript, Lang::Python, Lang::Rust, Lang::Java];

    /// Position in declaration order; `Ord` on `Lang` follows it.
    pub open spec fn index(self) -> nat {
        match self {
            Lang::Go => 0,
            Lang::TypeScript => 1,
            Lang::Python => 2,
            Lang::Rust => 3,
            Lang::Java => 4,
        }
    }

    /// The lower-case name used in output.
    pub open spec fn spec_name(self) -> Seq<char> {
        match self {
            Lang::Go => "go"@,
            Lang::TypeScript => "typescript"@,
            Lang::Python => "python"@,
            Lang::Rust => "rust"@,
            Lang::Java => "java"@,
        }
    }

    pub fn as_str(&self) -> (s: &'static str)
        ensures
            s@ == self.spec_name(),
    {
        match self {
            Lang::Go => "go",
            Lang::TypeScript => "typescript",
            Lang::Python => "python",
            Lang::Rust => "rust",
            Lang::Java => "java",
        }
    }

    /// Marker files that prove the language is present, strongest first.
    pub fn markers(&self) -> (m: &'static [&'static str])
        ensures
            m@.map_values(|s: &str| s@) == spec_markers(*self),
    {
        proof {
            reveal_strlit("go.mod");
        }
        let m: &'static [&'static str] = match self {
            Lang::Go => &["go.mod", "go.work"],
            Lang::TypeScript => &["tsconfig.json", "package.json"],
            Lang::Python => &["pyproject.toml", "setup.py", "requirements.txt", "Pipfile"],
            Lang::Rust => &["Cargo.toml"],
            Lang::Java => &["pom.xml", "build.gradle", "build.gradle.kts"],
        };
        assert(m@.map_values(|s: &str| s@) =~= spec_markers(*self));
        m
    }
}

/// One entry below the project root.
#[derive(Debug, Clone)]
pub struct Entry {
    /// The directories leading to it, outermost first; empty at the root.
    pub dir: Vec<String>,
    pub name: String,
    pub is_dir: bool,
}

/// What an [`Entry`] is, as values.
pub struct EntryView {
    pub dir: Seq<Seq<char>>,
    pub name: Seq<char>,
    pub is_dir: bool,
}

impl View for Entry {
    type V = EntryView;

    open spec fn view(&self) -> EntryView {
        EntryView { dir: self.dir@.map_values(|d: String| d@), name: self.name@, is_dir: self.is_dir }
    }
}

/// The entries below a project root that detection and planning read.
#[derive(Debug, Clone)]
pub struct Listing {
    pub entries: Vec<Entry>,
}

impl View for Listing {
    type V = Seq<EntryView>;

    open spec fn view(&self) -> Seq<EntryView> {
        self.entries@.map_values(|e: Entry| e@)
    }
}

/// A language found, with the marker that proved it.
#[derive(Debug, Clone)]
pub struct Detected {
    pub lang: Lang,
    /// The marker that proved it, relative to the project root.
    pub marker: String,
}

/// What a [`Detected`] is, as values.
pub struct DetectedView {
    pub lang: Lang,
    pub marker: Seq<char>,
}

impl View for Detected {
    type V = DetectedView;

    open spec fn view(&self) -> DetectedView {
        DetectedView { lang: self.lang, marker: self.marker@ }
    }
}

/// The path of an entry relative to the root, `/`-separated.
pub open spec fn rel_path(e: EntryView) -> Seq<char> {
    seq_join(e.dir.push(e.name), "/"@)
}

/// Every directory on the way to `e` is searched, within `max_depth` levels.
pub open spec fn reachable(e: EntryView, max_depth: nat) -> bool {
    e.dir.len() <= max_depth && forall|i: int| 0 <= i < e.dir.len() ==> spec_descend(#[trigger] e.dir[i])
}

/// The regular file `name` exists in directory `dir`.
pub open spec fn has_file(ls: Seq<EntryView>, dir: Seq<Seq<char>>, name: Seq<char>) -> bool {
    exists|j: int| 0 <= j < ls.len() && !ls[j].is_dir && ls[j].dir == dir && #[trigger] ls[j].name == name
}

/// Entry `i` is the marker that proves `l` in its directory: a reachable
/// regular file whose name is a marker of `l`, with no stronger marker of `l` beside it.
pub open spec fn proves(ls: Seq<EntryView>, i: int, l: Lang, max_depth: nat) -> bool {
    let e = ls[i];
    &&& 0 <= i < ls.len()
    &&& !e.is_dir
    &&& reachable(e, max_depth)
    &&& exists|k: int| {
        &&& 0 <= k < spec_markers(l).len()
        &&& spec_markers(l)[k] == e.name
        &&& forall|k2: int| 0 <= k2 < k ==> !has_file(ls, e.dir, #[trigger] spec_markers(l)[k2])
    }
}

/// `p` is the path of a marker that proves `l`.
pub open spec fn proven_by(ls: Seq<EntryView>, l: Lang, p: Seq<char>, max_depth: nat) -> bool {
    exists|i: int| proves(ls, i, l, max_depth) && rel_path(ls[i]) == p
}

/// The detection result: languages in `Ord` order, each once, each with the
/// least (lexicographically) of the marker paths that prove it.
pub open spec fn detection(ls: Seq<EntryView>, max_depth: nat, r: Seq<DetectedView>) -> bool {
    &&& forall|i: int, j: int| 0 <= i < j < r.len() ==> r[i].lang.index() < r[j].lang.index()
    &&& forall|i: int| 0 <= i < r.len() ==> proven_by(ls, r[i].lang, #[trigger] r[i].marker, max_depth)
    &&& forall|i: int, p: Seq<char>|
        #![trigger proven_by(ls, r[i].lang, p, max_depth)]
        0 <= i < r.len() && proven_by(ls, r[i].lang, p, max_depth) ==> seq_le(r[i].marker, p)
    &&& forall|l: Lang, p: Seq<char>| proven_by(ls, l, p, max_depth)
        ==> exists|i: int| 0 <= i < r.len() && #[trigger] r[i].lang == l
}

/// Directories never worth descending into.
pub fn skip_dir(name: &str) -> (r: bool)
    ensures
        r == spec_skip_dir(name@),
{
    str_eq(name, ".git") || str_eq(name, "node_modules") || str_eq(name, "vendor") || str_eq(
        name,
        "target",
    ) || str_eq(name, "dist") || str_eq(name, "build") || str_eq(name, ".venv") || str_eq(
        name,
        "venv",
    ) || str_eq(name, "__pycache__") || str_eq(name, ".gradle") || str_eq(name, ".idea")
}

/// Whether a directory named `name` is searched for markers.
pub fn descend(name: &str) -> (r: bool)
    ensures
        r == spec_descend(name@),
{
    !skip_dir(name) && !starts_with(name, ".")
}

/// Equality of two directory paths.
fn same_dir(a: &Vec<String>, b: &Vec<String>) -> (r: bool)
    ensures
        r == (a@.map_values(|d: String| d@) == b@.map_values(|d: String| d@)),
{
    let ghost va = a@.map_values(|d: String| d@);
    let ghost vb = b@.map_values(|d: String| d@);
    if a.len() != b.len() {
        assert(va.len() != vb.len());
        return false;
    }
    let mut i: usize = 0;
    while i < a.len()
        invariant
            a@.len() == b@.len(),
            i <= a@.len(),
            va == a@.map_values(|d: String| d@),
            vb == b@.map_values(|d: String| d@),
            forall|j: int| 0 <= j < i ==> va[j] == vb[j],
        decreases a.len() - i,
    {
        if !str_eq(a[i].as_str(), b[i].as_str()) {
            assert(va[i as int] != vb[i as int]);
            return false;
        }
        i = i + 1;
    }
    assert(va =~= vb);
    true
}

/// The path of entry `e` relative to the root.
fn entry_path(e: &Entry) -> (r: String)
    ensures
        r@ == rel_path(e@),
{
    let mut parts: Vec<String> = e.dir.clone();
    parts.push(e.name.clone());
    proof {
        assert(parts@.map_values(|p: String| p@) =~= e@.dir.push(e@.name));
    }
    join(&parts, "/")
}

/// Every directory leading to `e` is searched, within `max_depth` levels.
fn is_reachable(e: &Entry, max_depth: usize) -> (r: bool)
    ensures
        r == reachable(e@, max_depth as nat),
{
    let ghost v = e@;
    if e.dir.len() > max_depth {
        return false;
    }
    let mut i: usize = 0;
    while i < e.dir.len()
        invariant
            v == e@,
            i <= e.dir@.len(),
            forall|j: int| 0 <= j < i ==> spec_descend(#[trigger] v.dir[j]),
        decreases e.dir.len() - i,
    {
        if !descend(e.dir[i].as_str()) {
            assert(!spec_descend(v.dir[i as int]));
            return false;
        }
        i = i + 1;
    }
    true
}

/// Whether the regular file `name` is listed in directory `dir`.
fn file_in(ls: &Listing, dir: &Vec<String>, name: &str) -> (r: bool)
    ensures
        r == has_file(ls@, dir@.map_values(|d: String| d@), name@),
{
    let ghost v = ls@;
    let mut j: usize = 0;
    while j < ls.entries.len()
        invariant
            v == ls@,
            j <= v.len(),
            forall|k: int|
                0 <= k < j ==> !(!v[k].is_dir && v[k].dir == dir@.map_values(|d: String| d@)
                    && #[trigger] v[k].name == name@),
        decreases ls.entries.len() - j,
    {
        let e = &ls.entries[j];
        assert(v[j as int] == e@);
        if !e.is_dir && same_dir(&e.dir, dir) && str_eq(e.name.as_str(), name) {
            assert(!v[j as int].is_dir && v[j as int].dir == dir@.map_values(|d: String| d@) && v[j as int].name == name@);
            return true;
        }
        j = j + 1;
    }
    false
}

/// The markers of one language are distinct names (their lengths differ).
proof fn lemma_markers_distinct(l: Lang)
    ensures
        forall|a: int, b: int|
            0 <= a < spec_markers(l).len() && 0 <= b < spec_markers(l).len() && a != b
                ==> spec_markers(l)[a] != spec_markers(l)[b],
{
    reveal_strlit("go.mod");
    reveal_strlit("go.work");
    reveal_strlit("tsconfig.json");
    reveal_strlit("package.json");
    reveal_strlit("pyproject.toml");
    reveal_strlit("setup.py");
    reveal_strlit("requirements.txt");
    reveal_strlit("Pipfile");
    reveal_strlit("Cargo.toml");
    reveal_strlit("pom.xml");
    reveal_strlit("build.gradle");
    reveal_strlit("build.gradle.kts");
    let ms = spec_markers(l);
    assert forall|a: int, b: int| 0 <= a < ms.len() && 0 <= b < ms.len() && a != b implies ms[a] != ms[b] by {
        assert(ms[a].len() != ms[b].len());
    }
}

/// Whether entry `i` is the marker that proves `lang` in its directory.
fn entry_proves(ls: &Listing, i: usize, lang: Lang, max_depth: usize) -> (r: bool)
    requires
        i < ls@.len(),
    ensures
        r == proves(ls@, i as int, lang, max_depth as nat),
{
    let e = &ls.entries[i];
    assert(ls@[i as int] == e@);
    if e.is_dir || !is_reachable(e, max_depth) {
        return false;
    }
    let markers = lang.markers();
    let ghost ms = spec_markers(lang);
    proof {
        lemma_markers_distinct(lang);
    }
    let mut k: usize = 0;
    while k < markers.len()
        invariant
            i < ls@.len(),
            ms == spec_markers(lang),
            markers@.map_values(|s: &str| s@) == ms,
            k <= ms.len(),
            e@ == ls@[i as int],
            !e@.is_dir,
            reachable(e@, max_depth as nat),
            forall|k1: int| 0 <= k1 < k ==> ms[k1] != e@.name,
        decreases markers.len() - k,
    {
        let m = markers[k];
        assert(ms[k as int] == m@);
        if str_eq(m, e.name.as_str()) {
            // `e` is the strongest marker in its directory exactly when no earlier one exists
            let mut k2: usize = 0;
            while k2 < k
                invariant
                    i < ls@.len(),
                    k < ms.len(),
                    k2 <= k,
                    ms == spec_markers(lang),
                    markers@.map_values(|s: &str| s@) == ms,
                    e@ == ls@[i as int],
                    ms[k as int] == e@.name,
                    forall|k3: int| 0 <= k3 < k2 ==> !has_file(ls@, e@.dir, #[trigger] ms[k3]),
                decreases k - k2,
            {
                assert(ms[k2 as int] == markers@[k2 as int]@);
                if file_in(ls, &e.dir, markers[k2]) {
                    proof {
                        lemma_markers_distinct(lang);
                        assert forall|kk: int|
                            0 <= kk < ms.len() && ms[kk] == e@.name implies !(forall|k3: int|
                            0 <= k3 < kk ==> !has_file(ls@, e@.dir, #[trigger] ms[k3])) by {
                            assert(kk == k);
                            assert(has_file(ls@, e@.dir, ms[k2 as int]));
                        }
                    }
                    return false;
                }
                k2 = k2 + 1;
            }
            assert(ms[k as int] == e@.name);
            return true;
        }
        k = k + 1;
    }
    false
}

/// Walk the listing for marker files in directories at most `max_depth`
/// levels below the root. Depth 2 covers the common monorepo shape
/// (`services/api/go.mod`) without walking the world.
pub fn detect(ls: &Listing, max_depth: usize) -> (r: Vec<Detected>)
    ensures
        detection(ls@, max_depth as nat, r@.map_values(|d: Detected| d@)),
{
    let mut out: Vec<Detected> = Vec::new();
    let mut li: usize = 0;
    while li < 5
        invariant
            li <= 5,
            detection_prefix(ls@, max_depth as nat, out@.map_values(|d: Detected| d@), li as nat),
        decreases 5 - li,
    {
        let lang = Lang::ALL[li];
        let mut best: Option<String> = None;
        let mut i: usize = 0;
        while i < ls.entries.len()
            invariant
                i <= ls@.len(),
                lang.index() == li,
                best matches Some(b) ==> proven_by(ls@, lang, b@, max_depth as nat),
                best matches Some(b) ==> forall|j: int|
                    0 <= j < i && proves(ls@, j, lang, max_depth as nat) ==> seq_le(b@, rel_path(ls@[j])),
                best is None ==> forall|j: int| 0 <= j < i ==> !proves(ls@, j, lang, max_depth as nat),
            decreases ls.entries.len() - i,
        {
            if entry_proves(ls, i, lang, max_depth) {
                let p = entry_path(&ls.entries[i]);
                assert(ls@[i as int] == ls.entries[i as int]@);
                let better = match &best {
                    None => true,
                    Some(b) => less_than(p.as_str(), b.as_str()),
                };
                if better {
                    proof {
                        if let Some(b) = &best {
                            assert forall|j: int|
                                0 <= j < i && proves(ls@, j, lang, max_depth as nat) implies seq_le(
                                p@,
                                rel_path(ls@[j]),
                            ) by {
                                if seq_lt(b@, rel_path(ls@[j])) {
                                    lemma_lt_transitive(p@, b@, rel_path(ls@[j]));
                                }
                            }
                        }
                    }
                    best = Some(p);
                } else {
                    proof {
                        if let Some(b) = &best {
                            lemma_lt_total(p@, b@);
                        }
                    }
                }
            }
            i = i + 1;
        }
        let ghost before = out@.map_values(|d: Detected| d@);
        match best {
            Some(b) => {
                proof {
                    assert forall|p: Seq<char>| proven_by(ls@, lang, p, max_depth as nat) implies seq_le(b@, p) by {
                        let j = choose|j: int| proves(ls@, j, lang, max_depth as nat) && rel_path(ls@[j]) == p;
                    }
                }
                out.push(Detected { lang, marker: b });
                assert(out@.map_values(|d: Detected| d@) =~= before.push(DetectedView { lang, marker: b@ }));
                proof {
                    let r = out@.map_values(|d: Detected| d@);
                    assert(r[r.len() - 1].lang == lang);
                    assert forall|l: Lang, p: Seq<char>| l.index() < li + 1 && proven_by(ls@, l, p, max_depth as nat)
                        implies exists|i: int| 0 <= i < r.len() && #[trigger] r[i].lang == l by {
                        if l.index() == li {
                            assert(l == lang);
                            assert(r[r.len() - 1].lang == l);
                        } else {
                            let i0 = choose|i: int| 0 <= i < before.len() && #[trigger] before[i].lang == l;
                            assert(r[i0].lang == l);
                        }
                    }
                }
            },
            None => {
                proof {
                    assert forall|p: Seq<char>| !proven_by(ls@, lang, p, max_depth as nat) by {
                        if proven_by(ls@, lang, p, max_depth as nat) {
                            let j = choose|j: int| proves(ls@, j, lang, max_depth as nat) && rel_path(ls@[j]) == p;
                        }
                    }
                    let r = out@.map_values(|d: Detected| d@);
                    assert forall|l: Lang, p: Seq<char>| l.index() < li + 1 && proven_by(ls@, l, p, max_depth as nat)
                        implies exists|i: int| 0 <= i < r.len() && #[trigger] r[i].lang == l by {
                        if l.index() == li {
                            assert(l == lang);
                        }
                    }
                }
            },
        }
        li = li + 1;
    }
    proof {
        let r = out@.map_values(|d: Detected| d@);
        assert forall|l: Lang, p: Seq<char>| proven_by(ls@, l, p, max_depth as nat) implies exists|i: int|
            0 <= i < r.len() && #[trigger] r[i].lang == l by {
            assert(l.index() < 5);
        }
    }
    out
}

/// The first `n` languages (in `Ord` order) are handled: `r` is the detection
/// result restricted to them.
pub open spec fn detection_prefix(ls: Seq<EntryView>, max_depth: nat, r: Seq<DetectedView>, n: nat) -> bool {
    &&& forall|i: int, j: int| 0 <= i < j < r.len() ==> r[i].lang.index() < r[j].lang.index()
    &&& forall|i: int| 0 <= i < r.len() ==> r[i].lang.index() < n
    &&& forall|i: int| 0 <= i < r.len() ==> proven_by(ls, r[i].lang, #[trigger] r[i].marker, max_depth)
    &&& forall|i: int, p: Seq<char>|
        #![trigger proven_by(ls, r[i].lang, p, max_depth)]
        0 <= i < r.len() && proven_by(ls, r[i].lang, p, max_depth) ==> seq_le(r[i].marker, p)
    &&& forall|l: Lang, p: Seq<char>| l.index() < n && proven_by(ls, l, p, max_depth)
        ==> exists|i: int| 0 <= i < r.len() && #[trigger] r[i].lang == l
}

/// A `package.json` without a `tsconfig.json` is JS, not TS. Callers that care
/// about the distinction can use this; detection stays permissive.
pub fn has_typescript_config(ls: &Listing) -> (r: bool)
    ensures
        r == has_file(ls@, Seq::empty(), "tsconfig.json"@),
{
    let root: Vec<String> = Vec::new();
    assert(root@.map_values(|d: String| d@) =~= Seq::<Seq<char>>::empty());
    file_in(ls, &root, "tsconfig.json")
}


/// The first `n` entries of two detection results over the same listing agree.
proof fn lemma_detection_prefix_agrees(ls: Seq<EntryView>, d: nat, r1: Seq<DetectedView>, r2: Seq<DetectedView>, n: int)
    requires
        detection(ls, d, r1),
        detection(ls, d, r2),
        0 <= n <= r1.len(),
        n <= r2.len(),
        forall|i: int| 0 <= i < n ==> r1[i] == r2[i],
    ensures
        r1 == r2,
    decreases r1.len() + r2.len() - 2 * n,
{
    if n == r1.len() && n == r2.len() {
        assert(r1 =~= r2);
    } else if n == r1.len() {
        // r2 has one more language than r1, which r1 must also name
        let l = r2[n].lang;
        assert(proven_by(ls, r2[n].lang, r2[n].marker, d));
        let i = choose|i: int| 0 <= i < r1.len() && #[trigger] r1[i].lang == l;
        assert(r2[i] == r1[i]);
        assert(r2[i].lang.index() < r2[n].lang.index());
    } else if n == r2.len() {
        let l = r1[n].lang;
        assert(proven_by(ls, r1[n].lang, r1[n].marker, d));
        let i = choose|i: int| 0 <= i < r2.len() && #[trigger] r2[i].lang == l;
        assert(r1[i] == r2[i]);
        assert(r1[i].lang.index() < r1[n].lang.index());
    } else {
        let a = r1[n];
        let b = r2[n];
        assert(proven_by(ls, a.lang, a.marker, d));
        assert(proven_by(ls, b.lang, b.marker, d));
        let j = choose|j: int| 0 <= j < r2.len() && #[trigger] r2[j].lang == a.lang;
        let i = choose|i: int| 0 <= i < r1.len() && #[trigger] r1[i].lang == b.lang;
        // neither can name its language earlier than the other does
        if j < n {
            assert(r1[j] == r2[j]);
            assert(r1[j].lang.index() < r1[n].lang.index());
        }
        if i < n {
            assert(r2[i] == r1[i]);
            assert(r2[i].lang.index() < r2[n].lang.index());
        }
        if j > n {
            assert(r2[n].lang.index() < r2[j].lang.index());
            if i > n {
                assert(r1[n].lang.index() < r1[i].lang.index());
            }
        }
        if i > n {
            assert(r1[n].lang.index() < r1[i].lang.index());
        }
        assert(a.lang.index() == b.lang.index());
        assert(a.lang == b.lang);
        // each marker is the least that proves the language
        assert(seq_le(a.marker, b.marker));
        assert(seq_le(b.marker, a.marker));
        lemma_lt_total(a.marker, b.marker);
        assert(a == b);
        lemma_detection_prefix_agrees(ls, d, r1, r2, n + 1);
    }
}

/// Detection never looks inside `.git`, `node_modules`, `vendor`, `target`,
/// `dist`, `build`, `.venv`, `venv`, `__pycache__`, `.gradle`, `.idea` or any
/// other hidden directory: no directory on the way to a marker that proves a
/// language is one of them.
pub proof fn skipped_directories_are_not_searched(ls: Seq<EntryView>, i: int, l: Lang, d: nat)
    requires
        proves(ls, i, l, d),
    ensures
        forall|k: int|
            0 <= k < ls[i].dir.len() ==> {
                let n = #[trigger] ls[i].dir[k];
                &&& n != ".git"@ && n != "node_modules"@ && n != "vendor"@ && n != "target"@ && n != "dist"@
                &&& n != "build"@ && n != ".venv"@ && n != "venv"@ && n != "__pycache__"@ && n != ".gradle"@
                &&& n != ".idea"@
                &&& !(n.len() > 0 && n[0] == '.')
            },
{
    reveal_strlit(".");
    assert forall|k: int| 0 <= k < ls[i].dir.len() implies !(ls[i].dir[k].len() > 0 && #[trigger] ls[i].dir[k][0]
        == '.') by {
        let n = ls[i].dir[k];
        assert(spec_descend(n));
        if n.len() > 0 && n[0] == '.' {
            assert(n.subrange(0, 1) =~= "."@);
        }
    }
}

/// The build files that prove each language, strongest first.
pub proof fn marker_table()
    ensures
        spec_markers(Lang::Go) == seq!["go.mod"@, "go.work"@],
        spec_markers(Lang::TypeScript) == seq!["tsconfig.json"@, "package.json"@],
        spec_markers(Lang::Python) == seq!["pyproject.toml"@, "setup.py"@, "requirements.txt"@, "Pipfile"@],
        spec_markers(Lang::Rust) == seq!["Cargo.toml"@],
        spec_markers(Lang::Java) == seq!["pom.xml"@, "build.gradle"@, "build.gradle.kts"@],
{
}

/// `name` is one of the build files of `l`, written out.
proof fn lemma_marker_index(l: Lang, name: Seq<char>) -> (k: int)
    requires
        match l {
            Lang::Go => name == "go.mod"@ || name == "go.work"@,
            Lang::TypeScript => name == "tsconfig.json"@ || name == "package.json"@,
            Lang::Python => name == "pyproject.toml"@ || name == "setup.py"@ || name == "requirements.txt"@
                || name == "Pipfile"@,
            Lang::Rust => name == "Cargo.toml"@,
            Lang::Java => name == "pom.xml"@ || name == "build.gradle"@ || name == "build.gradle.kts"@,
        },
    ensures
        0 <= k < spec_markers(l).len(),
        spec_markers(l)[k] == name,
{
    let ms = spec_markers(l);
    if ms.len() > 0 && ms[0] == name {
        0
    } else if ms.len() > 1 && ms[1] == name {
        1
    } else if ms.len() > 2 && ms[2] == name {
        2
    } else {
        3
    }
}

/// Of the markers of `l` up to `k` that `dir` holds, the strongest.
proof fn lemma_strongest_marker(ls: Seq<EntryView>, dir: Seq<Seq<char>>, l: Lang, k: int) -> (m: int)
    requires
        0 <= k < spec_markers(l).len(),
        has_file(ls, dir, spec_markers(l)[k]),
    ensures
        0 <= m <= k,
        has_file(ls, dir, spec_markers(l)[m]),
        forall|k2: int| 0 <= k2 < m ==> !has_file(ls, dir, #[trigger] spec_markers(l)[k2]),
    decreases k,
{
    if exists|k2: int| 0 <= k2 < k && has_file(ls, dir, #[trigger] spec_markers(l)[k2]) {
        let k2 = choose|k2: int| 0 <= k2 < k && has_file(ls, dir, #[trigger] spec_markers(l)[k2]);
        lemma_strongest_marker(ls, dir, l, k2)
    } else {
        k
    }
}

/// A regular file named after a build file of a language (`go.mod` or
/// `go.work` for Go; `tsconfig.json` or `package.json` for TypeScript;
/// `pyproject.toml`, `setup.py`, `requirements.txt` or `Pipfile` for Python;
/// `Cargo.toml` for Rust; `pom.xml`, `build.gradle` or `build.gradle.kts` for
/// Java), in a directory that detection searches, makes the detection result
/// name that language.
pub proof fn a_marker_file_proves_its_language(ls: Seq<EntryView>, d: nat, r: Seq<DetectedView>, j: int, l: Lang)
    requires
        detection(ls, d, r),
        0 <= j < ls.len(),
        !ls[j].is_dir,
        reachable(ls[j], d),
        match l {
            Lang::Go => ls[j].name == "go.mod"@ || ls[j].name == "go.work"@,
            Lang::TypeScript => ls[j].name == "tsconfig.json"@ || ls[j].name == "package.json"@,
            Lang::Python => ls[j].name == "pyproject.toml"@ || ls[j].name == "setup.py"@ || ls[j].name
                == "requirements.txt"@ || ls[j].name == "Pipfile"@,
            Lang::Rust => ls[j].name == "Cargo.toml"@,
            Lang::Java => ls[j].name == "pom.xml"@ || ls[j].name == "build.gradle"@ || ls[j].name
                == "build.gradle.kts"@,
        },
    ensures
        exists|i: int| 0 <= i < r.len() && r[i].lang == l,
{
    let dir = ls[j].dir;
    let k0 = lemma_marker_index(l, ls[j].name);
    assert(has_file(ls, dir, spec_markers(l)[k0]));
    let k = lemma_strongest_marker(ls, dir, l, k0);
    let j2 = choose|j2: int|
        0 <= j2 < ls.len() && !ls[j2].is_dir && ls[j2].dir == dir && #[trigger] ls[j2].name == spec_markers(l)[k];
    assert(reachable(ls[j2], d));
    assert(proves(ls, j2, l, d));
    assert(proven_by(ls, l, rel_path(ls[j2]), d));
}

/// Detection is deterministic: a listing has exactly one detection result.
pub proof fn detection_is_deterministic(ls: Seq<EntryView>, d: nat, r1: Seq<DetectedView>, r2: Seq<DetectedView>)
    requires
        detection(ls, d, r1),
        detection(ls, d, r2),
    ensures
        r1 == r2,
{
    lemma_detection_prefix_agrees(ls, d, r1, r2, 0);
}

} // verus!
