//! The tool registry — revd's extension point.
//!
//! Adding support for a new tool means adding one [`ToolSpec`] to
//! `registry.rs` and listing it in [`registry::all`]. No trait to implement,
//! no dispatch to wire: a tool is data.
pub mod registry;

use crate::lang::{EntryView, Lang, Listing};
use crate::text::{concat, first_line_of, first_line, lemma_lt_total, lemma_lt_transitive, less_than, owned, seq_lt, seq_trim, str_eq, trim};
use vstd::prelude::*;

verus! {

/// What job a tool does. One tool may only fill one role; use two specs if it
/// genuinely does two (e.g. ruff lint vs ruff format).
#[derive(Debug, Clone, Copy, PartialEq, Eq, PartialOrd, Ord, Structural)]
pub enum Role {
    Secrets,
    Sast,
    Lint,
    TypeCheck,
    Deps,
    Format,
}

impl Role {
    /// Position in declaration order; `Ord` on `Role` follows it.
    pub open spec fn index(self) -> nat {
        match self {
            Role::Secrets => 0,
            Role::Sast => 1,
            Role::Lint => 2,
            Role::TypeCheck => 3,
            Role::Deps => 4,
            Role::Format => 5,
        }
    }

    pub open spec fn spec_name(self) -> Seq<char> {
        match self {
            Role::Secrets => "secrets"@,
            Role::Sast => "sast"@,
            Role::Lint => "lint"@,
            Role::TypeCheck => "typecheck"@,
            Role::Deps => "deps"@,
            Role::Format => "format"@,
        }
    }

    pub fn as_str(&self) -> (s: &'static str)
        ensures
            s@ == self.spec_name(),
    {
        match self {
            Role::Secrets => "secrets",
            Role::Sast => "sast",
            Role::Lint => "lint",
            Role::TypeCheck => "typecheck",
            Role::Deps => "deps",
            Role::Format => "format",
        }
    }

    /// Every role, in declaration order.
    pub const ALL: [Role; 6] = [Role::Secrets, Role::Sast, Role::Lint, Role::TypeCheck, Role::Deps, Role::Format];
}

/// How the user installs the tool. revd never installs anything itself — it
/// prints the command, so the user stays in control of their machine.
#[derive(Debug, Clone, Copy)]
pub enum Install {
    Brew(&'static str),
    Go(&'static str),
    Cargo(&'static str),
    Npm(&'static str),
    Pipx(&'static str),
    /// Ships with the language toolchain; nothing to install.
    Builtin,
    Manual(&'static str),
}

/// What an [`Install`] is, as values.
pub enum InstallView {
    Brew(Seq<char>),
    Go(Seq<char>),
    Cargo(Seq<char>),
    Npm(Seq<char>),
    Pipx(Seq<char>),
    Builtin,
    Manual(Seq<char>),
}

impl View for Install {
    type V = InstallView;

    open spec fn view(&self) -> InstallView {
        match self {
            Install::Brew(p) => InstallView::Brew(p@),
            Install::Go(p) => InstallView::Go(p@),
            Install::Cargo(p) => InstallView::Cargo(p@),
            Install::Npm(p) => InstallView::Npm(p@),
            Install::Pipx(p) => InstallView::Pipx(p@),
            Install::Builtin => InstallView::Builtin,
            Install::Manual(s) => InstallView::Manual(s@),
        }
    }
}

/// The package-manager command prefix and the package, for installs that
/// can share one command line with others of the same manager.
pub open spec fn spec_group(i: InstallView) -> Option<(Seq<char>, Seq<char>)> {
    match i {
        InstallView::Brew(p) => Some(("brew install"@, p)),
        InstallView::Go(p) => Some(("go install"@, p)),
        InstallView::Cargo(p) => Some(("cargo install"@, p)),
        InstallView::Npm(p) => Some(("npm i -g"@, p)),
        InstallView::Pipx(p) => Some(("pipx install"@, p)),
        InstallView::Builtin => None,
        InstallView::Manual(_) => None,
    }
}

/// The command that installs the tool.
pub open spec fn spec_command(i: InstallView) -> Seq<char> {
    match i {
        InstallView::Brew(p) => "brew install "@ + p,
        InstallView::Go(p) => "go install "@ + p,
        InstallView::Cargo(p) => "cargo install "@ + p,
        InstallView::Npm(p) => "npm i -g "@ + p,
        InstallView::Pipx(p) => "pipx install "@ + p,
        InstallView::Builtin => "(ships with the toolchain)"@,
        InstallView::Manual(s) => s,
    }
}

impl Install {
    pub fn command(&self) -> (r: String)
        ensures
            r@ == spec_command(self@),
    {
        match self {
            Install::Brew(p) => concat("brew install ", p),
            Install::Go(p) => concat("go install ", p),
            Install::Cargo(p) => concat("cargo install ", p),
            Install::Npm(p) => concat("npm i -g ", p),
            Install::Pipx(p) => concat("pipx install ", p),
            Install::Builtin => owned("(ships with the toolchain)"),
            Install::Manual(s) => owned(s),
        }
    }

    /// `(prefix, package)` for installs that collapse onto one command line per manager.
    pub fn group(&self) -> (r: Option<(&'static str, &'static str)>)
        ensures
            r matches Some(g) ==> spec_group(self@) == Some((g.0@, g.1@)),
            r is None ==> spec_group(self@) is None,
    {
        match self {
            Install::Brew(p) => Some(("brew install", *p)),
            Install::Go(p) => Some(("go install", *p)),
            Install::Cargo(p) => Some(("cargo install", *p)),
            Install::Npm(p) => Some(("npm i -g", *p)),
            Install::Pipx(p) => Some(("pipx install", *p)),
            Install::Builtin => None,
            Install::Manual(_) => None,
        }
    }

    /// Ships with the language toolchain.
    pub fn is_builtin(&self) -> (r: bool)
        ensures
            r == (self@ is Builtin),
    {
        match self {
            Install::Builtin => true,
            _ => false,
        }
    }
}

/// What the tool can emit. Drives how findings are parsed later; for `init`
/// it is documentation of what we would get.
#[derive(Debug, Clone, Copy, PartialEq, Eq, Structural)]
pub enum Output {
    /// SARIF 2.1.0 — one parser serves all of these.
    Sarif,
    /// Structured but tool-specific.
    Json,
    /// Needs a bespoke parser.
    Text,
}

impl Output {
    pub open spec fn spec_name(self) -> Seq<char> {
        match self {
            Output::Sarif => "sarif"@,
            Output::Json => "json"@,
            Output::Text => "text"@,
        }
    }

    /// The lower-case name used in output.
    pub fn as_str(&self) -> (s: &'static str)
        ensures
            s@ == self.spec_name(),
    {
        match self {
            Output::Sarif => "sarif",
            Output::Json => "json",
            Output::Text => "text",
        }
    }
}

/// A config file revd can generate for a tool.
#[derive(Debug, Clone, Copy)]
pub struct Template {
    /// Where it goes, relative to the project root.
    pub path: &'static str,
    pub contents: &'static str,
}

/// Everything revd knows about one tool.
#[derive(Debug, Clone, Copy)]
pub struct ToolSpec {
    pub id: &'static str,
    pub role: Role,
    /// Languages this serves. Empty means language-agnostic.
    pub langs: &'static [Lang],
    /// Executable used to invoke the tool.
    pub binary: &'static str,
    /// Executable to probe for existence, when it differs from `binary`.
    /// Cargo subcommands install as `cargo-clippy` but are invoked as `cargo clippy`.
    pub probe: Option<&'static str>,
    pub version_args: &'static [&'static str],
    pub install: Install,
    /// Existing config files that mean "already set up — don't touch".
    pub config_files: &'static [&'static str],
    /// Config revd offers to write. None = tool needs no config.
    pub template: Option<Template>,
    /// How to run it over changed code only, for the hook.
    pub scan_args: &'static [&'static str],
    pub output: Output,
    /// One line shown to the user explaining why this tool.
    pub why: &'static str,
    /// Caveats worth surfacing (licence, maintenance, gotchas).
    pub note: &'static str,
}

/// What a [`ToolSpec`] is, as values.
pub struct ToolView {
    pub id: Seq<char>,
    pub role: Role,
    pub langs: Seq<Lang>,
    pub binary: Seq<char>,
    pub probe: Option<Seq<char>>,
    pub version_args: Seq<Seq<char>>,
    pub install: InstallView,
    pub config_files: Seq<Seq<char>>,
    pub template_path: Option<Seq<char>>,
    pub template_contents: Option<Seq<char>>,
    pub scan_args: Seq<Seq<char>>,
    pub output: Output,
    pub why: Seq<char>,
    pub note: Seq<char>,
}

/// The views of a slice of string literals.
pub open spec fn strs(s: Seq<&'static str>) -> Seq<Seq<char>> {
    s.map_values(|x: &str| x@)
}

impl View for ToolSpec {
    type V = ToolView;

    open spec fn view(&self) -> ToolView {
        ToolView {
            id: self.id@,
            role: self.role,
            langs: self.langs@,
            binary: self.binary@,
            probe: match self.probe {
                Some(p) => Some(p@),
                None => None,
            },
            version_args: strs(self.version_args@),
            install: self.install@,
            config_files: strs(self.config_files@),
            template_path: match self.template {
                Some(t) => Some(t.path@),
                None => None,
            },
            template_contents: match self.template {
                Some(t) => Some(t.contents@),
                None => None,
            },
            scan_args: strs(self.scan_args@),
            output: self.output,
            why: self.why@,
            note: self.note@,
        }
    }
}

/// The tool serves a project containing `langs`.
pub open spec fn applies(t: ToolView, langs: Seq<Lang>) -> bool {
    t.langs.len() == 0 || exists|i: int| 0 <= i < t.langs.len() && langs.contains(#[trigger] t.langs[i])
}

/// An entry named `name` exists at the project root (file or directory).
pub open spec fn root_has(ls: Seq<EntryView>, name: Seq<char>) -> bool {
    exists|j: int| 0 <= j < ls.len() && ls[j].dir.len() == 0 && #[trigger] ls[j].name == name
}

/// The first of `names` that exists at the root.
pub open spec fn first_existing(ls: Seq<EntryView>, names: Seq<Seq<char>>) -> Option<Seq<char>>
    decreases names.len(),
{
    if names.len() == 0 {
        None
    } else if root_has(ls, names[0]) {
        Some(names[0])
    } else {
        first_existing(ls, names.drop_first())
    }
}

/// The version line a tool reports: nothing when it failed and printed
/// nothing; else the first line of stdout, or of stderr when stdout is blank.
pub open spec fn spec_version(success: bool, stdout: Seq<char>, stderr: Seq<char>) -> Option<Seq<char>> {
    if !success && stdout.len() == 0 {
        None
    } else {
        let text = if seq_trim(stdout).len() == 0 { stderr } else { stdout };
        match first_line(text) {
            Some(l) => Some(seq_trim(l)),
            None => None,
        }
    }
}

/// The registry order: by role, then by id.
pub open spec fn tool_lt(a: ToolView, b: ToolView) -> bool {
    a.role.index() < b.role.index() || (a.role == b.role && seq_lt(a.id, b.id))
}

/// An entry at the root named `name` exists.
pub fn root_entry(ls: &Listing, name: &str) -> (r: bool)
    ensures
        r == root_has(ls@, name@),
{
    let ghost v = ls@;
    let mut j: usize = 0;
    while j < ls.entries.len()
        invariant
            v == ls@,
            j <= v.len(),
            forall|k: int| 0 <= k < j ==> !(v[k].dir.len() == 0 && #[trigger] v[k].name == name@),
        decreases ls.entries.len() - j,
    {
        let e = &ls.entries[j];
        assert(v[j as int] == e@);
        if e.dir.len() == 0 && str_eq(e.name.as_str(), name) {
            assert(v[j as int].dir.len() == 0 && v[j as int].name == name@);
            return true;
        }
        j = j + 1;
    }
    false
}

impl ToolSpec {
    /// Does this tool apply to a project containing these languages?
    pub fn applies_to(&self, langs: &[Lang]) -> (r: bool)
        ensures
            r == applies(self@, langs@),
    {
        if self.langs.len() == 0 {
            return true;
        }
        let mut i: usize = 0;
        while i < self.langs.len()
            invariant
                i <= self.langs@.len(),
                forall|k: int| 0 <= k < i ==> !langs@.contains(#[trigger] self.langs@[k]),
            decreases self.langs.len() - i,
        {
            let l = self.langs[i];
            let mut j: usize = 0;
            while j < langs.len()
                invariant
                    i < self.langs@.len(),
                    l == self.langs@[i as int],
                    j <= langs@.len(),
                    forall|k: int| 0 <= k < j ==> langs@[k] != l,
                decreases langs.len() - j,
            {
                if langs[j] == l {
                    assert(langs@[j as int] == self.langs@[i as int]);
                    assert(langs@.contains(self.langs@[i as int]));
                    return true;
                }
                j = j + 1;
            }
            i = i + 1;
        }
        false
    }

    /// Executable to probe for the tool's presence.
    pub fn probe_binary(&self) -> (r: &'static str)
        ensures
            r@ == match self@.probe {
                Some(p) => p,
                None => self@.binary,
            },
    {
        match self.probe {
            Some(p) => p,
            None => self.binary,
        }
    }

    /// The version line from the output of the tool's version command, or
    /// `None` when it failed without a word on stdout.
    pub fn version_from_output(success: bool, stdout: &str, stderr: &str) -> (r: Option<String>)
        ensures
            r matches Some(v) ==> spec_version(success, stdout@, stderr@) == Some(v@),
            r is None ==> spec_version(success, stdout@, stderr@) is None,
    {
        if !success && stdout.unicode_len() == 0 {
            return None;
        }
        let t = trim(stdout);
        let text = if t.unicode_len() == 0 { stderr } else { stdout };
        match first_line_of(text) {
            Some(l) => Some(trim(l.as_str())),
            None => None,
        }
    }

    /// The first existing config file found at the root, if any.
    pub fn existing_config(&self, ls: &Listing) -> (r: Option<String>)
        ensures
            r matches Some(f) ==> first_existing(ls@, self@.config_files) == Some(f@),
            r is None ==> first_existing(ls@, self@.config_files) is None,
    {
        let ghost names = self@.config_files;
        let mut i: usize = 0;
        assert(names.skip(0) =~= names);
        while i < self.config_files.len()
            invariant
                names == strs(self.config_files@),
                i <= names.len(),
                first_existing(ls@, names) == first_existing(ls@, names.skip(i as int)),
            decreases self.config_files.len() - i,
        {
            let f = self.config_files[i];
            assert(names.skip(i as int)[0] == f@);
            assert(names.skip(i as int).drop_first() =~= names.skip(i + 1));
            if root_entry(ls, f) {
                return Some(owned(f));
            }
            i = i + 1;
        }
        assert(names.skip(i as int).len() == 0);
        None
    }
}

/// Registry entries whose role and id order them as `r` is ordered.
pub open spec fn sorted_tools(r: Seq<ToolView>) -> bool {
    forall|i: int, j: int| 0 <= i < j < r.len() ==> tool_lt(r[i], r[j])
}

/// `r` is exactly the registry tools that apply to `langs`, each once, in registry order.
pub open spec fn selection(reg: Seq<ToolView>, langs: Seq<Lang>, r: Seq<ToolView>) -> bool {
    &&& sorted_tools(r)
    &&& forall|i: int| #![trigger r[i]] 0 <= i < r.len() ==> exists|k: int|
        0 <= k < reg.len() && r[i] == #[trigger] reg[k] && applies(reg[k], langs)
    &&& forall|k: int| 0 <= k < reg.len() && applies(reg[k], langs) ==> exists|i: int|
        0 <= i < r.len() && r[i] == #[trigger] reg[k]
}

proof fn lemma_tool_lt_transitive(a: ToolView, b: ToolView, c: ToolView)
    requires
        tool_lt(a, b),
        tool_lt(b, c),
    ensures
        tool_lt(a, c),
{
    if a.role == b.role && b.role == c.role {
        lemma_lt_transitive(a.id, b.id, c.id);
    }
}

// --------------------------------------------- selection is a function --


proof fn lemma_tool_lt_strict(a: ToolView, b: ToolView)
    ensures
        !tool_lt(a, a),
        !(tool_lt(a, b) && tool_lt(b, a)),
{
    lemma_lt_total(a.id, a.id);
    lemma_lt_total(a.id, b.id);
}

/// Two registry-ordered sequences with the same members are the same.
proof fn lemma_sorted_unique(a: Seq<ToolView>, b: Seq<ToolView>)
    requires
        sorted_tools(a),
        sorted_tools(b),
        forall|x: ToolView| a.contains(x) <==> b.contains(x),
    ensures
        a == b,
    decreases a.len(),
{
    if a.len() == 0 {
        if b.len() > 0 {
            assert(b.contains(b[0]));
        }
        assert(b =~= a);
    } else {
        assert(a.contains(a[0]));
        let j = choose|j: int| 0 <= j < b.len() && b[j] == a[0];
        assert(b.contains(b[0]));
        let i = choose|i: int| 0 <= i < a.len() && a[i] == b[0];
        lemma_tool_lt_strict(a[0], b[0]);
        if j > 0 {
            if i > 0 {
                assert(tool_lt(a[0], a[i]));
                assert(tool_lt(b[0], b[j]));
            } else {
                assert(tool_lt(b[0], b[j]));
            }
        }
        assert(a[0] == b[0]);
        let a1 = a.drop_first();
        let b1 = b.drop_first();
        assert forall|x: ToolView| a1.contains(x) <==> b1.contains(x) by {
            if a1.contains(x) {
                let k = choose|k: int| 0 <= k < a1.len() && a1[k] == x;
                assert(a[k + 1] == x);
                assert(tool_lt(a[0], a[k + 1]));
                lemma_tool_lt_strict(x, x);
                assert(b.contains(x));
                let m = choose|m: int| 0 <= m < b.len() && b[m] == x;
                assert(m != 0);
                assert(b1[m - 1] == x);
            }
            if b1.contains(x) {
                let k = choose|k: int| 0 <= k < b1.len() && b1[k] == x;
                assert(b[k + 1] == x);
                assert(tool_lt(b[0], b[k + 1]));
                lemma_tool_lt_strict(x, x);
                assert(a.contains(x));
                let m = choose|m: int| 0 <= m < a.len() && a[m] == x;
                assert(m != 0);
                assert(a1[m - 1] == x);
            }
        }
        assert forall|p: int, q: int| 0 <= p < q < a1.len() implies tool_lt(a1[p], a1[q]) by {
            assert(a1[p] == a[p + 1] && a1[q] == a[q + 1]);
        }
        assert forall|p: int, q: int| 0 <= p < q < b1.len() implies tool_lt(b1[p], b1[q]) by {
            assert(b1[p] == b[p + 1] && b1[q] == b[q + 1]);
        }
        lemma_sorted_unique(a1, b1);
        assert(a =~= seq![a[0]] + a1);
        assert(b =~= seq![b[0]] + b1);
    }
}

proof fn lemma_applies_same(t: ToolView, l1: Seq<Lang>, l2: Seq<Lang>)
    requires
        forall|l: Lang| l1.contains(l) <==> l2.contains(l),
    ensures
        applies(t, l1) == applies(t, l2),
{
    if t.langs.len() > 0 {
        if applies(t, l1) {
            let i = choose|i: int| 0 <= i < t.langs.len() && l1.contains(#[trigger] t.langs[i]);
            assert(l2.contains(t.langs[i]));
        }
        if applies(t, l2) {
            let i = choose|i: int| 0 <= i < t.langs.len() && l2.contains(#[trigger] t.langs[i]);
            assert(l1.contains(t.langs[i]));
        }
    }
}

/// `x` is a registry tool that applies to `l`.
pub open spec fn selectable(reg: Seq<ToolView>, l: Seq<Lang>, x: ToolView) -> bool {
    exists|k: int| 0 <= k < reg.len() && x == #[trigger] reg[k] && applies(reg[k], l)
}

/// Every member of `a` is a registry tool that applies to `l`.
#[verifier::opaque]
pub open spec fn members_apply(reg: Seq<ToolView>, l: Seq<Lang>, a: Seq<ToolView>) -> bool {
    forall|i: int| 0 <= i < a.len() ==> selectable(reg, l, #[trigger] a[i])
}

/// Every registry tool that applies to `l` is a member of `a`.
#[verifier::opaque]
pub open spec fn has_all(reg: Seq<ToolView>, l: Seq<Lang>, a: Seq<ToolView>) -> bool {
    forall|k: int| 0 <= k < reg.len() && applies(reg[k], l) ==> exists|i: int| 0 <= i < a.len() && a[i] == #[trigger] reg[k]
}

pub proof fn lemma_selection_parts(reg: Seq<ToolView>, l: Seq<Lang>, a: Seq<ToolView>)
    requires
        selection(reg, l, a),
    ensures
        members_apply(reg, l, a),
        has_all(reg, l, a),
        sorted_tools(a),
{
    reveal(members_apply);
    reveal(has_all);
    assert forall|i: int| 0 <= i < a.len() implies selectable(reg, l, #[trigger] a[i]) by {
        let k = choose|k: int| 0 <= k < reg.len() && a[i] == #[trigger] reg[k] && applies(reg[k], l);
        assert(a[i] == reg[k]);
    }
}

proof fn lemma_selection_subset(reg: Seq<ToolView>, l1: Seq<Lang>, l2: Seq<Lang>, a: Seq<ToolView>, b: Seq<ToolView>, x: ToolView)
    requires
        members_apply(reg, l1, a),
        has_all(reg, l2, b),
        forall|l: Lang| l1.contains(l) <==> l2.contains(l),
        a.contains(x),
    ensures
        b.contains(x),
{
    reveal(members_apply);
    reveal(has_all);
    let i = choose|i: int| 0 <= i < a.len() && a[i] == x;
    assert(selectable(reg, l1, a[i]));
    let k = choose|k: int| 0 <= k < reg.len() && a[i] == #[trigger] reg[k] && applies(reg[k], l1);
    lemma_applies_same(reg[k], l1, l2);
    let j = choose|j: int| 0 <= j < b.len() && b[j] == #[trigger] reg[k];
    assert(b[j] == x);
}

/// Selections for languages with the same members are the same.
pub proof fn lemma_selection_unique(reg: Seq<ToolView>, l1: Seq<Lang>, l2: Seq<Lang>, a: Seq<ToolView>, b: Seq<ToolView>)
    requires
        members_apply(reg, l1, a),
        has_all(reg, l1, a),
        sorted_tools(a),
        members_apply(reg, l2, b),
        has_all(reg, l2, b),
        sorted_tools(b),
        forall|l: Lang| l1.contains(l) <==> l2.contains(l),
    ensures
        a == b,
{
    assert forall|x: ToolView| a.contains(x) <==> b.contains(x) by {
        if a.contains(x) {
            lemma_selection_subset(reg, l1, l2, a, b, x);
        }
        if b.contains(x) {
            lemma_selection_subset(reg, l2, l1, b, a, x);
        }
    }
    lemma_sorted_unique(a, b);
}


/// Which tools apply depends only on the set of languages: selections for
/// language lists with the same members (in any order, with any repeats)
/// are the same.
pub proof fn selection_depends_only_on_the_set_of_languages(
    reg: Seq<ToolView>,
    l1: Seq<Lang>,
    l2: Seq<Lang>,
    a: Seq<ToolView>,
    b: Seq<ToolView>,
)
    requires
        selection(reg, l1, a),
        selection(reg, l2, b),
        forall|l: Lang| l1.contains(l) <==> l2.contains(l),
    ensures
        a == b,
{
    lemma_selection_parts(reg, l1, a);
    lemma_selection_parts(reg, l2, b);
    lemma_selection_unique(reg, l1, l2, a, b);
}

/// Insert `t` into the sorted `v` at its place; returns where it went.
fn insert_sorted(v: &mut Vec<ToolSpec>, t: ToolSpec) -> (p: usize)
    requires
        sorted_tools(old(v)@.map_values(|x: ToolSpec| x@)),
        forall|i: int| 0 <= i < old(v)@.len() ==> old(v)@[i]@.id != t@.id,
    ensures
        sorted_tools(final(v)@.map_values(|x: ToolSpec| x@)),
        p <= old(v)@.len(),
        final(v)@ == old(v)@.insert(p as int, t),
{
    let ghost ov = v@;
    let mut p: usize = 0;
    while p < v.len() && tool_less(&v[p], &t)
        invariant
            v@ == ov,
            p <= v@.len(),
            forall|i: int| 0 <= i < p ==> tool_lt(ov[i]@, t@),
        decreases v.len() - p,
    {
        p = p + 1;
    }
    proof {
        if p < ov.len() {
            lemma_lt_total(ov[p as int]@.id, t@.id);
        }
    }
    v.insert(p, t);
    proof {
        let nv = v@.map_values(|x: ToolSpec| x@);
        let o = ov.map_values(|x: ToolSpec| x@);
        assert forall|i: int, j: int| 0 <= i < j < nv.len() implies tool_lt(nv[i], nv[j]) by {
            if j < p {
                assert(nv[i] == o[i] && nv[j] == o[j]);
            } else if j == p {
            } else if i < p {
                assert(nv[j] == o[j - 1]);
                if p < ov.len() {
                    assert(tool_lt(t@, o[p as int]));
                    if j - 1 > p {
                        lemma_tool_lt_transitive(t@, o[p as int], o[j - 1]);
                    }
                    lemma_tool_lt_transitive(nv[i], t@, nv[j]);
                }
            } else if i == p {
                assert(nv[j] == o[j - 1]);
                assert(tool_lt(t@, o[p as int]));
                if j - 1 > p {
                    lemma_tool_lt_transitive(t@, o[p as int], o[j - 1]);
                }
            } else {
                assert(nv[i] == o[i - 1] && nv[j] == o[j - 1]);
            }
        }
    }
    p
}

/// `a` comes before `b` in registry order.
pub fn tool_less(a: &ToolSpec, b: &ToolSpec) -> (r: bool)
    ensures
        r == tool_lt(a@, b@),
{
    let ra = role_rank(a.role);
    let rb = role_rank(b.role);
    if ra != rb {
        return ra < rb;
    }
    assert(a.role == b.role);
    less_than(a.id, b.id)
}

fn role_rank(r: Role) -> (n: u8)
    ensures
        n as nat == r.index(),
{
    match r {
        Role::Secrets => 0,
        Role::Sast => 1,
        Role::Lint => 2,
        Role::TypeCheck => 3,
        Role::Deps => 4,
        Role::Format => 5,
    }
}

/// Specs applicable to a set of detected languages, ordered by role, then id.
pub fn for_languages(langs: &[Lang]) -> (r: Vec<ToolSpec>)
    ensures
        selection(registry::spec_registry(), langs@, r@.map_values(|t: ToolSpec| t@)),
{
    let all = registry::all();
    let ghost reg = registry::spec_registry();
    proof {
        registry::lemma_ids_unique();
    }
    let mut out: Vec<ToolSpec> = Vec::new();
    // src[i] is the registry index that out[i] came from
    let ghost mut src: Seq<int> = Seq::empty();
    let mut k: usize = 0;
    while k < all.len()
        invariant
            all@.map_values(|t: ToolSpec| t@) == reg,
            forall|a: int, b: int| 0 <= a < reg.len() && 0 <= b < reg.len() && a != b ==> reg[a].id != reg[b].id,
            k <= all@.len(),
            sorted_tools(out@.map_values(|t: ToolSpec| t@)),
            src.len() == out@.len(),
            forall|i: int| #![trigger src[i]] 0 <= i < src.len() ==> 0 <= src[i] < k && out@[i] == all@[src[i]]
                && applies(reg[src[i]], langs@),
            forall|k2: int| 0 <= k2 < k && applies(reg[k2], langs@) ==> exists|i: int|
                0 <= i < src.len() && #[trigger] src[i] == k2,
        decreases all.len() - k,
    {
        let t = all[k];
        assert(reg[k as int] == t@);
        if t.applies_to(langs) {
            proof {
                assert forall|i: int| 0 <= i < out@.len() implies out@[i]@.id != t@.id by {
                    assert(src[i] < k);
                    assert(reg[src[i]] == out@[i]@);
                }
            }
            let ghost old_src = src;
            let p = insert_sorted(&mut out, t);
            proof {
                src = old_src.insert(p as int, k as int);
                assert forall|i: int| #![trigger src[i]] 0 <= i < src.len() implies 0 <= src[i] < k + 1
                    && out@[i] == all@[src[i]] && applies(reg[src[i]], langs@) by {
                    if i < p {
                        assert(src[i] == old_src[i]);
                    } else if i > p {
                        assert(src[i] == old_src[i - 1]);
                    }
                }
                assert forall|k2: int| 0 <= k2 < k + 1 && applies(reg[k2], langs@) implies exists|i: int|
                    0 <= i < src.len() && #[trigger] src[i] == k2 by {
                    if k2 < k {
                        let i0 = choose|i0: int| 0 <= i0 < old_src.len() && #[trigger] old_src[i0] == k2;
                        if i0 < p {
                            assert(src[i0] == k2);
                        } else {
                            assert(src[i0 + 1] == k2);
                        }
                    } else {
                        assert(src[p as int] == k2);
                    }
                }
            }
        }
        k = k + 1;
    }
    proof {
        let r = out@.map_values(|t: ToolSpec| t@);
        assert forall|i: int| #![trigger r[i]] 0 <= i < r.len() implies exists|k2: int|
            0 <= k2 < reg.len() && r[i] == #[trigger] reg[k2] && applies(reg[k2], langs@) by {
            assert(src[i] < k);
            assert(r[i] == reg[src[i]]);
        }
        assert forall|k2: int| 0 <= k2 < reg.len() && applies(reg[k2], langs@) implies exists|i: int|
            0 <= i < r.len() && r[i] == #[trigger] reg[k2] by {
            let i0 = choose|i0: int| 0 <= i0 < src.len() && #[trigger] src[i0] == k2;
            assert(r[i0] == reg[k2]);
        }
    }
    out
}

} // verus!
