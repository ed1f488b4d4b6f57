//! Git hook installation.
//!
//! The hook is deliberately conservative: only secret detection blocks a
//! commit, every tool is optional, and a missing binary is skipped rather than
//! treated as failure. Friction is what kills these tools.
use crate::git::{join_path, spec_join};
use crate::lang::{EntryView, Listing};
use crate::plan::{Plan, PlanView, Write};
use crate::text::{concat, contains, join, owned, replace, seq_contains, seq_join, seq_replace};
use crate::tools::{root_entry, root_has, Role, ToolView};
use vstd::prelude::*;

verus! {

/// A tool that owns this repository's git hooks. revd defers to these rather
/// than fighting them: whatever it wrote would be overwritten on their next
/// `install`, or ignored outright.
#[derive(Debug, Clone, Copy, PartialEq, Eq, Structural)]
pub enum Manager {
    PreCommit,
    Husky,
    Lefthook,
    Overcommit,
}

impl Manager {
    pub open spec fn spec_name(self) -> Seq<char> {
        match self {
            Manager::PreCommit => "pre-commit"@,
            Manager::Husky => "husky"@,
            Manager::Lefthook => "lefthook"@,
            Manager::Overcommit => "overcommit"@,
        }
    }

    pub fn name(&self) -> (s: &'static str)
        ensures
            s@ == self.spec_name(),
    {
        match self {
            Manager::PreCommit => "pre-commit",
            Manager::Husky => "husky",
            Manager::Lefthook => "lefthook",
            Manager::Overcommit => "overcommit",
        }
    }

    pub open spec fn spec_advice(self) -> Seq<char> {
        match self {
            Manager::PreCommit => "add a `repo: local` hook to .pre-commit-config.yaml that runs your linters"@,
            Manager::Husky => "add the commands to .husky/pre-commit"@,
            Manager::Lefthook => "add them under `pre-commit.commands` in lefthook.yml"@,
            Manager::Overcommit => "add them under `PreCommit` in .overcommit.yml"@,
        }
    }

    /// How the user adds revd's checks to that manager's own config.
    pub fn advice(&self) -> (s: &'static str)
        ensures
            s@ == self.spec_advice(),
    {
        match self {
            Manager::PreCommit => "add a `repo: local` hook to .pre-commit-config.yaml that runs your linters",
            Manager::Husky => "add the commands to .husky/pre-commit",
            Manager::Lefthook => "add them under `pre-commit.commands` in lefthook.yml",
            Manager::Overcommit => "add them under `PreCommit` in .overcommit.yml",
        }
    }

    pub open spec fn spec_config_files(self) -> Seq<Seq<char>> {
        match self {
            Manager::PreCommit => seq![".pre-commit-config.yaml"@, ".pre-commit-config.yml"@],
            Manager::Husky => seq![".husky"@],
            Manager::Lefthook => seq!["lefthook.yml"@, "lefthook.yaml"@, ".lefthook.yml"@],
            Manager::Overcommit => seq![".overcommit.yml"@],
        }
    }

    /// Files or directories at the root that show the manager is in use.
    pub fn config_files(&self) -> (m: &'static [&'static str])
        ensures
            m@.map_values(|s: &str| s@) == self.spec_config_files(),
    {
        let m: &'static [&'static str] = match self {
            Manager::PreCommit => &[".pre-commit-config.yaml", ".pre-commit-config.yml"],
            Manager::Husky => &[".husky"],
            Manager::Lefthook => &["lefthook.yml", "lefthook.yaml", ".lefthook.yml"],
            Manager::Overcommit => &[".overcommit.yml"],
        };
        assert(m@.map_values(|s: &str| s@) =~= self.spec_config_files());
        m
    }

    pub open spec fn spec_shim_marker(self) -> Seq<char> {
        match self {
            Manager::PreCommit => "pre-commit.com"@,
            Manager::Husky => "husky"@,
            Manager::Lefthook => "lefthook"@,
            Manager::Overcommit => "overcommit"@,
        }
    }

    /// A fingerprint left in the generated hook shim, if the manager writes one.
    pub fn shim_marker(&self) -> (s: &'static str)
        ensures
            s@ == self.spec_shim_marker(),
    {
        match self {
            Manager::PreCommit => "pre-commit.com",
            Manager::Husky => "husky",
            Manager::Lefthook => "lefthook",
            Manager::Overcommit => "overcommit",
        }
    }

    /// Every manager, in the order they are looked for.
    pub const ALL: [Manager; 4] = [Manager::PreCommit, Manager::Husky, Manager::Lefthook, Manager::Overcommit];
}

/// One of the manager's config files or directories is at the root.
pub open spec fn has_config(ls: Seq<EntryView>, m: Manager) -> bool {
    exists|k: int| 0 <= k < m.spec_config_files().len() && root_has(ls, #[trigger] m.spec_config_files()[k])
}

/// The manager's fingerprint is in the hook.
pub open spec fn has_shim(hook: Option<Seq<char>>, m: Manager) -> bool {
    match hook {
        Some(h) => seq_contains(h, m.spec_shim_marker()),
        None => false,
    }
}

/// The first manager, in [`Manager::ALL`] order, satisfying `p`.
pub open spec fn first_manager(p: spec_fn(Manager) -> bool) -> Option<Manager> {
    if p(Manager::PreCommit) {
        Some(Manager::PreCommit)
    } else if p(Manager::Husky) {
        Some(Manager::Husky)
    } else if p(Manager::Lefthook) {
        Some(Manager::Lefthook)
    } else if p(Manager::Overcommit) {
        Some(Manager::Overcommit)
    } else {
        None
    }
}

/// A hook manager, detected from its config file, or else from the shim it installed.
pub open spec fn spec_detect_manager(ls: Seq<EntryView>, hook: Option<Seq<char>>) -> Option<Manager> {
    match first_manager(|m: Manager| has_config(ls, m)) {
        Some(m) => Some(m),
        None => first_manager(|m: Manager| has_shim(hook, m)),
    }
}

fn manager_has_config(ls: &Listing, m: Manager) -> (r: bool)
    ensures
        r == has_config(ls@, m),
{
    let files = m.config_files();
    let ghost fs = m.spec_config_files();
    let mut k: usize = 0;
    while k < files.len()
        invariant
            files@.map_values(|s: &str| s@) == fs,
            fs == m.spec_config_files(),
            k <= fs.len(),
            forall|j: int| 0 <= j < k ==> !root_has(ls@, #[trigger] fs[j]),
        decreases files.len() - k,
    {
        assert(fs[k as int] == files@[k as int]@);
        if root_entry(ls, files[k]) {
            return true;
        }
        k = k + 1;
    }
    false
}

fn manager_has_shim(hook: Option<&str>, m: Manager) -> (r: bool)
    ensures
        r == has_shim(match hook {
            Some(h) => Some(h@),
            None => None,
        }, m),
{
    match hook {
        Some(h) => contains(h, m.shim_marker()),
        None => false,
    }
}

/// Detect a hook manager from its config file, or from the shim it installed.
pub fn detect_manager(ls: &Listing, existing_hook: Option<&str>) -> (r: Option<Manager>)
    ensures
        r == spec_detect_manager(ls@, match existing_hook {
            Some(h) => Some(h@),
            None => None,
        }),
{
    let ghost hook = match existing_hook {
        Some(h) => Some(h@),
        None => None,
    };
    let mut i: usize = 0;
    while i < 4
        invariant
            i <= 4,
            forall|j: int| 0 <= j < i ==> !has_config(ls@, #[trigger] manager_at(j)),
        decreases 4 - i,
    {
        let m = Manager::ALL[i];
        assert(m == manager_at(i as int));
        if manager_has_config(ls, m) {
            proof {
                lemma_first_config(ls@, i as int);
            }
            return Some(m);
        }
        i = i + 1;
    }
    assert(!has_config(ls@, manager_at(0)) && !has_config(ls@, manager_at(1)) && !has_config(ls@, manager_at(2))
        && !has_config(ls@, manager_at(3)));
    let mut i: usize = 0;
    while i < 4
        invariant
            i <= 4,
            hook == match existing_hook {
                Some(h) => Some(h@),
                None => None,
            },
            first_manager(|m: Manager| has_config(ls@, m)) is None,
            forall|j: int| 0 <= j < i ==> !has_shim(hook, #[trigger] manager_at(j)),
        decreases 4 - i,
    {
        let m = Manager::ALL[i];
        assert(m == manager_at(i as int));
        if manager_has_shim(existing_hook, m) {
            proof {
                lemma_first_shim(hook, i as int);
            }
            return Some(m);
        }
        i = i + 1;
    }
    assert(!has_shim(hook, manager_at(0)) && !has_shim(hook, manager_at(1)) && !has_shim(hook, manager_at(2))
        && !has_shim(hook, manager_at(3)));
    None
}

proof fn lemma_first_config(ls: Seq<EntryView>, i: int)
    requires
        0 <= i < 4,
        has_config(ls, manager_at(i)),
        forall|j: int| 0 <= j < i ==> !has_config(ls, #[trigger] manager_at(j)),
    ensures
        first_manager(|m: Manager| has_config(ls, m)) == Some(manager_at(i)),
{
    if i > 0 {
        assert(!has_config(ls, manager_at(0)));
    }
    if i > 1 {
        assert(!has_config(ls, manager_at(1)));
    }
    if i > 2 {
        assert(!has_config(ls, manager_at(2)));
    }
}

proof fn lemma_first_shim(hook: Option<Seq<char>>, i: int)
    requires
        0 <= i < 4,
        has_shim(hook, manager_at(i)),
        forall|j: int| 0 <= j < i ==> !has_shim(hook, #[trigger] manager_at(j)),
    ensures
        first_manager(|m: Manager| has_shim(hook, m)) == Some(manager_at(i)),
{
    if i > 0 {
        assert(!has_shim(hook, manager_at(0)));
    }
    if i > 1 {
        assert(!has_shim(hook, manager_at(1)));
    }
    if i > 2 {
        assert(!has_shim(hook, manager_at(2)));
    }
}

/// The manager at position `i` of [`Manager::ALL`].
pub open spec fn manager_at(i: int) -> Manager {
    if i == 0 {
        Manager::PreCommit
    } else if i == 1 {
        Manager::Husky
    } else if i == 2 {
        Manager::Lefthook
    } else {
        Manager::Overcommit
    }
}

/// The files or directories at the root that show each hook manager is in use.
pub proof fn manager_config_table()
    ensures
        Manager::PreCommit.spec_config_files() == seq![".pre-commit-config.yaml"@, ".pre-commit-config.yml"@],
        Manager::Husky.spec_config_files() == seq![".husky"@],
        Manager::Lefthook.spec_config_files() == seq!["lefthook.yml"@, "lefthook.yaml"@, ".lefthook.yml"@],
        Manager::Overcommit.spec_config_files() == seq![".overcommit.yml"@],
{
}

/// Which managers' configs a listing holds, written out.
proof fn lemma_has_config_names(ls: Seq<EntryView>)
    ensures
        has_config(ls, Manager::PreCommit) <==> root_has(ls, ".pre-commit-config.yaml"@) || root_has(
            ls,
            ".pre-commit-config.yml"@,
        ),
        has_config(ls, Manager::Husky) <==> root_has(ls, ".husky"@),
        has_config(ls, Manager::Lefthook) <==> root_has(ls, "lefthook.yml"@) || root_has(ls, "lefthook.yaml"@)
            || root_has(ls, ".lefthook.yml"@),
        has_config(ls, Manager::Overcommit) <==> root_has(ls, ".overcommit.yml"@),
{
    let a = Manager::PreCommit.spec_config_files();
    let b = Manager::Husky.spec_config_files();
    let c = Manager::Lefthook.spec_config_files();
    let d = Manager::Overcommit.spec_config_files();
    if root_has(ls, a[0]) || root_has(ls, a[1]) {
        assert(has_config(ls, Manager::PreCommit));
    }
    if root_has(ls, b[0]) {
        assert(has_config(ls, Manager::Husky));
    }
    if root_has(ls, c[0]) || root_has(ls, c[1]) || root_has(ls, c[2]) {
        assert(has_config(ls, Manager::Lefthook));
    }
    if root_has(ls, d[0]) {
        assert(has_config(ls, Manager::Overcommit));
    }
}

/// In a git repository with a hook manager's config at its root
/// (`.pre-commit-config.yaml` or `.pre-commit-config.yml` for pre-commit,
/// `.husky` for husky, `lefthook.yml`, `lefthook.yaml` or `.lefthook.yml` for
/// lefthook, `.overcommit.yml` for overcommit), revd defers to the manager
/// unless the hook there is one it wrote itself: the plan is `Managed`, by the
/// first of those managers, in that order, whose config is there.
pub proof fn a_manager_config_defers_the_hook(ls: Seq<EntryView>, path: Seq<char>, existing: Option<Seq<char>>, name: Seq<char>)
    requires
        root_has(ls, ".git"@),
        root_has(ls, name),
        name == ".pre-commit-config.yaml"@ || name == ".pre-commit-config.yml"@ || name == ".husky"@ || name
            == "lefthook.yml"@ || name == "lefthook.yaml"@ || name == ".lefthook.yml"@ || name == ".overcommit.yml"@,
        !(existing is Some && seq_contains(existing->0, "Installed by revd"@)),
    ensures
        spec_plan(ls, path, existing) == HookPlanView::Managed(
            if root_has(ls, ".pre-commit-config.yaml"@) || root_has(ls, ".pre-commit-config.yml"@) {
                Manager::PreCommit
            } else if root_has(ls, ".husky"@) {
                Manager::Husky
            } else if root_has(ls, "lefthook.yml"@) || root_has(ls, "lefthook.yaml"@) || root_has(
                ls,
                ".lefthook.yml"@,
            ) {
                Manager::Lefthook
            } else {
                Manager::Overcommit
            },
            path,
        ),
{
    reveal_strlit("Installed by revd");
    assert(MARKER@ =~= "Installed by revd"@);
    lemma_has_config_names(ls);
}

/// The fingerprint each hook manager leaves in the hook script it installs.
pub proof fn manager_shim_table()
    ensures
        Manager::PreCommit.spec_shim_marker() == "pre-commit.com"@,
        Manager::Husky.spec_shim_marker() == "husky"@,
        Manager::Lefthook.spec_shim_marker() == "lefthook"@,
        Manager::Overcommit.spec_shim_marker() == "overcommit"@,
{
}

/// In a git repository with no hook manager config at its root, a hook that
/// revd did not write and that holds a manager's fingerprint (`pre-commit.com`,
/// `husky`, `lefthook`, `overcommit`) was installed by that manager: the plan
/// defers to the first of them, in that order, whose fingerprint it holds.
pub proof fn a_manager_shim_defers_the_hook(ls: Seq<EntryView>, path: Seq<char>, hook: Seq<char>, mark: Seq<char>)
    requires
        root_has(ls, ".git"@),
        !root_has(ls, ".pre-commit-config.yaml"@) && !root_has(ls, ".pre-commit-config.yml"@) && !root_has(ls, ".husky"@),
        !root_has(ls, "lefthook.yml"@) && !root_has(ls, "lefthook.yaml"@) && !root_has(ls, ".lefthook.yml"@),
        !root_has(ls, ".overcommit.yml"@),
        !seq_contains(hook, "Installed by revd"@),
        mark == "pre-commit.com"@ || mark == "husky"@ || mark == "lefthook"@ || mark == "overcommit"@,
        seq_contains(hook, mark),
    ensures
        spec_plan(ls, path, Some(hook)) == HookPlanView::Managed(
            if seq_contains(hook, "pre-commit.com"@) {
                Manager::PreCommit
            } else if seq_contains(hook, "husky"@) {
                Manager::Husky
            } else if seq_contains(hook, "lefthook"@) {
                Manager::Lefthook
            } else {
                Manager::Overcommit
            },
            path,
        ),
{
    reveal_strlit("Installed by revd");
    assert(MARKER@ =~= "Installed by revd"@);
    lemma_has_config_names(ls);
}

/// The advisory stanzas of the linters among `tools` are the stanzas of
/// `tools` filtered to `keep`.
proof fn lemma_advisory_lines_filter(tools: Seq<ToolView>, keep: spec_fn(ToolView) -> bool, stanza: spec_fn(ToolView) -> Seq<char>)
    requires
        forall|t: ToolView| #[trigger] keep(t) == (t.role == Role::Lint),
        forall|t: ToolView| #[trigger] stanza(t) == advisory_line(t),
    ensures
        advisory_lines(tools) == tools.filter(keep).map_values(stanza),
    decreases tools.len(),
{
    reveal(Seq::filter);
    if tools.len() > 0 {
        lemma_advisory_lines_filter(tools.drop_last(), keep, stanza);
        let pre = tools.drop_last().filter(keep);
        if keep(tools.last()) {
            assert(pre.push(tools.last()).map_values(stanza) =~= pre.map_values(stanza).push(stanza(tools.last())));
        }
        assert(advisory_lines(tools) =~= tools.filter(keep).map_values(stanza));
    } else {
        assert(advisory_lines(tools) =~= tools.filter(keep).map_values(stanza));
    }
}

/// The hook's advisory section runs exactly the linters (tools whose role is
/// `Lint`), in order, one stanza each, joined by newlines; tools of other
/// roles get none. Each stanza runs the linter's binary with its scan
/// arguments when the binary is present and warns, without blocking, when
/// it reports issues. With no linter the section is a comment.
pub proof fn the_hook_runs_only_the_linters(tools: Seq<ToolView>)
    ensures
        spec_advisory_block(tools) == if tools.filter(|t: ToolView| t.role == Role::Lint).len() == 0 {
            "# no advisory linters configured"@
        } else {
            seq_join(
                tools.filter(|t: ToolView| t.role == Role::Lint).map_values(
                    |t: ToolView|
                        "if command -v "@ + t.binary + " >/dev/null 2>&1; then\n  "@ + t.binary + " "@ + seq_join(
                            t.scan_args,
                            " "@,
                        ) + " >/dev/null 2>&1 || say \"revd: "@ + t.id + " reported issues (advisory) — run: "@
                            + t.binary + " "@ + seq_join(t.scan_args, " "@) + "\"\nfi"@,
                ),
                "\n"@,
            )
        },
{
    let keep = |t: ToolView| t.role == Role::Lint;
    let stanza = |t: ToolView|
        "if command -v "@ + t.binary + " >/dev/null 2>&1; then\n  "@ + t.binary + " "@ + seq_join(t.scan_args, " "@)
            + " >/dev/null 2>&1 || say \"revd: "@ + t.id + " reported issues (advisory) — run: "@ + t.binary + " "@
            + seq_join(t.scan_args, " "@) + "\"\nfi"@;
    lemma_advisory_lines_filter(tools, keep, stanza);
}

/// The pre-commit script revd installs; [`PLACEHOLDER`] stands where the
/// advisory linters go.
pub const TEMPLATE: &'static str = "#!/bin/sh\n# Installed by revd. Only secrets block a commit; everything else warns.\n# Every tool is optional: a missing binary is skipped, never an error.\n# Bypass with: git commit --no-verify\n\nsay() { printf '%s\\n' \"$*\" >&2; }\n\nfail=0\n\n# secrets: the one check that can stop a commit\nif command -v gitleaks >/dev/null 2>&1; then\n  if ! gitleaks git --staged --no-banner --redact >/dev/null 2>&1; then\n    say \"revd: gitleaks found a secret in the staged changes; commit blocked\"\n    say \"      run: gitleaks git --staged --no-banner --redact\"\n    fail=1\n  fi\nfi\n\n# linters: advisory only, they never block\n__REVD_ADVISORY__\n\nexit $fail\n";

/// Where the advisory section goes in [`TEMPLATE`].
pub const PLACEHOLDER: &'static str = "__REVD_ADVISORY__";

/// The line that marks a hook as revd's own.
pub const MARKER: &'static str = "Installed by revd";

#[derive(Debug, Clone)]
pub enum HookPlan {
    /// No hook present; revd will install one.
    Install,
    /// A revd hook is already there; it will be refreshed.
    Refresh,
    /// Someone else's hook is there; revd will not touch it.
    Foreign(String),
    /// A hook manager owns this repo. revd defers to it entirely.
    Managed(Manager, String),
    /// Not a git repository.
    NotGit,
}

/// What a [`HookPlan`] is, as values.
pub enum HookPlanView {
    Install,
    Refresh,
    Foreign(Seq<char>),
    Managed(Manager, Seq<char>),
    NotGit,
}

impl View for HookPlan {
    type V = HookPlanView;

    open spec fn view(&self) -> HookPlanView {
        match self {
            HookPlan::Install => HookPlanView::Install,
            HookPlan::Refresh => HookPlanView::Refresh,
            HookPlan::Foreign(p) => HookPlanView::Foreign(p@),
            HookPlan::Managed(m, p) => HookPlanView::Managed(*m, p@),
            HookPlan::NotGit => HookPlanView::NotGit,
        }
    }
}

/// The pre-commit hook file, in the hooks directory git reports, or in
/// `.git/hooks` when git could not be asked.
pub open spec fn spec_hook_path(root: Seq<char>, hooks_dir: Option<Seq<char>>) -> Seq<char> {
    let dir = match hooks_dir {
        Some(d) => d,
        None => spec_join(root, ".git/hooks"@),
    };
    spec_join(dir, "pre-commit"@)
}

/// Where git will actually look for the pre-commit hook. Falls back to
/// `.git/hooks` only when git cannot be consulted (`hooks_dir` is `None`).
pub fn hook_path(root: &str, hooks_dir: Option<&str>) -> (r: String)
    ensures
        r@ == spec_hook_path(root@, match hooks_dir {
            Some(d) => Some(d@),
            None => None,
        }),
{
    match hooks_dir {
        Some(d) => join_path(d, "pre-commit"),
        None => {
            let d = join_path(root, ".git/hooks");
            join_path(d.as_str(), "pre-commit")
        },
    }
}

/// What revd will do about the hook at `path`, whose current text is `existing`.
pub open spec fn spec_plan(ls: Seq<EntryView>, path: Seq<char>, existing: Option<Seq<char>>) -> HookPlanView {
    if !root_has(ls, ".git"@) {
        HookPlanView::NotGit
    } else if existing is Some && seq_contains(existing->0, MARKER@) {
        // A revd hook we wrote ourselves takes precedence: re-running init should
        // refresh it rather than suddenly defer to a manager added since.
        HookPlanView::Refresh
    } else if spec_detect_manager(ls, existing) is Some {
        HookPlanView::Managed(spec_detect_manager(ls, existing)->0, path)
    } else if existing is None {
        HookPlanView::Install
    } else {
        HookPlanView::Foreign(path)
    }
}

/// What revd will do about the hook at `path`, whose current text is `existing`
/// (`None` when there is no such file).
pub fn plan(ls: &Listing, path: &str, existing: Option<&str>) -> (r: HookPlan)
    ensures
        r@ == spec_plan(ls@, path@, match existing {
            Some(h) => Some(h@),
            None => None,
        }),
{
    if !root_entry(ls, ".git") {
        return HookPlan::NotGit;
    }
    let ours = match existing {
        Some(e) => contains(e, MARKER),
        None => false,
    };
    if ours {
        return HookPlan::Refresh;
    }
    match detect_manager(ls, existing) {
        Some(m) => HookPlan::Managed(m, owned(path)),
        None => match existing {
            None => HookPlan::Install,
            Some(_) => HookPlan::Foreign(owned(path)),
        },
    }
}

/// The advisory stanza for one linter: run it if present, warn on findings.
pub open spec fn advisory_line(t: ToolView) -> Seq<char> {
    let args = seq_join(t.scan_args, " "@);
    "if command -v "@ + t.binary + " >/dev/null 2>&1; then\n  "@ + t.binary + " "@ + args
        + " >/dev/null 2>&1 || say \"revd: "@ + t.id + " reported issues (advisory) — run: "@ + t.binary
        + " "@ + args + "\"\nfi"@
}

/// The advisory stanzas of the linters among `tools`, in order.
pub open spec fn advisory_lines(tools: Seq<ToolView>) -> Seq<Seq<char>>
    decreases tools.len(),
{
    if tools.len() == 0 {
        Seq::empty()
    } else {
        advisory_lines(tools.drop_last()) + if tools.last().role == Role::Lint {
            seq![advisory_line(tools.last())]
        } else {
            Seq::empty()
        }
    }
}

/// The advisory section: one stanza per linter, or a comment when there is none.
pub open spec fn spec_advisory_block(tools: Seq<ToolView>) -> Seq<char> {
    if advisory_lines(tools).len() == 0 {
        "# no advisory linters configured"@
    } else {
        seq_join(advisory_lines(tools), "\n"@)
    }
}

/// The hook script for a project that uses `tools`.
pub open spec fn spec_render(tools: Seq<ToolView>) -> Seq<char> {
    seq_replace(TEMPLATE@, PLACEHOLDER@, spec_advisory_block(tools))
}

fn advisory_line_of(t: &crate::tools::ToolSpec) -> (r: String)
    ensures
        r@ == advisory_line(t@),
{
    let mut parts: Vec<String> = Vec::new();
    let mut i: usize = 0;
    while i < t.scan_args.len()
        invariant
            i <= t.scan_args@.len(),
            parts@.map_values(|p: String| p@) == t@.scan_args.take(i as int),
        decreases t.scan_args.len() - i,
    {
        assert(t@.scan_args[i as int] == t.scan_args@[i as int]@);
        let ghost before = parts@.map_values(|p: String| p@);
        let a = owned(t.scan_args[i]);
        parts.push(a);
        assert(parts@.map_values(|p: String| p@) =~= before.push(a@));
        assert(t@.scan_args.take(i + 1) =~= t@.scan_args.take(i as int).push(t@.scan_args[i as int]));
        i = i + 1;
    }
    assert(t@.scan_args.take(t@.scan_args.len() as int) =~= t@.scan_args);
    let args = join(&parts, " ");
    let mut r = concat("if command -v ", t.binary);
    r.append(" >/dev/null 2>&1; then\n  ");
    r.append(t.binary);
    r.append(" ");
    r.append(args.as_str());
    r.append(" >/dev/null 2>&1 || say \"revd: ");
    r.append(t.id);
    r.append(" reported issues (advisory) — run: ");
    r.append(t.binary);
    r.append(" ");
    r.append(args.as_str());
    r.append("\"\nfi");
    r
}

/// Build the advisory section from the tools this project actually uses.
pub fn advisory_block(plan: &Plan) -> (r: String)
    ensures
        r@ == spec_advisory_block(plan@.tools.map_values(|t: crate::plan::ToolPlanView| t.spec)),
{
    let ghost specs = plan@.tools.map_values(|t: crate::plan::ToolPlanView| t.spec);
    let mut lines: Vec<String> = Vec::new();
    let mut i: usize = 0;
    while i < plan.tools.len()
        invariant
            specs == plan@.tools.map_values(|t: crate::plan::ToolPlanView| t.spec),
            specs.len() == plan.tools@.len(),
            i <= plan.tools@.len(),
            lines@.map_values(|p: String| p@) == advisory_lines(specs.take(i as int)),
        decreases plan.tools.len() - i,
    {
        let t = &plan.tools[i];
        assert(specs[i as int] == t.spec@);
        assert(specs.take(i + 1).drop_last() =~= specs.take(i as int));
        // formatting and type-checking are too slow or too noisy for a hook
        if t.spec.role == Role::Lint {
            let l = advisory_line_of(&t.spec);
            let ghost before = lines@.map_values(|p: String| p@);
            lines.push(l);
            assert(lines@.map_values(|p: String| p@) =~= before.push(l@));
        }
        i = i + 1;
    }
    assert(specs.take(specs.len() as int) =~= specs);
    if lines.len() == 0 {
        owned("# no advisory linters configured")
    } else {
        join(&lines, "\n")
    }
}

/// The hook script for this plan.
pub fn render(plan: &Plan) -> (r: String)
    ensures
        r@ == spec_render(plan@.tools.map_values(|t: crate::plan::ToolPlanView| t.spec)),
{
    let block = advisory_block(plan);
    proof {
        reveal_strlit("__REVD_ADVISORY__");
    }
    replace(TEMPLATE, PLACEHOLDER, block.as_str())
}

/// The hook write the plan calls for, given the hook's current text.
pub open spec fn spec_apply(p: PlanView, force: bool, current: Option<Seq<char>>) -> Option<(Seq<char>, Seq<char>)> {
    let next = spec_render(p.tools.map_values(|t: crate::plan::ToolPlanView| t.spec));
    if p.detected.len() == 0 {
        None
    } else {
        match p.hook {
            HookPlanView::NotGit => None,
            // Never fight a hook manager: it would overwrite us on its next install.
            HookPlanView::Managed(..) => None,
            HookPlanView::Foreign(_) if !force => None,
            _ => if current == Some(next) {
                // Re-running init must be a genuine no-op, not a silent rewrite.
                None
            } else {
                Some((p.hook_path, next))
            },
        }
    }
}

/// The hook write the plan calls for, given the hook file's current text
/// (`None` when it is absent or unreadable). Writes nothing when no language
/// was detected, outside git, under a hook manager, over a foreign hook
/// unless `force`, or when the hook already reads as it would be written.
pub fn apply(plan: &Plan, force: bool, current: Option<&str>) -> (r: Option<Write>)
    ensures
        spec_apply(plan@, force, match current {
            Some(c) => Some(c@),
            None => None,
        }) == match r {
            Some(w) => Some((w.path@, w.contents@)),
            None => None,
        },
{
    if plan.detected.len() == 0 {
        return None;
    }
    match &plan.hook {
        HookPlan::NotGit => None,
        HookPlan::Managed(..) => None,
        HookPlan::Foreign(_) if !force => None,
        _ => {
            let next = render(plan);
            let same = match current {
                Some(c) => crate::text::str_eq(c, next.as_str()),
                None => false,
            };
            if same {
                None
            } else {
                Some(Write { path: owned(plan.hook_path.as_str()), contents: next })
            }
        },
    }
}

} // verus!
