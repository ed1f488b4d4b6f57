//! Terminal rendering for `plan`, `init` and `doctor`.
//!
//! One layout for all three commands: a header, a table grouped by role, then
//! a summary. Only what differs between them is the verb. Each function
//! returns the text to print; `on` says whether to style it.
use crate::hooks::{HookPlan, HookPlanView};
use crate::lang::{DetectedView, Lang};
use crate::plan::{missing_of, writing_of, Plan, PlanView, StatusView, ToolPlan, ToolPlanView};
use crate::text::{
    concat, decimal, decimal_usize, join, lemma_contains_within, lemma_join_contains_part, owned, seq_join, seq_contains, seq_trim_end, str_eq, trim_end, insert_unique_sorted,
    strictly_sorted, views,
};
use crate::tools::{registry, spec_command, spec_group, Role, ToolSpec};
use crate::ui::{bold, cyan, dim, green, missing, ok, pad, spec_pad, spec_wrap, yellow};
use crate::git::{path_strip_prefix, strip_prefix};
use crate::store::{file_name, repo_name};
use vstd::prelude::*;

verus! {

/// Width of the role column.
pub const ROLE_W: usize = 11;

/// Width of the tool column.
pub const TOOL_W: usize = 18;

// ------------------------------------------------------------ project name --

/// The project's name: the last component of its root, as `Path::file_name`
/// gives it, or the root itself when it has none (`/`, `..`).
pub open spec fn spec_project_name(root: Seq<char>) -> Seq<char> {
    match file_name(root) {
        Some(n) => n,
        None => root,
    }
}

/// The project's name, for the header.
pub fn project_name(root: &str) -> (r: String)
    ensures
        r@ == spec_project_name(root@),
{
    repo_name(root)
}

// ------------------------------------------------------------------ header --

/// The names of the detected languages, in order.
pub open spec fn lang_names(d: Seq<DetectedView>) -> Seq<Seq<char>> {
    d.map_values(|x: DetectedView| x.lang.spec_name())
}

/// `revd · myproject                      go · typescript`
pub open spec fn spec_header(p: PlanView, on: bool) -> Seq<char> {
    let left = spec_wrap(on, "1"@, "revd"@) + " "@ + spec_wrap(on, "2"@, spec_project_name(p.root));
    let right = if p.detected.len() == 0 {
        spec_wrap(on, "2"@, "no languages detected"@)
    } else {
        spec_wrap(on, "36"@, seq_join(lang_names(p.detected), " · "@))
    };
    "\n"@ + left + "  "@ + right + "\n"@
}

/// The names used in output for the languages: `go`, `typescript`, `python`,
/// `rust`, `java`.
pub proof fn language_names()
    ensures
        Lang::Go.spec_name() == "go"@,
        Lang::TypeScript.spec_name() == "typescript"@,
        Lang::Python.spec_name() == "python"@,
        Lang::Rust.spec_name() == "rust"@,
        Lang::Java.spec_name() == "java"@,
{
}

/// The header names every detected language, in detection order, joined by
/// ` · `; so each detected language's name (`go`, `typescript`, `python`,
/// `rust` or `java`) occurs in it.
pub proof fn the_header_names_every_detected_language(p: PlanView, on: bool)
    ensures
        p.detected.len() > 0 ==> seq_contains(
            spec_header(p, on),
            seq_join(
                p.detected.map_values(
                    |d: DetectedView|
                        match d.lang {
                            Lang::Go => "go"@,
                            Lang::TypeScript => "typescript"@,
                            Lang::Python => "python"@,
                            Lang::Rust => "rust"@,
                            Lang::Java => "java"@,
                        },
                ),
                " · "@,
            ),
        ),
        forall|i: int|
            0 <= i < p.detected.len() ==> seq_contains(
                spec_header(p, on),
                match #[trigger] p.detected[i].lang {
                    Lang::Go => "go"@,
                    Lang::TypeScript => "typescript"@,
                    Lang::Python => "python"@,
                    Lang::Rust => "rust"@,
                    Lang::Java => "java"@,
                },
            ),
{
    if p.detected.len() > 0 {
        let names = lang_names(p.detected);
        assert(names =~= p.detected.map_values(
            |d: DetectedView|
                match d.lang {
                    Lang::Go => "go"@,
                    Lang::TypeScript => "typescript"@,
                    Lang::Python => "python"@,
                    Lang::Rust => "rust"@,
                    Lang::Java => "java"@,
                },
        ));
        let j = seq_join(names, " · "@);
        let left = spec_wrap(on, "1"@, "revd"@) + " "@ + spec_wrap(on, "2"@, spec_project_name(p.root));
        let pre = if on { "\n"@ + left + "  "@ + "\x1b["@ + "36"@ + "m"@ } else { "\n"@ + left + "  "@ };
        let post = if on { "\x1b[0m"@ + "\n"@ } else { "\n"@ };
        assert(spec_header(p, on) =~= pre + j + post);
        assert(j.subrange(0, j.len() as int) =~= j);
        assert(crate::text::occurs_at(j, j, 0));
        lemma_contains_within(pre, j, post, j);
        assert forall|i: int| 0 <= i < p.detected.len() implies seq_contains(
            spec_header(p, on),
            match #[trigger] p.detected[i].lang {
                Lang::Go => "go"@,
                Lang::TypeScript => "typescript"@,
                Lang::Python => "python"@,
                Lang::Rust => "rust"@,
                Lang::Java => "java"@,
            },
        ) by {
            lemma_join_contains_part(names, " · "@, i);
            lemma_contains_within(pre, j, post, names[i]);
        }
    }
}

/// `revd · myproject                      go · typescript`
pub fn header(plan: &Plan, on: bool) -> (r: String)
    ensures
        r@ == spec_header(plan@, on),
{
    let ghost dv = plan@.detected;
    let mut names: Vec<String> = Vec::new();
    let mut i: usize = 0;
    while i < plan.detected.len()
        invariant
            dv == plan@.detected,
            i <= dv.len(),
            names@.map_values(|s: String| s@) == lang_names(dv).take(i as int),
        decreases plan.detected.len() - i,
    {
        let ghost before = names@.map_values(|s: String| s@);
        let n = owned(plan.detected[i].lang.as_str());
        assert(dv[i as int] == plan.detected@[i as int]@);
        names.push(n);
        assert(names@.map_values(|s: String| s@) =~= before.push(n@));
        assert(lang_names(dv).take(i + 1) =~= lang_names(dv).take(i as int).push(lang_names(dv)[i as int]));
        i = i + 1;
    }
    assert(lang_names(dv).take(dv.len() as int) =~= lang_names(dv));
    let b = bold(on, "revd");
    let pn = project_name(plan.root.as_str());
    let d = dim(on, pn.as_str());
    let mut r = owned("\n");
    r.append(b.as_str());
    r.append(" ");
    r.append(d.as_str());
    r.append("  ");
    if plan.detected.len() == 0 {
        let x = dim(on, "no languages detected");
        r.append(x.as_str());
    } else {
        let j = join(&names, " · ");
        let x = cyan(on, j.as_str());
        r.append(x.as_str());
    }
    r.append("\n");
    r
}

// ------------------------------------------------------------------- table --

/// The config cell: filename, dimmed when it already exists.
pub open spec fn spec_config_cell(t: ToolPlanView, on: bool) -> Seq<char> {
    match t.config {
        StatusView::Create => match t.spec.template_path {
            Some(p) => spec_wrap(on, "33"@, p),
            None => Seq::empty(),
        },
        StatusView::Exists(f) => spec_wrap(on, "2"@, f),
        StatusView::NoTemplate => Seq::empty(),
    }
}

fn config_cell(t: &ToolPlan, on: bool) -> (r: String)
    ensures
        r@ == spec_config_cell(t@, on),
{
    match &t.config {
        crate::plan::Status::Create => match t.spec.template {
            Some(tpl) => yellow(on, tpl.path),
            None => String::new(),
        },
        crate::plan::Status::Exists(f) => dim(on, f.as_str()),
        crate::plan::Status::NoTemplate => String::new(),
    }
}

/// How many of `ts` have role `r`.
pub open spec fn count_role(ts: Seq<ToolPlanView>, r: Role) -> nat
    decreases ts.len(),
{
    if ts.len() == 0 {
        0
    } else {
        count_role(ts.drop_last(), r) + if ts.last().spec.role == r { 1nat } else { 0nat }
    }
}

/// How many of `ts` have role `r` and are installed.
pub open spec fn count_have(ts: Seq<ToolPlanView>, r: Role) -> nat
    decreases ts.len(),
{
    if ts.len() == 0 {
        0
    } else {
        count_have(ts.drop_last(), r) + if ts.last().spec.role == r && ts.last().installed is Some { 1nat } else { 0nat }
    }
}

/// The installed mark.
pub open spec fn mark(t: ToolPlanView, on: bool) -> Seq<char> {
    if t.installed is Some {
        spec_wrap(on, "32"@, "●"@)
    } else {
        spec_wrap(on, "2"@, "○"@)
    }
}

/// One table row; the role label appears once, against its first tool.
pub open spec fn row(t: ToolPlanView, first: bool, on: bool) -> Seq<char> {
    let label = if first { t.spec.role.spec_name() } else { Seq::empty() };
    let name = if t.installed is Some { t.spec.id } else { spec_wrap(on, "2"@, t.spec.id) };
    seq_trim_end(
        "  "@ + spec_pad(spec_wrap(on, "2"@, label), ROLE_W as nat) + mark(t, on) + " "@ + spec_pad(name, TOOL_W as nat)
            + " "@ + spec_config_cell(t, on),
    ) + "\n"@
}

/// The rows of the tools of role `r`, in plan order.
pub open spec fn role_rows(ts: Seq<ToolPlanView>, r: Role, on: bool) -> Seq<char>
    decreases ts.len(),
{
    if ts.len() == 0 {
        Seq::empty()
    } else {
        role_rows(ts.drop_last(), r, on) + if ts.last().spec.role == r {
            row(ts.last(), count_role(ts.drop_last(), r) == 0, on)
        } else {
            Seq::empty()
        }
    }
}

/// The rows of the first `n` roles.
pub open spec fn roles_rows(ts: Seq<ToolPlanView>, n: nat, on: bool) -> Seq<char>
    decreases n,
{
    if n == 0 {
        Seq::empty()
    } else {
        roles_rows(ts, (n - 1) as nat, on) + role_rows(ts, role_at((n - 1) as int), on)
    }
}

/// The role at position `i` of [`Role::ALL`].
pub open spec fn role_at(i: int) -> Role {
    if i == 0 {
        Role::Secrets
    } else if i == 1 {
        Role::Sast
    } else if i == 2 {
        Role::Lint
    } else if i == 3 {
        Role::TypeCheck
    } else if i == 4 {
        Role::Deps
    } else {
        Role::Format
    }
}

/// The tool table, grouped by role.
pub open spec fn spec_table(p: PlanView, on: bool) -> Seq<char> {
    "\n"@ + roles_rows(p.tools, 6, on)
}

fn row_of(t: &ToolPlan, first: bool, on: bool) -> (r: String)
    ensures
        r@ == row(t@, first, on),
{
    let label = if first { t.spec.role.as_str() } else { "" };
    let dl = dim(on, label);
    let pl = pad(dl.as_str(), ROLE_W);
    let m = if t.installed.is_some() { ok(on) } else { missing(on) };
    let name = if t.installed.is_some() { owned(t.spec.id) } else { dim(on, t.spec.id) };
    let pn = pad(name.as_str(), TOOL_W);
    let cfg = config_cell(t, on);
    let mut line = owned("  ");
    line.append(pl.as_str());
    line.append(m.as_str());
    line.append(" ");
    line.append(pn.as_str());
    line.append(" ");
    line.append(cfg.as_str());
    let mut r = trim_end(line.as_str());
    r.append("\n");
    proof {
        if first {
        } else {
            assert(""@ == Seq::<char>::empty()) by {
                reveal_strlit("");
            }
        }
    }
    r
}

fn rows_of_role(tools: &Vec<ToolPlan>, role: Role, on: bool) -> (r: String)
    ensures
        r@ == role_rows(tools@.map_values(|t: ToolPlan| t@), role, on),
{
    let ghost ts = tools@.map_values(|t: ToolPlan| t@);
    let mut r = String::new();
    let mut seen: usize = 0;
    let mut i: usize = 0;
    while i < tools.len()
        invariant
            ts == tools@.map_values(|t: ToolPlan| t@),
            i <= ts.len(),
            seen == count_role(ts.take(i as int), role),
            seen <= i,
            r@ == role_rows(ts.take(i as int), role, on),
        decreases tools.len() - i,
    {
        let t = &tools[i];
        assert(ts[i as int] == t@);
        assert(ts.take(i + 1).drop_last() =~= ts.take(i as int));
        if t.spec.role == role {
            let l = row_of(t, seen == 0, on);
            r.append(l.as_str());
            seen = seen + 1;
        }
        i = i + 1;
    }
    assert(ts.take(ts.len() as int) =~= ts);
    r
}

/// The tool table, grouped by role.
pub fn table(plan: &Plan, on: bool) -> (r: String)
    ensures
        r@ == spec_table(plan@, on),
{
    let mut body = String::new();
    let mut k: usize = 0;
    while k < 6
        invariant
            k <= 6,
            body@ == roles_rows(plan@.tools, k as nat, on),
        decreases 6 - k,
    {
        let role = Role::ALL[k];
        assert(role == role_at(k as int));
        let l = rows_of_role(&plan.tools, role, on);
        body.append(l.as_str());
        k = k + 1;
    }
    concat("\n", body.as_str())
}

// -------------------------------------------------------------------- hook --

/// The hook line of the table.
pub open spec fn spec_hook(p: PlanView, on: bool) -> Seq<char> {
    let (m, text) = match p.hook {
        HookPlanView::Install => (spec_wrap(on, "33"@, "→"@), "pre-commit hook"@),
        HookPlanView::Refresh => (spec_wrap(on, "32"@, "●"@), "pre-commit hook"@),
        HookPlanView::Managed(mg, _) => (
            spec_wrap(on, "2"@, "·"@),
            "managed by "@ + spec_wrap(on, "1"@, mg.spec_name()) + " — revd defers to it"@,
        ),
        HookPlanView::Foreign(_) => (spec_wrap(on, "2"@, "·"@), "existing hook is not revd's — left alone"@),
        HookPlanView::NotGit => (spec_wrap(on, "2"@, "·"@), spec_wrap(on, "2"@, "not a git repository"@)),
    };
    "  "@ + spec_pad(spec_wrap(on, "2"@, "hook"@), ROLE_W as nat) + m + " "@ + text + "\n"@
}

/// The hook line of the table.
pub fn hook(plan: &Plan, on: bool) -> (r: String)
    ensures
        r@ == spec_hook(plan@, on),
{
    let (m, text) = match &plan.hook {
        HookPlan::Install => (yellow(on, "→"), owned("pre-commit hook")),
        HookPlan::Refresh => (ok(on), owned("pre-commit hook")),
        HookPlan::Managed(mg, _) => {
            let mut t = owned("managed by ");
            let b = bold(on, mg.name());
            t.append(b.as_str());
            t.append(" — revd defers to it");
            (dim(on, "·"), t)
        },
        HookPlan::Foreign(_) => (dim(on, "·"), owned("existing hook is not revd's — left alone")),
        HookPlan::NotGit => (dim(on, "·"), dim(on, "not a git repository")),
    };
    let h = dim(on, "hook");
    let ph = pad(h.as_str(), ROLE_W);
    let mut r = concat("  ", ph.as_str());
    r.append(m.as_str());
    r.append(" ");
    r.append(text.as_str());
    r.append("\n");
    r
}

// ----------------------------------------------------------------- summary --

/// `● 6 installed   ○ 7 missing   4 configs to write`
pub open spec fn spec_summary(p: PlanView, applied: bool, on: bool) -> Seq<char> {
    let missing_n = missing_of(p.tools).len();
    let installed_n = (p.tools.len() - missing_n) as nat;
    let writes = writing_of(p.tools).len();
    let verb = if applied { "written"@ } else { "to write"@ };
    let noun = if writes == 1 { "config"@ } else { "configs"@ };
    let parts = seq![
        spec_wrap(on, "32"@, "●"@) + " "@ + decimal(installed_n) + " installed"@,
        spec_wrap(on, "2"@, "○"@) + " "@ + decimal(missing_n) + " missing"@,
    ];
    let parts = if writes > 0 || applied {
        parts.push(spec_wrap(on, "33"@, decimal(writes) + " "@ + noun + " "@ + verb))
    } else {
        parts
    };
    "\n  "@ + seq_join(parts, spec_wrap(on, "2"@, "   "@)) + "\n"@
}

proof fn lemma_missing_len(ts: Seq<ToolPlanView>)
    ensures
        missing_of(ts).len() <= ts.len(),
        writing_of(ts).len() <= ts.len(),
    decreases ts.len(),
{
    if ts.len() > 0 {
        lemma_missing_len(ts.drop_last());
    }
}

/// `● 6 installed   ○ 7 missing   4 configs to write`
pub fn summary(plan: &Plan, applied: bool, on: bool) -> (r: String)
    ensures
        r@ == spec_summary(plan@, applied, on),
{
    let missing_n = plan.missing_tools().len();
    let writes = plan.files_to_write().len();
    proof {
        lemma_missing_len(plan@.tools);
        assert(plan@.tools.len() == plan.tools@.len());
    }
    let installed_n = plan.tools.len() - missing_n;
    let verb = if applied { "written" } else { "to write" };
    let noun = if writes == 1 { "config" } else { "configs" };
    let mut parts: Vec<String> = Vec::new();
    let mut a = ok(on);
    a.append(" ");
    let n1 = decimal_usize(installed_n);
    a.append(n1.as_str());
    a.append(" installed");
    parts.push(a);
    let mut b = missing(on);
    b.append(" ");
    let n2 = decimal_usize(missing_n);
    b.append(n2.as_str());
    b.append(" missing");
    parts.push(b);
    if writes > 0 || applied {
        let mut c = decimal_usize(writes);
        c.append(" ");
        c.append(noun);
        c.append(" ");
        c.append(verb);
        let y = yellow(on, c.as_str());
        parts.push(y);
    }
    let sep = dim(on, "   ");
    let j = join(&parts, sep.as_str());
    let mut r = concat("\n  ", j.as_str());
    r.append("\n");
    proof {
        let pv = parts@.map_values(|s: String| s@);
        if writes > 0 || applied {
            assert(pv =~= seq![a@, b@].push(parts@[2]@));
        } else {
            assert(pv =~= seq![a@, b@]);
        }
    }
    r
}

// ---------------------------------------------------------------- coverage --

/// One coverage line, for a role with at least one tool.
pub open spec fn coverage_line(ts: Seq<ToolPlanView>, r: Role, on: bool) -> Seq<char> {
    let total = count_role(ts, r);
    let have = count_have(ts, r);
    let state = if have == 0 { spec_wrap(on, "33"@, "gap"@) } else { spec_wrap(on, "32"@, "ok"@) };
    if total == 0 {
        Seq::empty()
    } else {
        "    "@ + spec_pad(spec_wrap(on, "2"@, r.spec_name()), ROLE_W as nat) + spec_wrap(
            on,
            "2"@,
            decimal(have) + "/"@ + decimal(total),
        ) + "  "@ + state + "\n"@
    }
}

/// The coverage lines of the first `n` roles.
pub open spec fn coverage_lines(ts: Seq<ToolPlanView>, n: nat, on: bool) -> Seq<char>
    decreases n,
{
    if n == 0 {
        Seq::empty()
    } else {
        coverage_lines(ts, (n - 1) as nat, on) + coverage_line(ts, role_at((n - 1) as int), on)
    }
}

/// Per-role gaps, for `doctor`.
pub open spec fn spec_coverage(p: PlanView, on: bool) -> Seq<char> {
    "\n  "@ + spec_wrap(on, "1"@, "coverage"@) + "\n"@ + coverage_lines(p.tools, 6, on)
}

proof fn lemma_counts(ts: Seq<ToolPlanView>, r: Role)
    ensures
        count_have(ts, r) <= count_role(ts, r) <= ts.len(),
    decreases ts.len(),
{
    if ts.len() > 0 {
        lemma_counts(ts.drop_last(), r);
    }
}

fn coverage_line_of(tools: &Vec<ToolPlan>, role: Role, on: bool) -> (r: String)
    ensures
        r@ == coverage_line(tools@.map_values(|t: ToolPlan| t@), role, on),
{
    let ghost ts = tools@.map_values(|t: ToolPlan| t@);
    let mut total: usize = 0;
    let mut have: usize = 0;
    let mut i: usize = 0;
    while i < tools.len()
        invariant
            ts == tools@.map_values(|t: ToolPlan| t@),
            i <= ts.len(),
            total == count_role(ts.take(i as int), role),
            have == count_have(ts.take(i as int), role),
        decreases tools.len() - i,
    {
        let t = &tools[i];
        assert(ts[i as int] == t@);
        assert(ts.take(i + 1).drop_last() =~= ts.take(i as int));
        proof {
            lemma_counts(ts.take(i as int), role);
        }
        if t.spec.role == role {
            total = total + 1;
            if t.installed.is_some() {
                have = have + 1;
            }
        }
        i = i + 1;
    }
    assert(ts.take(ts.len() as int) =~= ts);
    if total == 0 {
        return String::new();
    }
    let state = if have == 0 { yellow(on, "gap") } else { green(on, "ok") };
    let dr = dim(on, role.as_str());
    let pr = pad(dr.as_str(), ROLE_W);
    let mut frac = decimal_usize(have);
    frac.append("/");
    let t = decimal_usize(total);
    frac.append(t.as_str());
    let df = dim(on, frac.as_str());
    let mut r = concat("    ", pr.as_str());
    r.append(df.as_str());
    r.append("  ");
    r.append(state.as_str());
    r.append("\n");
    r
}

/// Per-role gaps, for `doctor`.
pub fn coverage(plan: &Plan, on: bool) -> (r: String)
    ensures
        r@ == spec_coverage(plan@, on),
{
    let b = bold(on, "coverage");
    let mut r = concat("\n  ", b.as_str());
    r.append("\n");
    let ghost head = r@;
    let mut k: usize = 0;
    while k < 6
        invariant
            k <= 6,
            r@ == head + coverage_lines(plan@.tools, k as nat, on),
        decreases 6 - k,
    {
        let role = Role::ALL[k];
        assert(role == role_at(k as int));
        let l = coverage_line_of(&plan.tools, role, on);
        r.append(l.as_str());
        k = k + 1;
    }
    r
}

// ------------------------------------------------------------------- notes --

/// A caveat is shown for a tool you rely on: installed, or carrying a config
/// (whether revd wrote it or it was already there).
pub open spec fn noted(t: ToolPlan) -> bool {
    t.spec.note@.len() > 0 && (t@.installed is Some || !(t@.config is NoTemplate))
}

/// The note lines, in plan order.
pub open spec fn note_lines(ts: Seq<ToolPlan>, on: bool) -> Seq<char>
    decreases ts.len(),
{
    if ts.len() == 0 {
        Seq::empty()
    } else {
        note_lines(ts.drop_last(), on) + if noted(ts.last()) {
            "    "@ + spec_pad(ts.last().spec.id@, TOOL_W as nat) + " "@ + spec_wrap(on, "2"@, ts.last().spec.note@)
                + "\n"@
        } else {
            Seq::empty()
        }
    }
}

/// How many of `ts` are noted.
pub open spec fn count_noted(ts: Seq<ToolPlan>) -> nat
    decreases ts.len(),
{
    if ts.len() == 0 {
        0
    } else {
        count_noted(ts.drop_last()) + if noted(ts.last()) { 1nat } else { 0nat }
    }
}

/// Caveats — licence, maintenance, gotchas. `doctor` only; too noisy elsewhere.
pub open spec fn spec_notes(ts: Seq<ToolPlan>, on: bool) -> Seq<char> {
    if count_noted(ts) == 0 {
        Seq::empty()
    } else {
        "\n  "@ + spec_wrap(on, "1"@, "notes"@) + "\n"@ + note_lines(ts, on)
    }
}

/// Caveats — licence, maintenance, gotchas. `doctor` only; too noisy elsewhere.
pub fn notes(plan: &Plan, on: bool) -> (r: String)
    ensures
        r@ == spec_notes(plan.tools@, on),
{
    let ghost ts = plan.tools@;
    let mut lines = String::new();
    let mut count: usize = 0;
    let mut i: usize = 0;
    while i < plan.tools.len()
        invariant
            ts == plan.tools@,
            i <= ts.len(),
            count <= i,
            count == count_noted(ts.take(i as int)),
            lines@ == note_lines(ts.take(i as int), on),
        decreases plan.tools.len() - i,
    {
        let t = &plan.tools[i];
        assert(ts.take(i + 1).drop_last() =~= ts.take(i as int));
        assert(ts.take(i + 1).last() == *t);
        let has_config = match t.config {
            crate::plan::Status::NoTemplate => false,
            _ => true,
        };
        if t.spec.note.unicode_len() > 0 && (t.installed.is_some() || has_config) {
            let pid = pad(t.spec.id, TOOL_W);
            let dn = dim(on, t.spec.note);
            lines.append("    ");
            lines.append(pid.as_str());
            lines.append(" ");
            lines.append(dn.as_str());
            lines.append("\n");
            count = count + 1;
        }
        i = i + 1;
    }
    assert(ts.take(ts.len() as int) =~= ts);
    if count == 0 {
        return String::new();
    }
    let b = bold(on, "notes");
    let mut r = concat("\n  ", b.as_str());
    r.append("\n");
    r.append(lines.as_str());
    r
}

// ------------------------------------------------------------------- wrote --

/// A written path as shown: relative to the root when the root's components
/// begin it, as `Path::strip_prefix` gives it; else the path as it is.
pub open spec fn spec_shown(root: Seq<char>, w: Seq<char>) -> Seq<char> {
    match strip_prefix(w, root) {
        Some(r) => r,
        None => w,
    }
}

/// `p` relative to `root` where it lies inside it, else `p` as it is.
pub fn strip_root(root: &str, p: &str) -> (r: String)
    ensures
        r@ == spec_shown(root@, p@),
{
    match path_strip_prefix(p, root) {
        Some(r) => r,
        None => owned(p),
    }
}

/// The lines for the files written.
pub open spec fn wrote_lines(root: Seq<char>, ws: Seq<Seq<char>>, on: bool) -> Seq<char>
    decreases ws.len(),
{
    if ws.len() == 0 {
        Seq::empty()
    } else {
        wrote_lines(root, ws.drop_last(), on) + "  "@ + spec_wrap(on, "32"@, "+"@) + " "@ + spec_shown(root, ws.last())
            + "\n"@
    }
}

/// The files written, one per line.
pub open spec fn spec_wrote(root: Seq<char>, ws: Seq<Seq<char>>, on: bool) -> Seq<char> {
    if ws.len() == 0 {
        Seq::empty()
    } else {
        "\n"@ + wrote_lines(root, ws, on)
    }
}

/// The files written, one per line, relative to the root.
pub fn wrote(plan: &Plan, written: &Vec<String>, on: bool) -> (r: String)
    ensures
        r@ == spec_wrote(plan@.root, written@.map_values(|w: String| w@), on),
{
    let ghost ws = written@.map_values(|w: String| w@);
    if written.len() == 0 {
        return String::new();
    }
    let mut lines = String::new();
    let mut i: usize = 0;
    while i < written.len()
        invariant
            ws == written@.map_values(|w: String| w@),
            i <= ws.len(),
            lines@ == wrote_lines(plan@.root, ws.take(i as int), on),
        decreases written.len() - i,
    {
        assert(ws.take(i + 1).drop_last() =~= ws.take(i as int));
        assert(ws.take(i + 1).last() == written@[i as int]@);
        let g = green(on, "+");
        let s = strip_root(plan.root.as_str(), written[i].as_str());
        lines.append("  ");
        lines.append(g.as_str());
        lines.append(" ");
        lines.append(s.as_str());
        lines.append("\n");
        i = i + 1;
    }
    assert(ws.take(ws.len() as int) =~= ws);
    concat("\n", lines.as_str())
}

// ------------------------------------------------------------ hook footnote --

/// A path as shown in a footnote: relative to the project root where possible,
/// as `Path::strip_prefix` gives it; absolute paths are noise in a terminal.
/// Both paths are taken canonical, and `orig` is shown when `full` is not
/// inside `root`.
pub open spec fn spec_rel(root: Seq<char>, full: Seq<char>, orig: Seq<char>) -> Seq<char> {
    match strip_prefix(full, root) {
        Some(r) => r,
        None => orig,
    }
}

/// A path relative to the project root where possible.
pub fn rel(root: &str, full: &str, orig: &str) -> (r: String)
    ensures
        r@ == spec_rel(root@, full@, orig@),
{
    match path_strip_prefix(full, root) {
        Some(r) => r,
        None => owned(orig),
    }
}

/// What to tell the user about a hook revd left alone; `shown` is its path as displayed.
pub open spec fn spec_hook_footnote(p: PlanView, shown: Seq<char>, on: bool) -> Seq<char> {
    match p.hook {
        HookPlanView::Managed(m, _) => "\n  "@ + spec_wrap(on, "1"@, m.spec_name()) + " manages "@ + spec_wrap(
            on,
            "2"@,
            shown,
        ) + "\n    to add these checks: "@ + spec_wrap(on, "2"@, m.spec_advice()) + "\n"@,
        HookPlanView::Foreign(_) => "\n  "@ + spec_wrap(on, "2"@, "existing hook left alone:"@) + " "@ + spec_wrap(
            on,
            "2"@,
            shown,
        ) + "\n    "@ + spec_wrap(on, "2"@, "re-run with --force to replace it"@) + "\n"@,
        _ => Seq::empty(),
    }
}

/// What to tell the user about a hook revd left alone; `shown` is its path as displayed.
pub fn hook_footnote(plan: &Plan, shown: &str, on: bool) -> (r: String)
    ensures
        r@ == spec_hook_footnote(plan@, shown@, on),
{
    match &plan.hook {
        HookPlan::Managed(m, _) => {
            let b = bold(on, m.name());
            let d = dim(on, shown);
            let a = dim(on, m.advice());
            let mut r = concat("\n  ", b.as_str());
            r.append(" manages ");
            r.append(d.as_str());
            r.append("\n    to add these checks: ");
            r.append(a.as_str());
            r.append("\n");
            r
        },
        HookPlan::Foreign(_) => {
            let x = dim(on, "existing hook left alone:");
            let d = dim(on, shown);
            let y = dim(on, "re-run with --force to replace it");
            let mut r = concat("\n  ", x.as_str());
            r.append(" ");
            r.append(d.as_str());
            r.append("\n    ");
            r.append(y.as_str());
            r.append("\n");
            r
        },
        _ => String::new(),
    }
}

// ----------------------------------------------------------- install hints --

/// `(prefix, package)` for a missing tool that shares one install line per
/// package manager; builtins and manual installs have none.
pub open spec fn grouped(t: ToolPlanView) -> Option<(Seq<char>, Seq<char>)> {
    if t.spec.install is Builtin {
        None
    } else {
        spec_group(t.spec.install)
    }
}

/// The package-manager prefix of a missing tool's grouped install, if any.
pub open spec fn group_prefix(t: ToolPlanView) -> Option<Seq<char>> {
    match grouped(t) {
        Some(g) => Some(g.0),
        None => None,
    }
}

/// Lines for missing tools installed by their own command, in order.
pub open spec fn ungrouped_lines(ms: Seq<ToolPlanView>, on: bool) -> Seq<char>
    decreases ms.len(),
{
    if ms.len() == 0 {
        Seq::empty()
    } else {
        let t = ms.last();
        ungrouped_lines(ms.drop_last(), on) + if !(t.spec.install is Builtin) && grouped(t) is None {
            "    "@ + spec_pad(t.spec.id, TOOL_W as nat) + " "@ + spec_wrap(on, "2"@, spec_command(t.spec.install)) + "\n"@
        } else {
            Seq::empty()
        }
    }
}

/// Ids of missing tools that ship with a toolchain, in order.
pub open spec fn toolchain_ids(ms: Seq<ToolPlanView>) -> Seq<Seq<char>>
    decreases ms.len(),
{
    if ms.len() == 0 {
        Seq::empty()
    } else {
        toolchain_ids(ms.drop_last()) + if ms.last().spec.install is Builtin { seq![ms.last().spec.id] } else { Seq::empty() }
    }
}

/// Some missing tool installs with `prefix`.
pub open spec fn has_prefix(ms: Seq<ToolPlanView>, prefix: Seq<char>) -> bool {
    exists|j: int| 0 <= j < ms.len() && #[trigger] group_prefix(ms[j]) == Some(prefix)
}

/// Some missing tool installs as `pkg` with `prefix`.
pub open spec fn has_package(ms: Seq<ToolPlanView>, prefix: Seq<char>, pkg: Seq<char>) -> bool {
    exists|j: int| 0 <= j < ms.len() && #[trigger] grouped(ms[j]) == Some((prefix, pkg))
}

/// `prefixes` are the install prefixes of the grouped missing tools, sorted,
/// each once; `pkgs[i]` are the packages under `prefixes[i]`, sorted, each once.
pub open spec fn groups_ok(ms: Seq<ToolPlanView>, prefixes: Seq<Seq<char>>, pkgs: Seq<Seq<Seq<char>>>) -> bool {
    &&& strictly_sorted(prefixes)
    &&& forall|x: Seq<char>| prefixes.contains(x) <==> has_prefix(ms, x)
    &&& pkgs.len() == prefixes.len()
    &&& forall|i: int| 0 <= i < pkgs.len() ==> strictly_sorted(#[trigger] pkgs[i])
    &&& forall|i: int, x: Seq<char>| 0 <= i < pkgs.len() ==> (#[trigger] pkgs[i].contains(x) <==> has_package(ms, prefixes[i], x))
}

/// One line per package manager, each copy-pasteable.
pub open spec fn group_lines(prefixes: Seq<Seq<char>>, pkgs: Seq<Seq<Seq<char>>>) -> Seq<char>
    decreases prefixes.len(),
{
    if prefixes.len() == 0 || pkgs.len() == 0 {
        Seq::empty()
    } else {
        group_lines(prefixes.drop_last(), pkgs.drop_last()) + "    "@ + prefixes.last() + " "@ + seq_join(pkgs.last(), " "@) + "\n"@
    }
}

/// The install hints, given the groups.
pub open spec fn hints_text(ms: Seq<ToolPlanView>, prefixes: Seq<Seq<char>>, pkgs: Seq<Seq<Seq<char>>>, on: bool) -> Seq<char> {
    if ms.len() == 0 {
        Seq::empty()
    } else {
        "\n  "@ + spec_wrap(on, "1"@, "install what you need"@) + "\n"@ + group_lines(prefixes, pkgs) + ungrouped_lines(ms, on)
            + if toolchain_ids(ms).len() == 0 {
            Seq::empty()
        } else {
            "    "@ + spec_wrap(on, "2"@, "not on PATH: "@ + seq_join(toolchain_ids(ms), ", "@) + " — install the language toolchain"@)
                + "\n"@
        }
    }
}

fn grouped_of(t: &ToolPlan) -> (r: Option<(&'static str, &'static str)>)
    ensures
        match r {
            Some(g) => grouped(t@) == Some((g.0@, g.1@)),
            None => grouped(t@) is None,
        },
{
    if t.spec.install.is_builtin() {
        None
    } else {
        t.spec.install.group()
    }
}

/// Install commands for the missing tools, collapsed one line per package
/// manager so each is copy-pasteable.
pub fn install_hints(plan: &Plan, on: bool) -> (r: String)
    ensures
        exists|prefixes: Seq<Seq<char>>, pkgs: Seq<Seq<Seq<char>>>|
            groups_ok(missing_of(plan@.tools), prefixes, pkgs) && r@ == #[trigger] hints_text(
                missing_of(plan@.tools),
                prefixes,
                pkgs,
                on,
            ),
{
    let missing = plan.missing_tools();
    let ghost ms = missing_of(plan@.tools);
    assert(missing@.map_values(|t: &ToolPlan| t@) == ms);
    // the prefixes, sorted and unique
    let mut prefixes: Vec<String> = Vec::new();
    let mut i: usize = 0;
    while i < missing.len()
        invariant
            missing@.map_values(|t: &ToolPlan| t@) == ms,
            i <= ms.len(),
            strictly_sorted(views(prefixes@)),
            forall|x: Seq<char>| views(prefixes@).contains(x) <==> has_prefix(ms.take(i as int), x),
        decreases missing.len() - i,
    {
        let t = missing[i];
        assert(ms[i as int] == t@);
        let ghost before = views(prefixes@);
        match grouped_of(t) {
            Some((prefix, _)) => {
                insert_unique_sorted(&mut prefixes, prefix);
            },
            None => {},
        }
        proof {
            assert forall|x: Seq<char>| views(prefixes@).contains(x) <==> has_prefix(ms.take(i + 1), x) by {
                if has_prefix(ms.take(i + 1), x) {
                    let j = choose|j: int| 0 <= j < i + 1 && #[trigger] group_prefix(ms.take(i + 1)[j]) == Some(x);
                    if j < i {
                        assert(ms.take(i as int)[j] == ms.take(i + 1)[j]);
                        assert(has_prefix(ms.take(i as int), x));
                    }
                }
                if has_prefix(ms.take(i as int), x) {
                    let j = choose|j: int| 0 <= j < i && #[trigger] group_prefix(ms.take(i as int)[j]) == Some(x);
                    assert(ms.take(i + 1)[j] == ms.take(i as int)[j]);
                }
                if group_prefix(t@) == Some(x) {
                    assert(ms.take(i + 1)[i as int] == t@);
                }
            }
        }
        i = i + 1;
    }
    assert(ms.take(ms.len() as int) =~= ms);
    // the packages under each prefix, sorted and unique
    let mut pkgs: Vec<Vec<String>> = Vec::new();
    let mut lines = String::new();
    let mut g: usize = 0;
    while g < prefixes.len()
        invariant
            missing@.map_values(|t: &ToolPlan| t@) == ms,
            g <= prefixes@.len(),
            pkgs@.len() == g,
            forall|k: int| 0 <= k < g ==> strictly_sorted(#[trigger] views(pkgs@[k]@)),
            forall|k: int, x: Seq<char>| 0 <= k < g ==> (#[trigger] views(pkgs@[k]@).contains(x) <==> has_package(ms, views(prefixes@)[k], x)),
            lines@ == group_lines(views(prefixes@).take(g as int), pkgs@.map_values(|v: Vec<String>| views(v@))),
        decreases prefixes.len() - g,
    {
        let prefix = prefixes[g].as_str();
        assert(views(prefixes@)[g as int] == prefix@);
        let mut here: Vec<String> = Vec::new();
        let mut j: usize = 0;
        while j < missing.len()
            invariant
                missing@.map_values(|t: &ToolPlan| t@) == ms,
                j <= ms.len(),
                strictly_sorted(views(here@)),
                forall|x: Seq<char>| views(here@).contains(x) <==> has_package(ms.take(j as int), prefix@, x),
            decreases missing.len() - j,
        {
            let t = missing[j];
            assert(ms[j as int] == t@);
            match grouped_of(t) {
                Some((p2, pkg)) => {
                    if str_eq(p2, prefix) {
                        insert_unique_sorted(&mut here, pkg);
                    }
                },
                None => {},
            }
            proof {
                assert forall|x: Seq<char>| views(here@).contains(x) <==> has_package(ms.take(j + 1), prefix@, x) by {
                    if has_package(ms.take(j + 1), prefix@, x) {
                        let k = choose|k: int| 0 <= k < j + 1 && #[trigger] grouped(ms.take(j + 1)[k]) == Some((prefix@, x));
                        if k < j {
                            assert(ms.take(j as int)[k] == ms.take(j + 1)[k]);
                            assert(has_package(ms.take(j as int), prefix@, x));
                        } else {
                            assert(ms.take(j + 1)[k] == t@);
                        }
                    }
                    if has_package(ms.take(j as int), prefix@, x) {
                        let k = choose|k: int| 0 <= k < j && #[trigger] grouped(ms.take(j as int)[k]) == Some((prefix@, x));
                        assert(ms.take(j + 1)[k] == ms.take(j as int)[k]);
                    }
                    if grouped(t@) == Some((prefix@, x)) {
                        assert(ms.take(j + 1)[j as int] == t@);
                    }
                }
            }
            j = j + 1;
        }
        assert(ms.take(ms.len() as int) =~= ms);
        let joined = join(&here, " ");
        lines.append("    ");
        lines.append(prefix);
        lines.append(" ");
        lines.append(joined.as_str());
        lines.append("\n");
        let ghost before = pkgs@.map_values(|v: Vec<String>| views(v@));
        pkgs.push(here);
        proof {
            let pv = pkgs@.map_values(|v: Vec<String>| views(v@));
            assert(pv =~= before.push(views(here@)));
            assert(views(prefixes@).take(g + 1).drop_last() =~= views(prefixes@).take(g as int));
            assert(pv.drop_last() =~= before);
        }
        g = g + 1;
    }
    proof {
        assert(views(prefixes@).take(prefixes@.len() as int) =~= views(prefixes@));
    }
    let ghost pv = pkgs@.map_values(|v: Vec<String>| views(v@));
    if missing.len() == 0 {
        proof {
            assert(groups_ok(ms, views(prefixes@), pv));
            assert(hints_text(ms, views(prefixes@), pv, on) == Seq::<char>::empty());
        }
        return String::new();
    }
    // the tools installed by their own command, and those that ship with a toolchain
    let mut ungrouped = String::new();
    let mut toolchain: Vec<String> = Vec::new();
    let mut k: usize = 0;
    while k < missing.len()
        invariant
            missing@.map_values(|t: &ToolPlan| t@) == ms,
            k <= ms.len(),
            ungrouped@ == ungrouped_lines(ms.take(k as int), on),
            views(toolchain@) == toolchain_ids(ms.take(k as int)),
        decreases missing.len() - k,
    {
        let t = missing[k];
        assert(ms[k as int] == t@);
        assert(ms.take(k + 1).drop_last() =~= ms.take(k as int));
        if t.spec.install.is_builtin() {
            let ghost before = views(toolchain@);
            let id = owned(t.spec.id);
            toolchain.push(id);
            assert(views(toolchain@) =~= before.push(id@));
        } else {
            match grouped_of(t) {
                Some(_) => {},
                None => {
                    let pid = pad(t.spec.id, TOOL_W);
                    let cmd = t.spec.install.command();
                    let dc = dim(on, cmd.as_str());
                    ungrouped.append("    ");
                    ungrouped.append(pid.as_str());
                    ungrouped.append(" ");
                    ungrouped.append(dc.as_str());
                    ungrouped.append("\n");
                },
            }
            assert(views(toolchain@) =~= views(toolchain@) + Seq::<Seq<char>>::empty());
        }
        k = k + 1;
    }
    assert(ms.take(ms.len() as int) =~= ms);
    let b = bold(on, "install what you need");
    let mut r = concat("\n  ", b.as_str());
    r.append("\n");
    r.append(lines.as_str());
    r.append(ungrouped.as_str());
    if toolchain.len() > 0 {
        let ids = join(&toolchain, ", ");
        let mut note = concat("not on PATH: ", ids.as_str());
        note.append(" — install the language toolchain");
        let d = dim(on, note.as_str());
        r.append("    ");
        r.append(d.as_str());
        r.append("\n");
    }
    proof {
        assert(groups_ok(ms, views(prefixes@), pv));
        assert(r@ == hints_text(ms, views(prefixes@), pv, on));
    }
    r
}

// ---------------------------------------------------------------- registry --

/// The languages column: `all` for a language-agnostic tool.
pub open spec fn langs_cell(t: ToolSpec) -> Seq<char> {
    if t.langs@.len() == 0 {
        "all"@
    } else {
        seq_join(t.langs@.map_values(|l: Lang| l.spec_name()), ","@)
    }
}

/// One line of `revd tools`.
pub open spec fn registry_line(t: ToolSpec, first: bool, on: bool) -> Seq<char> {
    let label = if first { t.role.spec_name() } else { Seq::empty() };
    "  "@ + spec_pad(spec_wrap(on, "2"@, label), ROLE_W as nat) + spec_pad(t.id@, TOOL_W as nat) + " "@ + spec_pad(
        spec_wrap(on, "2"@, langs_cell(t)),
        12,
    ) + " "@ + spec_pad(spec_wrap(on, "2"@, t.output.spec_name()), 6) + " "@ + spec_wrap(on, "2"@, t.why@) + "\n"@
}

/// How many of `ts` have role `r`.
pub open spec fn count_spec_role(ts: Seq<ToolSpec>, r: Role) -> nat
    decreases ts.len(),
{
    if ts.len() == 0 {
        0
    } else {
        count_spec_role(ts.drop_last(), r) + if ts.last().role == r { 1nat } else { 0nat }
    }
}

/// The lines of the tools of role `r`, in registry order.
pub open spec fn registry_role_lines(ts: Seq<ToolSpec>, r: Role, on: bool) -> Seq<char>
    decreases ts.len(),
{
    if ts.len() == 0 {
        Seq::empty()
    } else {
        registry_role_lines(ts.drop_last(), r, on) + if ts.last().role == r {
            registry_line(ts.last(), count_spec_role(ts.drop_last(), r) == 0, on)
        } else {
            Seq::empty()
        }
    }
}

/// The lines of the first `n` roles.
pub open spec fn registry_roles(ts: Seq<ToolSpec>, n: nat, on: bool) -> Seq<char>
    decreases n,
{
    if n == 0 {
        Seq::empty()
    } else {
        registry_roles(ts, (n - 1) as nat, on) + registry_role_lines(ts, role_at((n - 1) as int), on)
    }
}

/// `revd tools` for the tools `ts`.
pub open spec fn spec_registry_listing(ts: Seq<ToolSpec>, on: bool) -> Seq<char> {
    registry_roles(ts, 6, on) + "\n  "@ + spec_wrap(
        on,
        "2"@,
        "add a tool: define a ToolSpec in src/tools/registry.rs and list it in all()"@,
    ) + "\n"@
}

fn langs_cell_of(t: &ToolSpec) -> (r: String)
    ensures
        r@ == langs_cell(*t),
{
    if t.langs.len() == 0 {
        return owned("all");
    }
    let mut names: Vec<String> = Vec::new();
    let mut i: usize = 0;
    while i < t.langs.len()
        invariant
            i <= t.langs@.len(),
            views(names@) == t.langs@.map_values(|l: Lang| l.spec_name()).take(i as int),
        decreases t.langs.len() - i,
    {
        let ghost before = views(names@);
        let n = owned(t.langs[i].as_str());
        names.push(n);
        assert(views(names@) =~= before.push(n@));
        assert(t.langs@.map_values(|l: Lang| l.spec_name()).take(i + 1) =~= before.push(t.langs@[i as int].spec_name()));
        i = i + 1;
    }
    assert(t.langs@.map_values(|l: Lang| l.spec_name()).take(i as int) =~= t.langs@.map_values(|l: Lang| l.spec_name()));
    join(&names, ",")
}

fn registry_line_of(t: &ToolSpec, first: bool, on: bool) -> (r: String)
    ensures
        r@ == registry_line(*t, first, on),
{
    let label = if first { t.role.as_str() } else { "" };
    proof {
        reveal_strlit("");
    }
    let dl = dim(on, label);
    let pl = pad(dl.as_str(), ROLE_W);
    let pid = pad(t.id, TOOL_W);
    let lc = langs_cell_of(t);
    let dlc = dim(on, lc.as_str());
    let plc = pad(dlc.as_str(), 12);
    let df = dim(on, t.output.as_str());
    let pf = pad(df.as_str(), 6);
    let dw = dim(on, t.why);
    let mut r = concat("  ", pl.as_str());
    r.append(pid.as_str());
    r.append(" ");
    r.append(plc.as_str());
    r.append(" ");
    r.append(pf.as_str());
    r.append(" ");
    r.append(dw.as_str());
    r.append("\n");
    r
}

fn registry_lines_of_role(tools: &Vec<ToolSpec>, role: Role, on: bool) -> (r: String)
    ensures
        r@ == registry_role_lines(tools@, role, on),
{
    let ghost ts = tools@;
    let mut r = String::new();
    let mut seen: usize = 0;
    let mut i: usize = 0;
    while i < tools.len()
        invariant
            ts == tools@,
            i <= ts.len(),
            seen <= i,
            seen == count_spec_role(ts.take(i as int), role),
            r@ == registry_role_lines(ts.take(i as int), role, on),
        decreases tools.len() - i,
    {
        assert(ts.take(i + 1).drop_last() =~= ts.take(i as int));
        assert(ts.take(i + 1).last() == tools@[i as int]);
        if tools[i].role == role {
            let l = registry_line_of(&tools[i], seen == 0, on);
            r.append(l.as_str());
            seen = seen + 1;
        }
        i = i + 1;
    }
    assert(ts.take(ts.len() as int) =~= ts);
    r
}

/// `revd tools` — the registry, so the extension point is visible.
pub fn registry(on: bool) -> (r: String)
    ensures
        exists|ts: Seq<ToolSpec>|
            ts.map_values(|t: ToolSpec| t@) == registry::spec_registry() && r@ == #[trigger] spec_registry_listing(
                ts,
                on,
            ),
{
    let tools = registry::all();
    let mut r = String::new();
    let mut k: usize = 0;
    while k < 6
        invariant
            k <= 6,
            r@ == registry_roles(tools@, k as nat, on),
        decreases 6 - k,
    {
        let role = Role::ALL[k];
        assert(role == role_at(k as int));
        let l = registry_lines_of_role(&tools, role, on);
        r.append(l.as_str());
        k = k + 1;
    }
    let d = dim(on, "add a tool: define a ToolSpec in src/tools/registry.rs and list it in all()");
    r.append("\n  ");
    r.append(d.as_str());
    r.append("\n");
    assert(r@ == spec_registry_listing(tools@, on));
    r
}

} // verus!
