//! What `revd init` promises about the files it touches: it never overwrites
//! a config that is already there, it leaves a pre-commit hook it did not
//! write alone unless forced, and running it a second time writes nothing.
//!
//! Each promise is a proof over the planner's specification: a [`SurveyView`]
//! of the project, the plan [`planned`] for it, and the writes [`spec_init`]
//! asks for.
use crate::git::spec_join;
use crate::hooks::{self, first_manager, has_config, spec_detect_manager, HookPlanView, Manager, MARKER};
use crate::lang::{detection, has_file, proven_by, proves, spec_markers, EntryView, Lang};
use crate::plan::{
    config_writes, langs_of, planned, spec_apply, spec_init, tool_plan, writes_config, PlanView,
    SurveyView, ToolPlanView,
};
use crate::text::seq_contains;
use crate::tools::registry::{spec_registry, template_names_are_inert, templates_are_config_files};
use crate::tools::{
    applies, first_existing, has_all, lemma_selection_parts, lemma_selection_unique, members_apply, root_has, selectable,
    sorted_tools, ToolView,
};
use vstd::prelude::*;

verus! {

// ------------------------------------------------------------- the model --

/// A regular file named `name` at the project root.
pub open spec fn root_file(name: Seq<char>) -> EntryView {
    EntryView { dir: Seq::empty(), name, is_dir: false }
}

/// The root files that the config writes for `tools` create, in order.
pub open spec fn created_files(tools: Seq<ToolPlanView>, ls: Seq<EntryView>, force: bool) -> Seq<EntryView>
    decreases tools.len(),
{
    if tools.len() == 0 {
        Seq::empty()
    } else {
        let t = tools.last();
        created_files(tools.drop_last(), ls, force) + if writes_config(t, ls, force) {
            seq![root_file(t.spec.template_path->0)]
        } else {
            Seq::empty()
        }
    }
}

/// The project `s` describes, after `init` ran with plan `p`: each config it
/// wrote is a new file at the root, and the hook file holds what it wrote.
pub open spec fn after_init(s: SurveyView, p: PlanView, force: bool) -> SurveyView {
    if p.detected.len() == 0 {
        s
    } else {
        SurveyView {
            root: s.root,
            listing: s.listing + created_files(p.tools, s.listing, force),
            probes: s.probes,
            hooks_dir: s.hooks_dir,
            existing_hook: match hooks::spec_apply(p, force, s.existing_hook) {
                Some(w) => Some(w.1),
                None => s.existing_hook,
            },
        }
    }
}

// ---------------------------------------------------------- root entries --

proof fn lemma_first_existing(ls: Seq<EntryView>, names: Seq<Seq<char>>)
    ensures
        first_existing(ls, names) is None <==> forall|j: int| 0 <= j < names.len() ==> !root_has(ls, #[trigger] names[j]),
        first_existing(ls, names) is Some ==> names.contains(first_existing(ls, names)->0) && root_has(
            ls,
            first_existing(ls, names)->0,
        ),
    decreases names.len(),
{
    if names.len() > 0 {
        lemma_first_existing(ls, names.drop_first());
        if !root_has(ls, names[0]) {
            if first_existing(ls, names.drop_first()) is None {
                assert forall|j: int| 0 <= j < names.len() implies !root_has(ls, #[trigger] names[j]) by {
                    if j > 0 {
                        assert(names[j] == names.drop_first()[j - 1]);
                    }
                }
            } else {
                let x = first_existing(ls, names.drop_first())->0;
                let j = choose|j: int| 0 <= j < names.drop_first().len() && names.drop_first()[j] == x;
                assert(names[j + 1] == x);
            }
        }
    }
}

proof fn lemma_root_has_grows(ls: Seq<EntryView>, extra: Seq<EntryView>, name: Seq<char>)
    ensures
        root_has(ls, name) ==> root_has(ls + extra, name),
        root_has(extra, name) ==> root_has(ls + extra, name),
{
    if root_has(ls, name) {
        let j = choose|j: int| 0 <= j < ls.len() && ls[j].dir.len() == 0 && #[trigger] ls[j].name == name;
        assert((ls + extra)[j] == ls[j]);
    }
    if root_has(extra, name) {
        let j = choose|j: int| 0 <= j < extra.len() && extra[j].dir.len() == 0 && #[trigger] extra[j].name == name;
        assert((ls + extra)[ls.len() + j] == extra[j]);
    }
}

/// Every entry of `extra` is a regular file at the root, named neither `.git`
/// nor like a language marker.
pub open spec fn inert(extra: Seq<EntryView>) -> bool {
    forall|j: int| 0 <= j < extra.len() ==> {
        &&& (#[trigger] extra[j]).dir.len() == 0
        &&& !extra[j].is_dir
        &&& extra[j].name != ".git"@
        &&& forall|l: Lang, k: int| 0 <= k < spec_markers(l).len() ==> #[trigger] spec_markers(l)[k] != extra[j].name
    }
}

proof fn lemma_inert_root_has(ls: Seq<EntryView>, extra: Seq<EntryView>, name: Seq<char>)
    requires
        inert(extra),
        name == ".git"@ || exists|l: Lang, k: int| 0 <= k < spec_markers(l).len() && #[trigger] spec_markers(l)[k] == name,
    ensures
        root_has(ls + extra, name) == root_has(ls, name),
{
    lemma_root_has_grows(ls, extra, name);
    if root_has(ls + extra, name) {
        let j = choose|j: int| 0 <= j < (ls + extra).len() && (ls + extra)[j].dir.len() == 0 && #[trigger] (ls
            + extra)[j].name == name;
        if j >= ls.len() {
            assert((ls + extra)[j] == extra[j - ls.len()]);
            assert(extra[j - ls.len()].dir.len() == 0);
            if name != ".git"@ {
                let (l, k) = choose|l: Lang, k: int| 0 <= k < spec_markers(l).len() && #[trigger] spec_markers(l)[k] == name;
                assert(spec_markers(l)[k] != extra[j - ls.len()].name);
            }
        } else {
            assert((ls + extra)[j] == ls[j]);
        }
    }
}

proof fn lemma_inert_has_file(ls: Seq<EntryView>, extra: Seq<EntryView>, dir: Seq<Seq<char>>, l: Lang, k: int)
    requires
        inert(extra),
        0 <= k < spec_markers(l).len(),
    ensures
        has_file(ls + extra, dir, spec_markers(l)[k]) == has_file(ls, dir, spec_markers(l)[k]),
{
    let name = spec_markers(l)[k];
    let all = ls + extra;
    if has_file(ls, dir, name) {
        let j = choose|j: int| 0 <= j < ls.len() && !ls[j].is_dir && ls[j].dir == dir && #[trigger] ls[j].name == name;
        assert(all[j] == ls[j]);
    }
    if has_file(all, dir, name) {
        let j = choose|j: int| 0 <= j < all.len() && !all[j].is_dir && all[j].dir == dir && #[trigger] all[j].name == name;
        if j >= ls.len() {
            assert(all[j] == extra[j - ls.len()]);
            assert(spec_markers(l)[k] != extra[j - ls.len()].name);
        } else {
            assert(all[j] == ls[j]);
        }
    }
}

proof fn lemma_inert_proves(ls: Seq<EntryView>, extra: Seq<EntryView>, i: int, l: Lang, d: nat)
    requires
        inert(extra),
    ensures
        proves(ls + extra, i, l, d) <==> (i < ls.len() && proves(ls, i, l, d)),
{
    let all = ls + extra;
    assert forall|k2: int| 0 <= k2 < spec_markers(l).len() implies has_file(all, all[i].dir, #[trigger] spec_markers(l)[k2])
        == has_file(ls, all[i].dir, spec_markers(l)[k2]) by {
        lemma_inert_has_file(ls, extra, all[i].dir, l, k2);
    }
    if 0 <= i < ls.len() {
        assert(all[i] == ls[i]);
    }
    if proves(all, i, l, d) && i >= ls.len() {
        assert(all[i] == extra[i - ls.len()]);
        let k = choose|k: int| {
            &&& 0 <= k < spec_markers(l).len()
            &&& spec_markers(l)[k] == all[i].name
            &&& forall|k2: int| 0 <= k2 < k ==> !has_file(all, all[i].dir, #[trigger] spec_markers(l)[k2])
        };
        assert(spec_markers(l)[k] != extra[i - ls.len()].name);
    }
}

proof fn lemma_inert_proven_by(ls: Seq<EntryView>, extra: Seq<EntryView>, d: nat)
    requires
        inert(extra),
    ensures
        forall|l: Lang, p: Seq<char>| #[trigger] proven_by(ls + extra, l, p, d) == proven_by(ls, l, p, d),
{
    let all = ls + extra;
    assert forall|l: Lang, p: Seq<char>| #[trigger] proven_by(all, l, p, d) == proven_by(ls, l, p, d) by {
        if proven_by(all, l, p, d) {
            let i = choose|i: int| proves(all, i, l, d) && crate::lang::rel_path(all[i]) == p;
            lemma_inert_proves(ls, extra, i, l, d);
            assert(all[i] == ls[i]);
        }
        if proven_by(ls, l, p, d) {
            let i = choose|i: int| proves(ls, i, l, d) && crate::lang::rel_path(ls[i]) == p;
            lemma_inert_proves(ls, extra, i, l, d);
            assert(all[i] == ls[i]);
        }
    }
}


// ------------------------------------------------------ what init writes --

/// `e` is the file that the config write of one of `tools` creates.
spec fn made_by(tools: Seq<ToolPlanView>, ls: Seq<EntryView>, force: bool, e: EntryView) -> bool {
    exists|i: int| 0 <= i < tools.len() && writes_config(#[trigger] tools[i], ls, force) && e == root_file(
        tools[i].spec.template_path->0,
    )
}

proof fn lemma_created_files(tools: Seq<ToolPlanView>, ls: Seq<EntryView>, force: bool)
    ensures
        forall|j: int|
            0 <= j < created_files(tools, ls, force).len() ==> made_by(tools, ls, force, #[trigger] created_files(tools, ls, force)[j]),
        forall|i: int| 0 <= i < tools.len() && writes_config(#[trigger] tools[i], ls, force) ==> root_has(
            created_files(tools, ls, force),
            tools[i].spec.template_path->0,
        ),
    decreases tools.len(),
{
    if tools.len() > 0 {
        let init = tools.drop_last();
        lemma_created_files(init, ls, force);
        let c = created_files(tools, ls, force);
        let c0 = created_files(init, ls, force);
        assert forall|j: int| 0 <= j < c.len() implies made_by(tools, ls, force, #[trigger] c[j]) by {
            if j < c0.len() {
                assert(c[j] == c0[j]);
                assert(made_by(init, ls, force, c0[j]));
                let i = choose|i: int| 0 <= i < init.len() && writes_config(#[trigger] init[i], ls, force) && c0[j]
                    == root_file(init[i].spec.template_path->0);
                assert(tools[i] == init[i]);
            } else {
                assert(tools[tools.len() - 1] == tools.last());
                assert(writes_config(tools[tools.len() - 1], ls, force));
            }
        }
        assert forall|i: int| 0 <= i < tools.len() && writes_config(#[trigger] tools[i], ls, force) implies root_has(
            c,
            tools[i].spec.template_path->0,
        ) by {
            let name = tools[i].spec.template_path->0;
            if i < init.len() {
                assert(tools[i] == init[i]);
                assert(writes_config(init[i], ls, force));
                assert(root_has(c0, name));
                let j = choose|j: int| 0 <= j < c0.len() && c0[j].dir.len() == 0 && #[trigger] c0[j].name == name;
                assert(c[j] == c0[j]);
                assert(c[j].name == name);
            } else {
                assert(tools[i] == tools.last());
                assert(c[c0.len() as int] == root_file(name));
                assert(c[c0.len() as int].name == name);
            }
        }
    }
}

proof fn lemma_no_config_writes(root: Seq<char>, tools: Seq<ToolPlanView>, ls: Seq<EntryView>, force: bool)
    requires
        forall|i: int| 0 <= i < tools.len() ==> !writes_config(#[trigger] tools[i], ls, force),
    ensures
        config_writes(root, tools, ls, force).len() == 0,
    decreases tools.len(),
{
    if tools.len() > 0 {
        let init = tools.drop_last();
        assert forall|i: int| 0 <= i < init.len() implies !writes_config(#[trigger] init[i], ls, force) by {
            assert(init[i] == tools[i]);
        }
        lemma_no_config_writes(root, init, ls, force);
        assert(tools.last() == tools[tools.len() - 1]);
    }
}

/// Detection over two listings in which the same markers prove the same
/// languages names the same languages.
proof fn lemma_detection_same_langs(
    ls1: Seq<EntryView>,
    ls2: Seq<EntryView>,
    d: nat,
    r1: Seq<crate::lang::DetectedView>,
    r2: Seq<crate::lang::DetectedView>,
)
    requires
        detection(ls1, d, r1),
        detection(ls2, d, r2),
        forall|l: Lang, p: Seq<char>| #[trigger] proven_by(ls2, l, p, d) == proven_by(ls1, l, p, d),
    ensures
        forall|l: Lang| langs_of(r1).contains(l) <==> langs_of(r2).contains(l),
{
    assert forall|l: Lang| langs_of(r1).contains(l) implies langs_of(r2).contains(l) by {
        let i = choose|i: int| 0 <= i < langs_of(r1).len() && langs_of(r1)[i] == l;
        assert(proven_by(ls1, r1[i].lang, r1[i].marker, d));
        assert(proven_by(ls2, r1[i].lang, r1[i].marker, d));
        let j = choose|j: int| 0 <= j < r2.len() && #[trigger] r2[j].lang == l;
        assert(langs_of(r2)[j] == l);
    }
    assert forall|l: Lang| langs_of(r2).contains(l) implies langs_of(r1).contains(l) by {
        let i = choose|i: int| 0 <= i < langs_of(r2).len() && langs_of(r2)[i] == l;
        assert(proven_by(ls2, r2[i].lang, r2[i].marker, d));
        let j = choose|j: int| 0 <= j < r1.len() && #[trigger] r1[j].lang == l;
        assert(langs_of(r1)[j] == l);
    }
}

// ------------------------------------------------------- what a plan says --

/// The tools of a plan, as registry entries.
pub open spec fn specs_of(p: PlanView) -> Seq<ToolView> {
    p.tools.map_values(|t: ToolPlanView| t.spec)
}

/// The files `init` creates at the root when it runs plan `p` for survey `s`.
pub open spec fn created(s: SurveyView, p: PlanView, force: bool) -> Seq<EntryView> {
    if p.detected.len() == 0 {
        Seq::empty()
    } else {
        created_files(p.tools, s.listing, force)
    }
}

proof fn lemma_planned_parts(s: SurveyView, p: PlanView)
    requires
        planned(s, p),
    ensures
        p.root == s.root,
        forall|i: int| 0 <= i < p.tools.len() ==> #[trigger] p.tools[i] == tool_plan(s, p.tools[i].spec),
        p.hook_path == hooks::spec_hook_path(s.root, s.hooks_dir),
        p.hook == hooks::spec_plan(s.listing, p.hook_path, s.existing_hook),
        members_apply(spec_registry(), langs_of(p.detected), specs_of(p)),
        has_all(spec_registry(), langs_of(p.detected), specs_of(p)),
        sorted_tools(specs_of(p)),
{
    reveal(planned);
    lemma_selection_parts(spec_registry(), langs_of(p.detected), specs_of(p));
}

proof fn lemma_planned_detection(s: SurveyView, p: PlanView)
    requires
        planned(s, p),
    ensures
        detection(s.listing, 2, p.detected),
{
    reveal(planned);
}

/// Each tool of a plan is a registry tool.
proof fn lemma_plan_tool_in_registry(s: SurveyView, p: PlanView, i: int) -> (k: int)
    requires
        planned(s, p),
        0 <= i < p.tools.len(),
    ensures
        0 <= k < spec_registry().len(),
        p.tools[i].spec == spec_registry()[k],
{
    lemma_planned_parts(s, p);
    reveal(members_apply);
    assert(specs_of(p)[i] == p.tools[i].spec);
    assert(selectable(spec_registry(), langs_of(p.detected), specs_of(p)[i]));
    choose|k: int| 0 <= k < spec_registry().len() && specs_of(p)[i] == #[trigger] spec_registry()[k] && applies(
        spec_registry()[k],
        langs_of(p.detected),
    )
}

/// The files `init` creates are plain root files named after templates.
proof fn lemma_created_inert(s: SurveyView, p: PlanView, force: bool)
    requires
        planned(s, p),
    ensures
        inert(created(s, p, force)),
        after_init(s, p, force).listing == s.listing + created(s, p, force),
{
    let c = created(s, p, force);
    if p.detected.len() == 0 {
        assert(s.listing + c =~= s.listing);
    } else {
        lemma_created_files(p.tools, s.listing, force);
        template_names_are_inert();
        assert forall|j: int| 0 <= j < c.len() implies {
            &&& (#[trigger] c[j]).dir.len() == 0
            &&& !c[j].is_dir
            &&& c[j].name != ".git"@
            &&& forall|l: Lang, k: int| 0 <= k < spec_markers(l).len() ==> #[trigger] spec_markers(l)[k] != c[j].name
        } by {
            assert(made_by(p.tools, s.listing, force, c[j]));
            let i = choose|i: int| 0 <= i < p.tools.len() && writes_config(#[trigger] p.tools[i], s.listing, force)
                && c[j] == root_file(p.tools[i].spec.template_path->0);
            let k = lemma_plan_tool_in_registry(s, p, i);
            assert(spec_registry()[k].template_path is Some);
        }
    }
}

/// Running `init` does not change which languages revd sees.
proof fn lemma_same_langs(s: SurveyView, p: PlanView, force: bool, p2: PlanView)
    requires
        planned(s, p),
        planned(after_init(s, p, force), p2),
    ensures
        forall|l: Lang| langs_of(p.detected).contains(l) <==> langs_of(p2.detected).contains(l),
{
    let ls = s.listing;
    lemma_created_inert(s, p, force);
    lemma_inert_proven_by(ls, created(s, p, force), 2);
    lemma_planned_detection(s, p);
    lemma_planned_detection(after_init(s, p, force), p2);
    lemma_detection_same_langs(ls, after_init(s, p, force).listing, 2, p.detected, p2.detected);
}

/// Running `init` does not change which tools revd plans for.
proof fn lemma_same_tools(s: SurveyView, p: PlanView, force: bool, p2: PlanView)
    requires
        planned(s, p),
        planned(after_init(s, p, force), p2),
    ensures
        specs_of(p) == specs_of(p2),
{
    lemma_same_langs(s, p, force, p2);
    lemma_planned_parts(s, p);
    lemma_planned_parts(after_init(s, p, force), p2);
    lemma_selection_unique(spec_registry(), langs_of(p.detected), langs_of(p2.detected), specs_of(p), specs_of(p2));
}

// ------------------------------------------------------- the second run --

/// After `init`, no tool of the next plan has a config to write.
proof fn lemma_second_configs(s: SurveyView, p: PlanView, force: bool, p2: PlanView)
    requires
        planned(s, p),
        planned(after_init(s, p, force), p2),
        p.detected.len() > 0,
    ensures
        config_writes(p2.root, p2.tools, after_init(s, p, force).listing, false).len() == 0,
{
    let s2 = after_init(s, p, force);
    let ls = s.listing;
    let extra = created(s, p, force);
    let ls2 = s2.listing;
    lemma_created_inert(s, p, force);
    lemma_same_tools(s, p, force, p2);
    lemma_planned_parts(s, p);
    lemma_planned_parts(s2, p2);
    lemma_created_files(p.tools, ls, force);
    templates_are_config_files();
    assert forall|i: int| 0 <= i < p2.tools.len() implies !writes_config(#[trigger] p2.tools[i], ls2, false) by {
        assert(specs_of(p2)[i] == specs_of(p)[i]);
        let t = p2.tools[i].spec;
        assert(p.tools[i].spec == t);
        let cfgs = t.config_files;
        lemma_first_existing(ls2, cfgs);
        lemma_first_existing(ls, cfgs);
        if first_existing(ls2, cfgs) is None && t.template_path is Some {
            assert forall|j: int| 0 <= j < cfgs.len() implies !root_has(ls, #[trigger] cfgs[j]) by {
                lemma_root_has_grows(ls, extra, cfgs[j]);
                assert(!root_has(ls2, cfgs[j]));
            }
            let k = lemma_plan_tool_in_registry(s, p, i);
            let tp = t.template_path->0;
            assert(cfgs.contains(tp));
            let j = choose|j: int| 0 <= j < cfgs.len() && cfgs[j] == tp;
            assert(!root_has(ls, cfgs[j]));
            assert(writes_config(p.tools[i], ls, force));
            assert(root_has(extra, tp));
            lemma_root_has_grows(ls, extra, tp);
            assert(!root_has(ls2, cfgs[j]));
        }
    }
    lemma_no_config_writes(p2.root, p2.tools, ls2, false);
}

/// A manager found in a listing is still found once more files are added.
proof fn lemma_manager_grows(ls: Seq<EntryView>, extra: Seq<EntryView>, e: Option<Seq<char>>)
    ensures
        spec_detect_manager(ls, e) is Some ==> spec_detect_manager(ls + extra, e) is Some,
{
    let before = |m: Manager| has_config(ls, m);
    let after = |m: Manager| has_config(ls + extra, m);
    assert forall|m: Manager| #[trigger] has_config(ls, m) implies has_config(ls + extra, m) by {
        let k = choose|k: int| 0 <= k < m.spec_config_files().len() && root_has(ls, #[trigger] m.spec_config_files()[k]);
        lemma_root_has_grows(ls, extra, m.spec_config_files()[k]);
    }
    if first_manager(before) is Some {
        assert(before(Manager::PreCommit) ==> after(Manager::PreCommit));
        assert(before(Manager::Husky) ==> after(Manager::Husky));
        assert(before(Manager::Lefthook) ==> after(Manager::Lefthook));
        assert(before(Manager::Overcommit) ==> after(Manager::Overcommit));
        assert(first_manager(after) is Some);
    }
}

/// After `init`, the next plan has no hook to write.
proof fn lemma_second_hook(s: SurveyView, p: PlanView, force: bool, p2: PlanView)
    requires
        planned(s, p),
        planned(after_init(s, p, force), p2),
        p.detected.len() > 0,
    ensures
        hooks::spec_apply(p2, false, after_init(s, p, force).existing_hook) is None,
{
    let s2 = after_init(s, p, force);
    let ls = s.listing;
    let extra = created(s, p, force);
    let ls2 = s2.listing;
    let e = s.existing_hook;
    let e2 = s2.existing_hook;
    lemma_created_inert(s, p, force);
    lemma_same_tools(s, p, force, p2);
    lemma_planned_parts(s, p);
    lemma_planned_parts(s2, p2);
    let next = hooks::spec_render(specs_of(p));
    assert(hooks::spec_render(p2.tools.map_values(|t: ToolPlanView| t.spec)) == next);
    assert(hooks::spec_render(p.tools.map_values(|t: ToolPlanView| t.spec)) == next);
    lemma_inert_root_has(ls, extra, ".git"@);
    lemma_manager_grows(ls, extra, e);
    match hooks::spec_apply(p, force, e) {
        Some(w) => {
            assert(e2 == Some(next));
        },
        None => {
            assert(e2 == e);
            match p.hook {
                HookPlanView::NotGit => {},
                HookPlanView::Managed(..) => {},
                HookPlanView::Foreign(_) => {},
                _ => {
                    assert(e == Some(next));
                },
            }
        },
    }
}

// ------------------------------------------------------------------ laws --

/// `revd init` is safe to re-run: right after it ran (with or without
/// `--force`), running it again without `--force` writes nothing at all. The
/// configs it wrote are now found, and the hook already reads as it would be
/// written.
pub proof fn second_init_writes_nothing(s: SurveyView, force: bool, p: PlanView, p2: PlanView)
    requires
        planned(s, p),
        planned(after_init(s, p, force), p2),
    ensures
        spec_init(p2, after_init(s, p, force).listing, false, after_init(s, p, force).existing_hook).len() == 0,
{
    lemma_same_langs(s, p, force, p2);
    if p2.detected.len() > 0 {
        assert(langs_of(p2.detected)[0] == p2.detected[0].lang);
        assert(langs_of(p2.detected).contains(p2.detected[0].lang));
        assert(p.detected.len() > 0);
        lemma_second_configs(s, p, force, p2);
        lemma_second_hook(s, p, force, p2);
    }
}

/// Planning is deterministic: the same survey always gives the same plan, so
/// `revd plan` shows exactly what `revd init` then does.
pub proof fn planning_is_deterministic(s: SurveyView, p1: PlanView, p2: PlanView)
    requires
        planned(s, p1),
        planned(s, p2),
    ensures
        p1 == p2,
{
    lemma_planned_detection(s, p1);
    lemma_planned_detection(s, p2);
    crate::lang::detection_is_deterministic(s.listing, 2, p1.detected, p2.detected);
    lemma_planned_parts(s, p1);
    lemma_planned_parts(s, p2);
    lemma_selection_unique(spec_registry(), langs_of(p1.detected), langs_of(p2.detected), specs_of(p1), specs_of(p2));
    assert(p1.tools.len() == specs_of(p1).len());
    assert forall|i: int| 0 <= i < p1.tools.len() implies p1.tools[i] == p2.tools[i] by {
        assert(specs_of(p1)[i] == specs_of(p2)[i]);
    }
    assert(p1.tools =~= p2.tools);
}

/// Secrets apply to every project: every plan has the registry's secrets
/// scanner, whatever languages were found.
pub proof fn every_plan_scans_for_secrets(s: SurveyView, p: PlanView)
    requires
        planned(s, p),
    ensures
        exists|i: int| 0 <= i < p.tools.len() && (#[trigger] p.tools[i]).spec == spec_registry()[0],
        spec_registry()[0].role == crate::tools::Role::Secrets,
{
    lemma_planned_parts(s, p);
    reveal(has_all);
    let reg = spec_registry();
    assert(applies(reg[0], langs_of(p.detected)));
    let i = choose|i: int| 0 <= i < specs_of(p).len() && specs_of(p)[i] == #[trigger] reg[0];
    assert(p.tools[i].spec == specs_of(p)[i]);
}

/// `path` is a file at the root of `s`, under a name no root entry has yet.
pub open spec fn new_root_file(s: SurveyView, path: Seq<char>) -> bool {
    exists|name: Seq<char>| !root_has(s.listing, name) && path == #[trigger] spec_join(s.root, name)
}

/// Without `--force`, `init` never overwrites a config file: each config it
/// writes goes to the root, under a name no entry there has yet.
pub proof fn init_never_overwrites_a_config(s: SurveyView, p: PlanView)
    requires
        planned(s, p),
    ensures
        forall|k: int|
            0 <= k < config_writes(p.root, p.tools, s.listing, false).len() ==> new_root_file(
                s,
                (#[trigger] config_writes(p.root, p.tools, s.listing, false)[k]).0,
            ),
{
    lemma_planned_parts(s, p);
    lemma_config_writes(s, p, false, p.tools.len() as int);
    assert(p.tools.take(p.tools.len() as int) =~= p.tools);
}

proof fn lemma_config_writes(s: SurveyView, p: PlanView, force: bool, n: int)
    requires
        planned(s, p),
        0 <= n <= p.tools.len(),
        p.root == s.root,
        forall|i: int| 0 <= i < p.tools.len() ==> #[trigger] p.tools[i] == tool_plan(s, p.tools[i].spec),
    ensures
        forall|k: int|
            0 <= k < config_writes(p.root, p.tools.take(n), s.listing, force).len() ==> template_write(
                s,
                p,
                #[trigger] config_writes(p.root, p.tools.take(n), s.listing, force)[k],
            ) && (!force ==> new_root_file(s, config_writes(p.root, p.tools.take(n), s.listing, force)[k].0)),
    decreases n,
{
    if n > 0 {
        lemma_config_writes(s, p, force, n - 1);
        let ts = p.tools.take(n);
        assert(ts.drop_last() =~= p.tools.take(n - 1));
        let w0 = config_writes(p.root, p.tools.take(n - 1), s.listing, force);
        let w = config_writes(p.root, ts, s.listing, force);
        let t = p.tools[n - 1];
        assert(ts.last() == t);
        if writes_config(t, s.listing, force) {
            let cfgs = t.spec.config_files;
            let tp = t.spec.template_path->0;
            assert(w[w0.len() as int].0 == spec_join(s.root, tp));
            assert(template_write(s, p, w[w0.len() as int]));
            if !force {
                lemma_first_existing(s.listing, cfgs);
                let k = lemma_plan_tool_in_registry(s, p, n - 1);
                templates_are_config_files();
                assert(cfgs.contains(tp));
                let j = choose|j: int| 0 <= j < cfgs.len() && cfgs[j] == tp;
                assert(first_existing(s.listing, cfgs) is None);
                assert(!root_has(s.listing, cfgs[j]));
                assert(new_root_file(s, w[w0.len() as int].0));
            }
        }
        assert forall|k: int| 0 <= k < w.len() implies template_write(s, p, #[trigger] w[k]) && (!force
            ==> new_root_file(s, w[k].0)) by {
            if k < w0.len() {
                assert(w[k] == w0[k]);
                assert(template_write(s, p, w0[k]) && (!force ==> new_root_file(s, w0[k].0)));
            }
        }
    } else {
        assert(p.tools.take(0).len() == 0);
    }
}

/// `w` writes the template of one of the plan's tools, to its place at the root.
pub open spec fn template_write(s: SurveyView, p: PlanView, w: (Seq<char>, Seq<char>)) -> bool {
    exists|i: int|
        0 <= i < p.tools.len() && (#[trigger] p.tools[i]).spec.template_path is Some && w == (
            spec_join(s.root, p.tools[i].spec.template_path->0),
            p.tools[i].spec.template_contents->0,
        )
}

/// `init` writes nothing but configs and the pre-commit hook, and installs
/// nothing: each write is the template of a planned tool, at its place at
/// the root, or the hook script rendered for the plan's tools, at the hook's path.
pub proof fn init_writes_only_configs_and_the_hook(s: SurveyView, force: bool, p: PlanView)
    requires
        planned(s, p),
    ensures
        forall|k: int|
            0 <= k < spec_init(p, s.listing, force, s.existing_hook).len() ==> template_write(
                s,
                p,
                #[trigger] spec_init(p, s.listing, force, s.existing_hook)[k],
            ) || spec_init(p, s.listing, force, s.existing_hook)[k] == (p.hook_path, hooks::spec_render(specs_of(p))),
{
    lemma_planned_parts(s, p);
    lemma_config_writes(s, p, force, p.tools.len() as int);
    assert(p.tools.take(p.tools.len() as int) =~= p.tools);
    let w = spec_init(p, s.listing, force, s.existing_hook);
    if p.detected.len() > 0 {
        let cw = config_writes(p.root, p.tools, s.listing, force);
        assert forall|k: int| 0 <= k < w.len() implies template_write(s, p, #[trigger] w[k]) || w[k] == (
            p.hook_path,
            hooks::spec_render(specs_of(p)),
        ) by {
            if k < cw.len() {
                assert(w[k] == cw[k]);
                assert(template_write(s, p, cw[k]));
            }
        }
    }
}

/// `init` leaves a pre-commit hook it did not write (one without revd's
/// marker) untouched unless forced, and never writes a hook outside git or
/// under a hook manager. A hook revd wrote is refreshed, even once a hook
/// manager has been added since.
pub proof fn init_respects_existing_hooks(s: SurveyView, p: PlanView, force: bool)
    requires
        planned(s, p),
    ensures
        root_has(s.listing, ".git"@) && s.existing_hook is Some && seq_contains(s.existing_hook->0, MARKER@)
            ==> p.hook is Refresh,
        s.existing_hook is Some && !seq_contains(s.existing_hook->0, MARKER@) && !force ==> hooks::spec_apply(
            p,
            force,
            s.existing_hook,
        ) is None,
        p.hook is NotGit ==> hooks::spec_apply(p, force, s.existing_hook) is None,
        p.hook is Managed ==> hooks::spec_apply(p, force, s.existing_hook) is None,
{
    lemma_planned_parts(s, p);
}

/// In a git repository with a hook manager's config at its root
/// (`.pre-commit-config.yaml`, `.pre-commit-config.yml`, `.husky`,
/// `lefthook.yml`, `lefthook.yaml`, `.lefthook.yml` or `.overcommit.yml`),
/// the plan defers the hook to the manager and `init` writes no hook, forced
/// or not, unless the hook there is one revd wrote itself.
pub proof fn init_defers_to_a_hook_manager(s: SurveyView, p: PlanView, force: bool, name: Seq<char>)
    requires
        planned(s, p),
        root_has(s.listing, ".git"@),
        root_has(s.listing, name),
        name == ".pre-commit-config.yaml"@ || name == ".pre-commit-config.yml"@ || name == ".husky"@ || name
            == "lefthook.yml"@ || name == "lefthook.yaml"@ || name == ".lefthook.yml"@ || name == ".overcommit.yml"@,
        !(s.existing_hook is Some && seq_contains(s.existing_hook->0, "Installed by revd"@)),
    ensures
        p.hook matches HookPlanView::Managed(_, path) && path == p.hook_path,
        hooks::spec_apply(p, force, s.existing_hook) is None,
{
    lemma_planned_parts(s, p);
    hooks::a_manager_config_defers_the_hook(s.listing, p.hook_path, s.existing_hook, name);
}

} // verus!
