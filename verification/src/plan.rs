//! The repeatable process: detect → plan → (show | apply).
//!
//! `revd plan` and `revd init` run the *same* planner; the only difference is
//! whether the actions are executed. That keeps the dry run honest.
//!
//! The planner reads nothing itself: a [`Survey`] holds what was read from the
//! project, and [`apply`] returns the writes to make rather than making them.
use crate::git::{join_path, spec_join};
use crate::hooks::{self, HookPlan, HookPlanView};
use crate::lang::{self, detection, Detected, DetectedView, Lang, Listing, EntryView};
use crate::text::{owned, str_eq};
use crate::tools::{self, first_existing, registry, root_entry, root_has, selection, ToolSpec, ToolView};
use vstd::prelude::*;

verus! {

/// Why an action is or is not going to happen.
#[derive(Debug, Clone)]
pub enum Status {
    /// revd will create this file.
    Create,
    /// Already present; revd leaves it alone.
    Exists(String),
    /// Nothing to generate for this tool.
    NoTemplate,
}

/// What a [`Status`] is, as values.
pub enum StatusView {
    Create,
    Exists(Seq<char>),
    NoTemplate,
}

impl View for Status {
    type V = StatusView;

    open spec fn view(&self) -> StatusView {
        match self {
            Status::Create => StatusView::Create,
            Status::Exists(f) => StatusView::Exists(f@),
            Status::NoTemplate => StatusView::NoTemplate,
        }
    }
}

#[derive(Debug, Clone)]
pub struct ToolPlan {
    pub spec: ToolSpec,
    pub installed: Option<String>,
    pub config: Status,
    pub target: Option<String>,
}

/// The views of an optional string.
pub open spec fn opt_view(o: Option<String>) -> Option<Seq<char>> {
    match o {
        Some(s) => Some(s@),
        None => None,
    }
}

/// What a [`ToolPlan`] is, as values.
pub struct ToolPlanView {
    pub spec: ToolView,
    pub installed: Option<Seq<char>>,
    pub config: StatusView,
    pub target: Option<Seq<char>>,
}

impl View for ToolPlan {
    type V = ToolPlanView;

    open spec fn view(&self) -> ToolPlanView {
        ToolPlanView { spec: self.spec@, installed: opt_view(self.installed), config: self.config@, target: opt_view(self.target) }
    }
}

impl ToolPlan {
    pub fn will_write(&self) -> (r: bool)
        ensures
            r == (self@.config is Create),
    {
        match self.config {
            Status::Create => true,
            _ => false,
        }
    }
}

#[derive(Debug)]
pub struct Plan {
    pub root: String,
    pub detected: Vec<Detected>,
    pub tools: Vec<ToolPlan>,
    pub hook: HookPlan,
    /// Where the pre-commit hook lives.
    pub hook_path: String,
}

/// What a [`Plan`] is, as values.
pub struct PlanView {
    pub root: Seq<char>,
    pub detected: Seq<DetectedView>,
    pub tools: Seq<ToolPlanView>,
    pub hook: HookPlanView,
    pub hook_path: Seq<char>,
}

impl View for Plan {
    type V = PlanView;

    open spec fn view(&self) -> PlanView {
        PlanView {
            root: self.root@,
            detected: self.detected@.map_values(|d: Detected| d@),
            tools: self.tools@.map_values(|t: ToolPlan| t@),
            hook: self.hook@,
            hook_path: self.hook_path@,
        }
    }
}

/// The tools not found on the machine, in order.
pub open spec fn missing_of(ts: Seq<ToolPlanView>) -> Seq<ToolPlanView>
    decreases ts.len(),
{
    if ts.len() == 0 {
        Seq::empty()
    } else {
        missing_of(ts.drop_last()) + if ts.last().installed is None { seq![ts.last()] } else { Seq::empty() }
    }
}

/// The tools whose config revd will create, in order.
pub open spec fn writing_of(ts: Seq<ToolPlanView>) -> Seq<ToolPlanView>
    decreases ts.len(),
{
    if ts.len() == 0 {
        Seq::empty()
    } else {
        writing_of(ts.drop_last()) + if ts.last().config is Create { seq![ts.last()] } else { Seq::empty() }
    }
}

/// The languages of a detection result, in order.
pub open spec fn langs_of(d: Seq<DetectedView>) -> Seq<Lang> {
    d.map_values(|x: DetectedView| x.lang)
}

impl Plan {
    pub fn languages(&self) -> (r: Vec<Lang>)
        ensures
            r@ == langs_of(self@.detected),
    {
        let mut r: Vec<Lang> = Vec::new();
        let mut i: usize = 0;
        while i < self.detected.len()
            invariant
                i <= self.detected@.len(),
                r@ == langs_of(self@.detected).take(i as int),
            decreases self.detected.len() - i,
        {
            r.push(self.detected[i].lang);
            i = i + 1;
            assert(r@ =~= langs_of(self@.detected).take(i as int));
        }
        assert(langs_of(self@.detected).take(i as int) =~= langs_of(self@.detected));
        r
    }

    /// Tools not found on the machine, in plan order.
    pub fn missing_tools(&self) -> (r: Vec<&ToolPlan>)
        ensures
            r@.map_values(|t: &ToolPlan| t@) == missing_of(self@.tools),
    {
        let ghost ts = self@.tools;
        let mut r: Vec<&ToolPlan> = Vec::new();
        let mut i: usize = 0;
        while i < self.tools.len()
            invariant
                ts == self@.tools,
                i <= ts.len(),
                r@.map_values(|t: &ToolPlan| t@) == missing_of(ts.take(i as int)),
            decreases self.tools.len() - i,
        {
            let t = &self.tools[i];
            assert(ts[i as int] == t@);
            assert(ts.take(i + 1).drop_last() =~= ts.take(i as int));
            let ghost before = r@.map_values(|t: &ToolPlan| t@);
            if t.installed.is_none() {
                r.push(t);
                assert(r@.map_values(|t: &ToolPlan| t@) =~= before.push(t@));
            } else {
                assert(before =~= before + Seq::<ToolPlanView>::empty());
            }
            i = i + 1;
        }
        assert(ts.take(ts.len() as int) =~= ts);
        r
    }

    /// Tools whose config revd will write, in plan order.
    pub fn files_to_write(&self) -> (r: Vec<&ToolPlan>)
        ensures
            r@.map_values(|t: &ToolPlan| t@) == writing_of(self@.tools),
    {
        let ghost ts = self@.tools;
        let mut r: Vec<&ToolPlan> = Vec::new();
        let mut i: usize = 0;
        while i < self.tools.len()
            invariant
                ts == self@.tools,
                i <= ts.len(),
                r@.map_values(|t: &ToolPlan| t@) == writing_of(ts.take(i as int)),
            decreases self.tools.len() - i,
        {
            let t = &self.tools[i];
            assert(ts[i as int] == t@);
            assert(ts.take(i + 1).drop_last() =~= ts.take(i as int));
            let ghost before = r@.map_values(|t: &ToolPlan| t@);
            if t.will_write() {
                r.push(t);
                assert(r@.map_values(|t: &ToolPlan| t@) =~= before.push(t@));
            } else {
                assert(before =~= before + Seq::<ToolPlanView>::empty());
            }
            i = i + 1;
        }
        assert(ts.take(ts.len() as int) =~= ts);
        r
    }
}

/// A tool's presence as probed: its version line, or `None` when it was not found.
#[derive(Debug, Clone)]
pub struct Probe {
    pub id: String,
    pub version: Option<String>,
}

/// What a [`Probe`] is, as values.
pub struct ProbeView {
    pub id: Seq<char>,
    pub version: Option<Seq<char>>,
}

impl View for Probe {
    type V = ProbeView;

    open spec fn view(&self) -> ProbeView {
        ProbeView { id: self.id@, version: opt_view(self.version) }
    }
}

/// Everything planning needs to know about a project, gathered beforehand.
#[derive(Debug, Clone)]
pub struct Survey {
    pub root: String,
    /// The entries below the root.
    pub listing: Listing,
    /// Which tools are installed; a tool without a probe counts as missing.
    pub probes: Vec<Probe>,
    /// The hooks directory git reports, when git could be asked.
    pub hooks_dir: Option<String>,
    /// The current pre-commit hook, when there is one.
    pub existing_hook: Option<String>,
}

/// What a [`Survey`] is, as values.
pub struct SurveyView {
    pub root: Seq<char>,
    pub listing: Seq<EntryView>,
    pub probes: Seq<ProbeView>,
    pub hooks_dir: Option<Seq<char>>,
    pub existing_hook: Option<Seq<char>>,
}

impl View for Survey {
    type V = SurveyView;

    open spec fn view(&self) -> SurveyView {
        SurveyView {
            root: self.root@,
            listing: self.listing@,
            probes: self.probes@.map_values(|p: Probe| p@),
            hooks_dir: opt_view(self.hooks_dir),
            existing_hook: opt_view(self.existing_hook),
        }
    }
}

/// The version of the first probe for tool `id`; `None` without one.
pub open spec fn probe_version(probes: Seq<ProbeView>, id: Seq<char>) -> Option<Seq<char>>
    decreases probes.len(),
{
    if probes.len() == 0 {
        None
    } else if probes[0].id == id {
        probes[0].version
    } else {
        probe_version(probes.drop_first(), id)
    }
}

/// A tool's config status and the file revd would write for it.
pub open spec fn tool_config(ls: Seq<EntryView>, root: Seq<char>, t: ToolView) -> (StatusView, Option<Seq<char>>) {
    match first_existing(ls, t.config_files) {
        Some(found) => (StatusView::Exists(found), None),
        None => match t.template_path {
            Some(p) => (StatusView::Create, Some(spec_join(root, p))),
            None => (StatusView::NoTemplate, None),
        },
    }
}

/// The plan entry for tool `t`.
pub open spec fn tool_plan(s: SurveyView, t: ToolView) -> ToolPlanView {
    ToolPlanView {
        spec: t,
        installed: probe_version(s.probes, t.id),
        config: tool_config(s.listing, s.root, t).0,
        target: tool_config(s.listing, s.root, t).1,
    }
}

/// `p` is the plan for survey `s`. Opaque: `reveal(planned)` to use its parts.
#[verifier::opaque]
pub open spec fn planned(s: SurveyView, p: PlanView) -> bool {
    &&& p.root == s.root
    &&& detection(s.listing, 2, p.detected)
    &&& selection(registry::spec_registry(), langs_of(p.detected), p.tools.map_values(|t: ToolPlanView| t.spec))
    &&& forall|i: int| 0 <= i < p.tools.len() ==> #[trigger] p.tools[i] == tool_plan(s, p.tools[i].spec)
    &&& p.hook_path == hooks::spec_hook_path(s.root, s.hooks_dir)
    &&& p.hook == hooks::spec_plan(s.listing, p.hook_path, s.existing_hook)
}

fn find_probe(probes: &Vec<Probe>, id: &str) -> (r: Option<String>)
    ensures
        opt_view(r) == probe_version(probes@.map_values(|p: Probe| p@), id@),
{
    let ghost ps = probes@.map_values(|p: Probe| p@);
    let mut i: usize = 0;
    assert(ps.skip(0) =~= ps);
    while i < probes.len()
        invariant
            ps == probes@.map_values(|p: Probe| p@),
            i <= ps.len(),
            probe_version(ps, id@) == probe_version(ps.skip(i as int), id@),
        decreases probes.len() - i,
    {
        let p = &probes[i];
        assert(ps.skip(i as int)[0] == p@);
        assert(ps.skip(i as int).drop_first() =~= ps.skip(i + 1));
        if str_eq(p.id.as_str(), id) {
            return match &p.version {
                Some(v) => Some(owned(v.as_str())),
                None => None,
            };
        }
        i = i + 1;
    }
    None
}

/// Build a plan for a project. Pure inspection — writes nothing.
pub fn build(s: &Survey) -> (r: Plan)
    ensures
        planned(s@, r@),
{
    let detected = lang::detect(&s.listing, 2);
    let mut langs: Vec<Lang> = Vec::new();
    let mut i: usize = 0;
    while i < detected.len()
        invariant
            i <= detected@.len(),
            langs@ == langs_of(detected@.map_values(|d: Detected| d@)).take(i as int),
        decreases detected.len() - i,
    {
        langs.push(detected[i].lang);
        i = i + 1;
        assert(langs@ =~= langs_of(detected@.map_values(|d: Detected| d@)).take(i as int));
    }
    assert(langs@ =~= langs_of(detected@.map_values(|d: Detected| d@)));
    let specs = tools::for_languages(langs.as_slice());
    let mut plans: Vec<ToolPlan> = Vec::new();
    let mut k: usize = 0;
    while k < specs.len()
        invariant
            k <= specs@.len(),
            plans@.len() == k,
            forall|j: int| 0 <= j < k ==> #[trigger] plans@[j]@ == tool_plan(s@, specs@[j]@),
        decreases specs.len() - k,
    {
        let spec = specs[k];
        let installed = find_probe(&s.probes, spec.id);
        let (config, target) = match spec.existing_config(&s.listing) {
            Some(found) => (Status::Exists(found), None),
            None => match spec.template {
                Some(tpl) => (Status::Create, Some(join_path(s.root.as_str(), tpl.path))),
                None => (Status::NoTemplate, None),
            },
        };
        let tp = ToolPlan { spec, installed, config, target };
        assert(tp@ == tool_plan(s@, spec@));
        plans.push(tp);
        k = k + 1;
    }
    proof {
        let pv = plans@.map_values(|t: ToolPlan| t@);
        assert(pv.map_values(|t: ToolPlanView| t.spec) =~= specs@.map_values(|t: ToolSpec| t@));
    }
    let hp = hooks::hook_path(s.root.as_str(), match &s.hooks_dir {
        Some(d) => Some(d.as_str()),
        None => None,
    });
    let hook = hooks::plan(&s.listing, hp.as_str(), match &s.existing_hook {
        Some(h) => Some(h.as_str()),
        None => None,
    });
    let r = Plan { root: owned(s.root.as_str()), detected, tools: plans, hook, hook_path: hp };
    proof {
        reveal(planned);
    }
    r
}

/// A file to write.
#[derive(Debug, Clone)]
pub struct Write {
    pub path: String,
    pub contents: String,
}

/// Tool `t` gets its config written: it has a template and, unless `force`,
/// a target whose file is not already at the root. With `force` the template
/// is written even over a config that is there.
pub open spec fn writes_config(t: ToolPlanView, ls: Seq<EntryView>, force: bool) -> bool {
    t.spec.template_path is Some && (force || (t.target is Some && !root_has(ls, t.spec.template_path->0)))
}

/// Where tool `t`'s template is written: its target, or, when its config
/// already exists, the template's place at `root`.
pub open spec fn config_path(root: Seq<char>, t: ToolPlanView) -> Seq<char> {
    match t.target {
        Some(x) => x,
        None => spec_join(root, t.spec.template_path->0),
    }
}

/// The config writes for `tools` of a project at `root`, in order: where and
/// what each tool that gets its config written gets.
pub open spec fn config_writes(root: Seq<char>, tools: Seq<ToolPlanView>, ls: Seq<EntryView>, force: bool) -> Seq<
    (Seq<char>, Seq<char>),
>
    decreases tools.len(),
{
    if tools.len() == 0 {
        Seq::empty()
    } else {
        let t = tools.last();
        config_writes(root, tools.drop_last(), ls, force) + if writes_config(t, ls, force) {
            seq![(config_path(root, t), t.spec.template_contents->0)]
        } else {
            Seq::empty()
        }
    }
}

/// Every write `apply` asks for: the configs, then the hook.
pub open spec fn spec_apply(p: PlanView, ls: Seq<EntryView>, force: bool, current_hook: Option<Seq<char>>) -> Seq<(Seq<char>, Seq<char>)> {
    config_writes(p.root, p.tools, ls, force) + match hooks::spec_apply(p, force, current_hook) {
        Some(w) => seq![w],
        None => Seq::empty(),
    }
}

/// The views of a sequence of writes.
pub open spec fn writes_view(w: Seq<Write>) -> Seq<(Seq<char>, Seq<char>)> {
    w.map_values(|x: Write| (x.path@, x.contents@))
}

/// The writes that execute a plan. Never overwrites an existing file unless `force`;
/// with `force`, every tool's template is written, over any config already there.
pub fn apply(plan: &Plan, ls: &Listing, force: bool, current_hook: Option<&str>) -> (r: Vec<Write>)
    ensures
        writes_view(r@) == spec_apply(plan@, ls@, force, opt_str(current_hook)),
{
    let ghost ts = plan@.tools;
    let mut written: Vec<Write> = Vec::new();
    let mut i: usize = 0;
    while i < plan.tools.len()
        invariant
            ts == plan@.tools,
            i <= ts.len(),
            writes_view(written@) == config_writes(plan@.root, ts.take(i as int), ls@, force),
        decreases plan.tools.len() - i,
    {
        let t = &plan.tools[i];
        assert(ts[i as int] == t@);
        assert(ts.take(i + 1).drop_last() =~= ts.take(i as int));
        let ghost before = writes_view(written@);
        match t.spec.template {
            Some(tpl) => {
                let fresh = match &t.target {
                    Some(_) => !root_entry(ls, tpl.path),
                    None => false,
                };
                if force || fresh {
                    let path = match &t.target {
                        Some(target) => owned(target.as_str()),
                        None => join_path(plan.root.as_str(), tpl.path),
                    };
                    written.push(Write { path, contents: owned(tpl.contents) });
                    assert(writes_view(written@) =~= before.push((path@, tpl.contents@)));
                }
            },
            None => {},
        }
        i = i + 1;
    }
    assert(ts.take(ts.len() as int) =~= ts);
    match hooks::apply(plan, force, current_hook) {
        Some(w) => {
            let ghost before = writes_view(written@);
            written.push(w);
            assert(writes_view(written@) =~= before.push((w.path@, w.contents@)));
        },
        None => {
            assert(writes_view(written@) =~= writes_view(written@) + Seq::empty());
        },
    }
    written
}

/// The view of an optional string slice.
pub open spec fn opt_str(o: Option<&str>) -> Option<Seq<char>> {
    match o {
        Some(s) => Some(s@),
        None => None,
    }
}

/// What `init` writes: nothing at all outside a recognised project (no
/// language detected), else every write [`apply`] asks for.
pub open spec fn spec_init(p: PlanView, ls: Seq<EntryView>, force: bool, current_hook: Option<Seq<char>>) -> Seq<(Seq<char>, Seq<char>)> {
    if p.detected.len() == 0 {
        Seq::empty()
    } else {
        spec_apply(p, ls, force, current_hook)
    }
}

/// What `init` writes: nothing at all outside a recognised project, else
/// what [`apply`] asks for.
pub fn init(plan: &Plan, ls: &Listing, force: bool, current_hook: Option<&str>) -> (r: Vec<Write>)
    ensures
        writes_view(r@) == spec_init(plan@, ls@, force, opt_str(current_hook)),
{
    if plan.detected.len() == 0 {
        let r: Vec<Write> = Vec::new();
        assert(writes_view(r@) =~= Seq::empty());
        return r;
    }
    apply(plan, ls, force, current_hook)
}


/// The project root: the one given, else the top of the git work tree the
/// current directory is in, else the current directory.
pub fn resolve_root(explicit: Option<String>, toplevel: Option<String>, cwd: String) -> (r: String)
    ensures
        r == match explicit {
            Some(e) => e,
            None => match toplevel {
                Some(t) => t,
                None => cwd,
            },
        },
{
    match explicit {
        Some(e) => e,
        None => match toplevel {
            Some(t) => t,
            None => cwd,
        },
    }
}

} // verus!
