//! Category tree. Only these paths may appear on a Finding.
use crate::analyze::Severity;
use crate::text::str_eq;
use vstd::prelude::*;

verus! {

/// One category a finding may carry.
#[derive(Debug, Clone, Copy)]
pub struct Node {
    pub path: &'static str,
    pub default_severity: Severity,
}

/// The path of every category, in document order.
pub const PATHS: [&'static str; 31] = [
    "common.secrets.credential",
    "common.secrets.env_file",
    "common.deps.vulnerable",
    "common.debug.leftover",
    "common.todo.unreferenced",
    "common.process.large_commit",
    "common.process.large_file",
    "common.tests.untested_public_change",
    "common.tests.assertionless",
    "common.tests.sleep",
    "go.errors.unchecked",
    "go.errors.shadowed",
    "go.errors.panic_in_lib",
    "go.context.background",
    "go.context.not_propagated",
    "go.concurrency.lifecycle",
    "go.concurrency.shared_state",
    "go.concurrency.unbounded",
    "go.resources.unclosed",
    "go.nil.map_write",
    "go.nil.type_assert",
    "go.http.no_timeout",
    "ts.types.any",
    "ts.types.non_null",
    "ts.types.suppression",
    "ts.types.exhaustiveness",
    "ts.async.floating_promise",
    "ts.async.foreach_async",
    "ts.async.empty_catch",
    "ts.async.no_timeout",
    "ts.runtime.unvalidated_input",
];

/// The default severity of each category in [`PATHS`], position by position.
pub const SEVERITIES: [Severity; 31] = [
    Severity::Block,
    Severity::Block,
    Severity::Block,
    Severity::Medium,
    Severity::Low,
    Severity::Low,
    Severity::Low,
    Severity::Medium,
    Severity::Medium,
    Severity::Low,
    Severity::High,
    Severity::Medium,
    Severity::High,
    Severity::Medium,
    Severity::Medium,
    Severity::High,
    Severity::High,
    Severity::Medium,
    Severity::High,
    Severity::High,
    Severity::Medium,
    Severity::Medium,
    Severity::Low,
    Severity::Low,
    Severity::Medium,
    Severity::Medium,
    Severity::High,
    Severity::High,
    Severity::High,
    Severity::Medium,
    Severity::Medium,
];

/// The category with path `path` is at position `i`, and at no earlier one.
pub open spec fn first_node(path: Seq<char>, i: int) -> bool {
    0 <= i < PATHS.len() && PATHS[i]@ == path && forall|j: int| 0 <= j < i ==> #[trigger] PATHS[j]@ != path
}

/// The taxonomy has a category with path `path`.
pub open spec fn has_node(path: Seq<char>) -> bool {
    exists|i: int| 0 <= i < PATHS.len() && #[trigger] PATHS[i]@ == path
}

/// The default severity of the category `path`; `Low` for a path the taxonomy lacks.
pub open spec fn spec_severity(path: Seq<char>) -> Severity {
    if has_node(path) {
        SEVERITIES[choose|i: int| first_node(path, i)]
    } else {
        Severity::Low
    }
}

/// Every category as a [`Node`], in document order.
pub fn nodes() -> (r: Vec<Node>)
    ensures
        r@.len() == PATHS.len(),
        forall|i: int| #![trigger r@[i]] 0 <= i < r@.len() ==> r@[i].path == PATHS[i] && r@[i].default_severity == SEVERITIES[i],
{
    let mut r: Vec<Node> = Vec::new();
    let mut i: usize = 0;
    while i < PATHS.len()
        invariant
            i <= PATHS.len(),
            r@.len() == i,
            forall|j: int| #![trigger r@[j]] 0 <= j < i ==> r@[j].path == PATHS[j] && r@[j].default_severity == SEVERITIES[j],
        decreases PATHS.len() - i,
    {
        let n = Node { path: PATHS[i], default_severity: SEVERITIES[i] };
        assert(n.path == PATHS[i as int] && n.default_severity == SEVERITIES[i as int]);
        r.push(n);
        assert(r@[i as int] == n);
        i = i + 1;
    }
    r
}

/// The category node for `path`, if the taxonomy has one.
pub fn lookup(path: &str) -> (r: Option<Node>)
    ensures
        r matches Some(n) ==> n.path@ == path@ && n.default_severity == spec_severity(path@),
        r is None <==> !has_node(path@),
{
    let mut i: usize = 0;
    while i < PATHS.len()
        invariant
            i <= PATHS.len(),
            forall|j: int| 0 <= j < i ==> #[trigger] PATHS[j]@ != path@,
        decreases PATHS.len() - i,
    {
        if str_eq(PATHS[i], path) {
            proof {
                let k = choose|k: int| first_node(path@, k);
                assert(first_node(path@, i as int));
                if k < i {
                } else if k > i {
                    assert(PATHS[i as int]@ == path@);
                }
            }
            return Some(Node { path: PATHS[i], default_severity: SEVERITIES[i] });
        }
        i = i + 1;
    }
    None
}

} // verus!
