//! Hook entry points. These run in the authoring loop, so they do the minimum
//! possible and always exit 0.
use crate::daemon::Event;
use crate::text::str_eq;
use vstd::prelude::*;

verus! {

/// A hook event revd acts on.
#[derive(Debug, Clone, Copy, PartialEq, Eq, Structural)]
pub enum HookEvent {
    /// `git commit` finished: tell the worker about the new commit.
    PostCommit,
    /// Anything else: ignored.
    Unknown,
}

/// Which hook event the name given on the command line is.
pub fn dispatch(event: &str) -> (r: HookEvent)
    ensures
        r == if event@ == "post-commit"@ { HookEvent::PostCommit } else { HookEvent::Unknown },
{
    if str_eq(event, "post-commit") {
        HookEvent::PostCommit
    } else {
        HookEvent::Unknown
    }
}


/// What the post-commit hook tells the worker: the new commit, when the
/// current directory is in a repository (`repo`) that has a `head` commit;
/// nothing otherwise.
pub fn post_commit(repo: Option<String>, head: Option<String>) -> (r: Option<Event>)
    ensures
        match r {
            Some(Event::Commit { repo: rr, sha }) => repo == Some(rr) && head == Some(sha),
            Some(Event::Ping) => false,
            None => repo is None || head is None,
        },
{
    match (repo, head) {
        (Some(repo), Some(sha)) => Some(Event::Commit { repo, sha }),
        _ => None,
    }
}

} // verus!
