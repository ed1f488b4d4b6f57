//! The background worker's vocabulary: the events hooks send it.
//! Serving the socket and touching the database happen elsewhere.
use crate::text::{seq_trim, trim};
use vstd::prelude::*;

verus! {

/// A message from a hook. One JSON object per line.
#[derive(Debug, Clone)]
pub enum Event {
    Commit { repo: String, sha: String },
    Ping,
}

/// What the worker does with an event.
#[derive(Debug, Clone, PartialEq, Eq)]
pub enum Action {
    /// Nothing to do.
    Nothing,
    /// Analyse commit `sha` of the repository at `repo`.
    Analyse { repo: String, sha: String },
}

/// What the worker does with an event: a ping needs nothing, a commit is analysed.
pub fn handle(ev: Event) -> (r: Action)
    ensures
        match ev {
            Event::Ping => r == Action::Nothing,
            Event::Commit { repo, sha } => r == Action::Analyse { repo, sha },
        },
{
    match ev {
        Event::Ping => Action::Nothing,
        Event::Commit { repo, sha } => Action::Analyse { repo, sha },
    }
}


/// The worker reads one event per line and passes over blank ones.
pub fn is_event_line(line: &str) -> (r: bool)
    ensures
        r == (seq_trim(line@).len() > 0),
{
    let t = trim(line);
    t.unicode_len() > 0
}

} // verus!
