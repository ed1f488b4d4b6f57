//! `revd install` — wire the current repo's git hooks to this binary.
//!
//! Finding the repository and the executable, and writing the file, happen
//! elsewhere; here is what gets written where, and when installing refuses.
use crate::git::{join_path, spec_join};
use crate::plan::Write;
use crate::text::{concat, contains, owned, seq_contains, seq_ends_with};
use vstd::prelude::*;

verus! {

/// What a hook revd installed always holds, so a re-install recognises it.
pub const SIGNATURE: &'static str = "revd hook";

/// The post-commit hook file of the repository at `repo`.
pub open spec fn spec_post_commit_path(repo: Seq<char>) -> Seq<char> {
    spec_join(spec_join(repo, ".git/hooks"@), "post-commit"@)
}

/// The command the hook runs: the revd executable `exe`, silenced and never
/// failing, so a broken revd never fails a commit.
pub open spec fn spec_hook_line(exe: Seq<char>) -> Seq<char> {
    exe + " hook post-commit >/dev/null 2>&1 || true"@
}

/// The whole hook script.
pub open spec fn spec_script(exe: Seq<char>) -> Seq<char> {
    "#!/bin/sh\n# installed by revd\n"@ + spec_hook_line(exe) + "\n"@
}

/// Why `revd install` refused.
#[derive(Debug, Clone)]
pub enum InstallError {
    /// The current directory is not inside a git repository.
    NotARepo,
    /// A post-commit hook that revd did not write is already at `path`; the
    /// user can add `line` to it themselves.
    ForeignHook { path: String, line: String },
}

/// What an [`InstallError`] is, as values.
pub enum InstallErrorView {
    NotARepo,
    ForeignHook { path: Seq<char>, line: Seq<char> },
}

impl View for InstallError {
    type V = InstallErrorView;

    open spec fn view(&self) -> InstallErrorView {
        match self {
            InstallError::NotARepo => InstallErrorView::NotARepo,
            InstallError::ForeignHook { path, line } => InstallErrorView::ForeignHook { path: path@, line: line@ },
        }
    }
}

/// What `revd install` does: the write it makes, or why it refuses.
pub open spec fn spec_run(repo: Option<Seq<char>>, exe: Seq<char>, existing: Option<Seq<char>>) -> Result<
    (Seq<char>, Seq<char>),
    InstallErrorView,
> {
    match repo {
        None => Err(InstallErrorView::NotARepo),
        Some(r) => match existing {
            Some(e) if !seq_contains(e, SIGNATURE@) => Err(
                InstallErrorView::ForeignHook { path: spec_post_commit_path(r), line: spec_hook_line(exe) },
            ),
            _ => Ok((spec_post_commit_path(r), spec_script(exe))),
        },
    }
}

/// The post-commit hook file of the repository at `repo`.
pub fn post_commit_path(repo: &str) -> (r: String)
    ensures
        r@ == spec_post_commit_path(repo@),
{
    let hooks = join_path(repo, ".git/hooks");
    join_path(hooks.as_str(), "post-commit")
}

/// The command the hook runs.
pub fn hook_line(exe: &str) -> (r: String)
    ensures
        r@ == spec_hook_line(exe@),
{
    concat(exe, " hook post-commit >/dev/null 2>&1 || true")
}

/// The hook script that runs `exe`.
pub fn script(exe: &str) -> (r: String)
    ensures
        r@ == spec_script(exe@),
{
    let mut r = owned("#!/bin/sh\n# installed by revd\n");
    let line = hook_line(exe);
    r.append(line.as_str());
    r.append("\n");
    r
}

/// Install the post-commit hook of repository `repo` (`None` outside a
/// repository) to run `exe`, given the hook's current text (`None` when there
/// is no hook, empty when it could not be read). A hook revd did not write
/// is never replaced.
pub fn run(repo: Option<&str>, exe: &str, existing: Option<&str>) -> (r: Result<Write, InstallError>)
    ensures
        spec_run(
            match repo {
                Some(x) => Some(x@),
                None => None,
            },
            exe@,
            match existing {
                Some(x) => Some(x@),
                None => None,
            },
        ) == match r {
            Ok(w) => Ok((w.path@, w.contents@)),
            Err(e) => Err(e@),
        },
{
    match repo {
        None => Err(InstallError::NotARepo),
        Some(root) => {
            let path = post_commit_path(root);
            match existing {
                Some(e) => {
                    if !contains(e, SIGNATURE) {
                        return Err(InstallError::ForeignHook { path, line: hook_line(exe) });
                    }
                },
                None => {},
            }
            Ok(Write { path, contents: script(exe) })
        },
    }
}

/// What `revd install` tells the user once the hook is in place.
pub fn installed_message(path: &str) -> (r: String)
    ensures
        r@ == "installed post-commit hook in "@ + path@ + "\nstart the worker with:  revd daemon\n"@,
{
    let mut r = owned("installed post-commit hook in ");
    r.append(path);
    r.append("\nstart the worker with:  revd daemon\n");
    r
}

impl InstallError {
    /// The message `revd install` fails with.
    pub fn message(&self) -> (r: String)
        ensures
            r@ == match self@ {
                InstallErrorView::NotARepo => "not inside a git repository"@,
                InstallErrorView::ForeignHook { path, line } => path
                    + " already exists and is not a revd hook — add this line yourself:\n  "@ + line,
            },
    {
        match self {
            InstallError::NotARepo => owned("not inside a git repository"),
            InstallError::ForeignHook { path, line } => {
                let mut r = owned(path.as_str());
                r.append(" already exists and is not a revd hook — add this line yourself:\n  ");
                r.append(line.as_str());
                r
            },
        }
    }
}

/// Installing twice is fine: the hook revd writes for an executable named
/// `revd` is recognised as revd's, so installing again replaces it rather
/// than refusing.
pub proof fn reinstall_is_accepted(repo: Seq<char>, exe: Seq<char>)
    requires
        seq_ends_with(exe, "revd"@),
    ensures
        spec_run(Some(repo), exe, Some(spec_script(exe))) == Ok::<(Seq<char>, Seq<char>), InstallErrorView>(
            (spec_post_commit_path(repo), spec_script(exe)),
        ),
{
    reveal_strlit("revd hook");
    reveal_strlit("revd");
    reveal_strlit("#!/bin/sh\n# installed by revd\n");
    reveal_strlit(" hook post-commit >/dev/null 2>&1 || true");
    reveal_strlit("\n");
    let head: Seq<char> = "#!/bin/sh\n# installed by revd\n"@;
    let s = spec_script(exe);
    let i = head.len() + exe.len() - 4;
    assert(s.subrange(i, i + 9) =~= SIGNATURE@) by {
        assert forall|k: int| 0 <= k < 9 implies s.subrange(i, i + 9)[k] == SIGNATURE@[k] by {
            if k < 4 {
                assert(s[i + k] == exe[exe.len() - 4 + k]);
                assert(exe.subrange(exe.len() - 4, exe.len() as int)[k] == "revd"@[k]);
            } else {
                assert(s[i + k] == " hook post-commit >/dev/null 2>&1 || true"@[k - 4]);
            }
        }
    }
    assert(crate::text::occurs_at(s, SIGNATURE@, i));
}

} // verus!
