//! Surfacing policy: what interrupts the user and what stays in the DB.
use crate::analyze::{Finding, FindingView, Severity, Status};
use crate::text::{concat, decimal, decimal_string, decimal_usize, join, owned, replace, seq_join, seq_replace, take_chars};
use vstd::prelude::*;

verus! {

/// Findings that earn a notification: high-confidence and serious.
pub open spec fn spec_is_alert(f: FindingView) -> bool {
    f.status == Status::Open && (f.severity == Severity::High || f.severity == Severity::Block) && f.confidence >= 90
}

/// Findings that earn a notification: open, high or block severity, confidence at least 0.9.
pub fn is_alert(f: &Finding) -> (r: bool)
    ensures
        r == spec_is_alert(f@),
{
    f.status == Status::Open && (f.severity == Severity::High || f.severity == Severity::Block) && f.confidence >= 90
}

/// The alerts among `fs`, in order.
pub open spec fn alerts_of(fs: Seq<FindingView>) -> Seq<FindingView>
    decreases fs.len(),
{
    if fs.len() == 0 {
        Seq::empty()
    } else {
        alerts_of(fs.drop_last()) + if spec_is_alert(fs.last()) { seq![fs.last()] } else { Seq::empty() }
    }
}

/// One desktop notification.
#[derive(Debug, Clone)]
pub struct Notification {
    /// The commit it is about; one notification per commit.
    pub sha: String,
    pub title: String,
    pub body: String,
}

/// The short form of a commit id: its first seven characters.
pub open spec fn short(sha: Seq<char>) -> Seq<char> {
    sha.take(if sha.len() <= 7 { sha.len() as int } else { 7 })
}

/// One body line: where and what.
pub open spec fn alert_line(f: FindingView) -> Seq<char> {
    f.file + ":"@ + decimal(f.line_start as nat) + " "@ + f.title
}

/// The body lines: the first three alerts, then how many more there are.
pub open spec fn body_lines(alerts: Seq<FindingView>) -> Seq<Seq<char>> {
    let shown = alerts.take(if alerts.len() <= 3 { alerts.len() as int } else { 3 }).map_values(|f: FindingView| alert_line(f));
    if alerts.len() > 3 {
        shown.push("+"@ + decimal((alerts.len() - 3) as nat) + " more"@)
    } else {
        shown
    }
}

/// The notification for a commit's findings, if any of them is an alert.
pub open spec fn spec_notification(fs: Seq<FindingView>) -> Option<(Seq<char>, Seq<char>, Seq<char>)> {
    let alerts = alerts_of(fs);
    if alerts.len() == 0 {
        None
    } else {
        let sha = alerts[0].sha;
        Some((
            sha,
            "revd — "@ + decimal(alerts.len()) + " finding(s) in "@ + short(sha),
            seq_join(body_lines(alerts), "\n"@),
        ))
    }
}

fn alert_line_of(f: &Finding) -> (r: String)
    ensures
        r@ == alert_line(f@),
{
    let mut r = concat(f.file.as_str(), ":");
    let n = decimal_string(f.line_start);
    r.append(n.as_str());
    r.append(" ");
    r.append(f.title.as_str());
    r
}

/// What to tell the user about a commit's findings: nothing when none is an
/// alert (silence is the default), else one notification naming at most three.
pub fn notification(findings: &Vec<Finding>) -> (r: Option<Notification>)
    ensures
        spec_notification(findings@.map_values(|f: Finding| f@)) == match r {
            Some(n) => Some((n.sha@, n.title@, n.body@)),
            None => None,
        },
{
    let ghost fs = findings@.map_values(|f: Finding| f@);
    let mut alerts: Vec<&Finding> = Vec::new();
    let mut i: usize = 0;
    while i < findings.len()
        invariant
            fs == findings@.map_values(|f: Finding| f@),
            i <= fs.len(),
            alerts@.map_values(|f: &Finding| f@) == alerts_of(fs.take(i as int)),
        decreases findings.len() - i,
    {
        let f = &findings[i];
        assert(fs[i as int] == f@);
        assert(fs.take(i + 1).drop_last() =~= fs.take(i as int));
        let ghost before = alerts@.map_values(|f: &Finding| f@);
        if is_alert(f) {
            alerts.push(f);
            assert(alerts@.map_values(|f: &Finding| f@) =~= before.push(f@));
        } else {
            assert(before =~= before + Seq::<FindingView>::empty());
        }
        i = i + 1;
    }
    assert(fs.take(fs.len() as int) =~= fs);
    let ghost av = alerts@.map_values(|f: &Finding| f@);
    if alerts.len() == 0 {
        return None;
    }
    let sha = alerts[0].sha.as_str();
    let mut title = owned("revd — ");
    let count = decimal_usize(alerts.len());
    title.append(count.as_str());
    title.append(" finding(s) in ");
    let s7 = take_chars(sha, 7);
    title.append(s7.as_str());
    let mut body: Vec<String> = Vec::new();
    let shown = if alerts.len() <= 3 { alerts.len() } else { 3 };
    let mut k: usize = 0;
    while k < shown
        invariant
            av == alerts@.map_values(|f: &Finding| f@),
            shown <= av.len(),
            shown == if av.len() <= 3 { av.len() } else { 3 },
            k <= shown,
            body@.map_values(|b: String| b@) == av.take(k as int).map_values(|f: FindingView| alert_line(f)),
        decreases shown - k,
    {
        let l = alert_line_of(alerts[k]);
        assert(av[k as int] == alerts@[k as int]@);
        let ghost before = body@.map_values(|b: String| b@);
        body.push(l);
        assert(body@.map_values(|b: String| b@) =~= before.push(l@));
        assert(av.take(k + 1).map_values(|f: FindingView| alert_line(f)) =~= av.take(k as int).map_values(
            |f: FindingView| alert_line(f),
        ).push(alert_line(av[k as int])));
        k = k + 1;
    }
    if alerts.len() > 3 {
        let mut more = owned("+");
        let n = decimal_usize(alerts.len() - 3);
        more.append(n.as_str());
        more.append(" more");
        let ghost before = body@.map_values(|b: String| b@);
        body.push(more);
        assert(body@.map_values(|b: String| b@) =~= before.push(more@));
    }
    let text = join(&body, "\n");
    Some(Notification { sha: owned(sha), title, body: text })
}

/// `s` as an AppleScript string literal.
pub open spec fn spec_applescript_quote(s: Seq<char>) -> Seq<char> {
    "\""@ + seq_replace(seq_replace(s, "\\"@, "\\\\"@), "\""@, "\\\""@) + "\""@
}

/// `s` as an AppleScript string literal: quoted, with `\` and `"` escaped.
pub fn applescript_quote(s: &str) -> (r: String)
    ensures
        r@ == spec_applescript_quote(s@),
{
    proof {
        reveal_strlit("\\");
        reveal_strlit("\"");
    }
    let a = replace(s, "\\", "\\\\");
    let b = replace(a.as_str(), "\"", "\\\"");
    let mut r = owned("\"");
    r.append(b.as_str());
    r.append("\"");
    r
}


proof fn lemma_alerts_of_empty(fs: Seq<FindingView>)
    ensures
        alerts_of(fs).len() == 0 <==> forall|i: int| 0 <= i < fs.len() ==> !spec_is_alert(#[trigger] fs[i]),
    decreases fs.len(),
{
    if fs.len() > 0 {
        lemma_alerts_of_empty(fs.drop_last());
        if alerts_of(fs).len() == 0 {
            assert forall|i: int| 0 <= i < fs.len() implies !spec_is_alert(#[trigger] fs[i]) by {
                if i < fs.len() - 1 {
                    assert(fs[i] == fs.drop_last()[i]);
                }
            }
        } else if forall|i: int| 0 <= i < fs.len() ==> !spec_is_alert(#[trigger] fs[i]) {
            assert(!spec_is_alert(fs[fs.len() - 1]));
            assert forall|i: int| 0 <= i < fs.drop_last().len() implies !spec_is_alert(#[trigger] fs.drop_last()[i]) by {
                assert(fs.drop_last()[i] == fs[i]);
            }
        }
    }
}

/// Silent by default: a commit's findings earn a notification exactly when
/// one of them is an alert. It is about the commit of the first alert, and
/// its body names at most three alerts, one line each, then how many more
/// there are.
pub proof fn notification_is_brief(fs: Seq<FindingView>)
    ensures
        spec_notification(fs) is None <==> forall|i: int| 0 <= i < fs.len() ==> !spec_is_alert(#[trigger] fs[i]),
        spec_notification(fs) matches Some(n) ==> n.0 == alerts_of(fs)[0].sha,
        body_lines(alerts_of(fs)).len() == if alerts_of(fs).len() <= 3 {
            alerts_of(fs).len() as int
        } else {
            4
        },
        forall|i: int|
            0 <= i < 3 && i < alerts_of(fs).len() ==> #[trigger] body_lines(alerts_of(fs))[i] == alert_line(
                alerts_of(fs)[i],
            ),
{
    lemma_alerts_of_empty(fs);
}

} // verus!
