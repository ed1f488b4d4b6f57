//! Tier 1 — built-in heuristics over added lines.
//! Deliberately a small starter set; breadth comes later.
use crate::analyze::{findings_view, finding_id, spec_finding_id, Author, Finding, FindingView, Status};
use crate::git::{diffs_view, AddedLineView, FileDiff, FileDiffView};
use crate::store::{is_timestamp, now};
use crate::taxonomy::{first_node, has_node, lookup, spec_severity, PATHS};
use crate::text::{concat, contains, ends_with, owned, seq_contains, seq_ends_with, seq_trim, str_eq, take_chars, trim};
use crate::tools::strs;
use vstd::prelude::*;

verus! {

/// The rule table has this many rules.
pub const RULE_COUNT: usize = 10;

/// Rule ids, used as `source` and for muting.
pub const IDS: [&'static str; 10] = [
    "debug_leftover",
    "todo_unreferenced",
    "secret_literal",
    "aws_key",
    "go_err_discarded",
    "go_context_background",
    "go_panic_in_lib",
    "ts_any",
    "ts_empty_catch",
    "ts_foreach_async",
];

/// Taxonomy path of each rule; its severity is looked up from it.
pub const CATEGORIES: [&'static str; 10] = [
    "common.debug.leftover",
    "common.todo.unreferenced",
    "common.secrets.credential",
    "common.secrets.credential",
    "go.errors.unchecked",
    "go.context.background",
    "go.errors.panic_in_lib",
    "ts.types.any",
    "ts.async.empty_catch",
    "ts.async.foreach_async",
];

/// What each rule looks for in an added line (regex syntax).
pub const PATTERNS: [&'static str; 10] = [
    "(?:console\\.log\\(|fmt\\.Println\\(|\\bdebugger\\b|\\bit\\.only\\(|\\bdescribe\\.only\\()",
    "(?://|#|/\\*)\\s*(?:TODO|FIXME|HACK)\\b",
    "(?i)(?:api[_-]?key|secret|password|passwd|token)\\s*[:=]\\s*[\"'][^\"']{12,}[\"']",
    "\\b(?:AKIA|ASIA)[0-9A-Z]{16}\\b",
    "^\\s*_\\s*(?:,\\s*_\\s*)*=\\s*\\w+.*\\berr\\b|^\\s*_\\s*=\\s*\\w+\\(",
    "context\\.(?:Background|TODO)\\(\\)",
    "^\\s*panic\\(",
    "\\bas\\s+any\\b|:\\s*any\\b|\\bas\\s+unknown\\s+as\\b",
    "\\.catch\\(\\s*\\(\\s*\\)\\s*=>\\s*\\{\\s*\\}\\s*\\)|catch\\s*\\([^)]*\\)\\s*\\{\\s*\\}",
    "\\.forEach\\(\\s*async\\b",
];

/// When this also matches the line, the finding is suppressed; empty for none.
/// (The regex crate has no lookahead — it guarantees linear time.)
pub const EXCLUDES: [&'static str; 10] = [
    "",
    "[A-Z]{2,}-\\d+|#\\d+",
    "",
    "",
    "",
    "",
    "",
    "",
    "",
    "",
];

/// One-line title of each rule's findings.
pub const TITLES: [&'static str; 10] = [
    "debug statement left in",
    "TODO with no ticket reference",
    "possible credential literal",
    "AWS access key id",
    "error discarded",
    "context.Background() outside an entry point",
    "panic in library code",
    "`any` introduced",
    "swallowed error",
    "async callback in forEach",
];

/// How to fix each rule's findings.
pub const FIX_HINTS: [&'static str; 10] = [
    "remove before shipping, or use the logger",
    "link an issue, or do it now",
    "move to env/secret store and rotate it",
    "revoke immediately and remove from history",
    "handle or wrap the error",
    "accept a ctx parameter and propagate it",
    "return an error instead",
    "narrow the type, or model it as a union",
    "log it or rethrow; empty catch hides failures",
    "use a for..of loop, or Promise.all(map(...))",
];

/// How sure each rule is, in hundredths.
pub const CONFIDENCE: [u32; 10] = [90, 80, 70, 99, 75, 60, 70, 90, 90, 95];

/// Languages each rule applies to; empty means all.
pub open spec fn spec_rule_langs(i: int) -> Seq<Seq<char>> {
    seq![
        seq![],
        seq![],
        seq![],
        seq![],
        seq!["go"@],
        seq!["go"@],
        seq!["go"@],
        seq!["ts"@],
        seq!["ts"@, "js"@],
        seq!["ts"@, "js"@],
    ][i]
}

/// Languages rule `i` applies to; empty means all.
fn rule_langs(i: usize) -> (r: &'static [&'static str])
    requires
        i < RULE_COUNT,
    ensures
        strs(r@) == spec_rule_langs(i as int),
{
    let r: &'static [&'static str] = match i {
        0 => &[],
        1 => &[],
        2 => &[],
        3 => &[],
        4 => &["go"],
        5 => &["go"],
        6 => &["go"],
        7 => &["ts"],
        8 => &["ts", "js"],
        _ => &["ts", "js"],
    };
    assert(strs(r@) =~= spec_rule_langs(i as int));
    r
}

/// `pattern` is valid regex syntax.
pub uninterp spec fn regex_compiles(pattern: Seq<char>) -> bool;

/// The regex `pattern` matches somewhere in `text`.
pub uninterp spec fn regex_is_match(pattern: Seq<char>, text: Seq<char>) -> bool;

/// `regex::Regex::is_match` on `pattern` compiled with `regex::Regex::new`:
/// `None` when the pattern does not compile, else whether it matches `text`.
#[verifier::external_body]
fn regex_match(pattern: &str, text: &str) -> (r: Option<bool>)
    ensures
        r is Some <==> regex_compiles(pattern@),
        r matches Some(b) ==> b == regex_is_match(pattern@, text@),
{
    match regex::Regex::new(pattern) {
        Ok(re) => Some(re.is_match(text)),
        Err(_) => None,
    }
}

/// The pattern matches, as a compiled regex would.
pub open spec fn matches(pattern: Seq<char>, text: Seq<char>) -> bool {
    regex_compiles(pattern) && regex_is_match(pattern, text)
}

/// Rule `i` reports `text`: its pattern matches and its exclusion does not.
pub open spec fn fires(i: int, text: Seq<char>) -> bool {
    matches(PATTERNS[i]@, text) && !(EXCLUDES[i]@.len() > 0 && matches(EXCLUDES[i]@, text))
}

/// Path fragments of files never analysed (vendored, generated, lockfiles).
pub open spec fn spec_skip_file(path: Seq<char>) -> bool {
    ||| seq_contains(path, "vendor/"@)
    ||| seq_contains(path, "node_modules/"@)
    ||| seq_contains(path, "/testdata/"@)
    ||| seq_contains(path, ".min.js"@)
    ||| seq_contains(path, ".lock"@)
}

/// A test file.
pub open spec fn is_test(path: Seq<char>) -> bool {
    ||| seq_ends_with(path, "_test.go"@)
    ||| seq_contains(path, ".test."@)
    ||| seq_contains(path, ".spec."@)
    ||| seq_contains(path, "/test/"@)
}

/// A program entry point.
pub open spec fn is_main(path: Seq<char>) -> bool {
    seq_ends_with(path, "main.go"@) || seq_contains(path, "/cmd/"@)
}

/// Rules that only make sense outside test/entry files.
pub open spec fn spec_rule_applies_to_file(rule_id: Seq<char>, path: Seq<char>) -> bool {
    if rule_id == "go_context_background"@ || rule_id == "go_panic_in_lib"@ {
        !is_test(path) && !is_main(path)
    } else if rule_id == "debug_leftover"@ {
        !is_test(path)
    } else {
        true
    }
}

/// Rule `i` is run over file `fd`: the language fits and the file kind does.
pub open spec fn rule_on_file(i: int, fd: FileDiffView) -> bool {
    (spec_rule_langs(i).len() == 0 || spec_rule_langs(i).contains(fd.lang))
        && spec_rule_applies_to_file(IDS[i]@, fd.path)
}

/// At most 160 characters of the trimmed line.
pub open spec fn evidence(text: Seq<char>) -> Seq<char> {
    let t = seq_trim(text);
    t.take(if t.len() <= 160 { t.len() as int } else { 160 })
}

/// The finding rule `i` makes of added line `a` of `fd`.
pub open spec fn finding_for(repo: Seq<char>, sha: Seq<char>, fd: FileDiffView, i: int, a: AddedLineView, ts: Seq<char>) -> FindingView {
    FindingView {
        id: spec_finding_id(sha, fd.path, a.line, IDS[i]@),
        repo: repo,
        sha: sha,
        file: fd.path,
        line_start: a.line,
        line_end: a.line,
        lang: fd.lang,
        category: CATEGORIES[i]@,
        severity: spec_severity(CATEGORIES[i]@),
        confidence: CONFIDENCE[i],
        source: "heuristic:"@ + IDS[i]@,
        title: TITLES[i]@,
        evidence: evidence(a.text),
        fix_hint: FIX_HINTS[i]@,
        author: Author::Unknown,
        touched_after_agent: false,
        status: Status::Open,
        created_at: ts,
    }
}

/// Findings of rule `i` over `lines`, in line order.
pub open spec fn line_findings(repo: Seq<char>, sha: Seq<char>, fd: FileDiffView, i: int, lines: Seq<AddedLineView>, ts: Seq<char>) -> Seq<FindingView>
    decreases lines.len(),
{
    if lines.len() == 0 {
        Seq::empty()
    } else {
        line_findings(repo, sha, fd, i, lines.drop_last(), ts) + if fires(i, lines.last().text) {
            seq![finding_for(repo, sha, fd, i, lines.last(), ts)]
        } else {
            Seq::empty()
        }
    }
}

/// Findings of the first `n` rules over file `fd`, rule by rule.
pub open spec fn rule_findings(repo: Seq<char>, sha: Seq<char>, fd: FileDiffView, n: nat, ts: Seq<char>) -> Seq<FindingView>
    decreases n,
{
    if n == 0 {
        Seq::empty()
    } else {
        rule_findings(repo, sha, fd, (n - 1) as nat, ts) + if rule_on_file(n - 1, fd) {
            line_findings(repo, sha, fd, n - 1, fd.added, ts)
        } else {
            Seq::empty()
        }
    }
}

/// Findings over `diffs`, file by file; skipped files give none.
pub open spec fn spec_run(repo: Seq<char>, sha: Seq<char>, diffs: Seq<FileDiffView>, ts: Seq<char>) -> Seq<FindingView>
    decreases diffs.len(),
{
    if diffs.len() == 0 {
        Seq::empty()
    } else {
        spec_run(repo, sha, diffs.drop_last(), ts) + if spec_skip_file(diffs.last().path) {
            Seq::empty()
        } else {
            rule_findings(repo, sha, diffs.last(), RULE_COUNT as nat, ts)
        }
    }
}

/// Rule `i`'s pattern and exclusion compile.
pub open spec fn rule_compiles(i: int) -> bool {
    regex_compiles(PATTERNS[i]@) && (EXCLUDES[i]@.len() == 0 || regex_compiles(EXCLUDES[i]@))
}

/// Every rule's pattern and exclusion compiles.
pub open spec fn all_compile() -> bool {
    forall|i: int| 0 <= i < RULE_COUNT ==> #[trigger] rule_compiles(i)
}

/// Whether every rule's regexes compile.
pub fn compiled() -> (r: bool)
    ensures
        r == all_compile(),
{
    let mut i: usize = 0;
    while i < RULE_COUNT
        invariant
            i <= RULE_COUNT,
            forall|j: int| 0 <= j < i ==> #[trigger] rule_compiles(j),
        decreases RULE_COUNT - i,
    {
        let p = PATTERNS[i];
        let x = EXCLUDES[i];
        assert(p == PATTERNS[i as int] && x == EXCLUDES[i as int]);
        if regex_match(p, "").is_none() {
            assert(!rule_compiles(i as int));
            return false;
        }
        if x.unicode_len() != 0 && regex_match(x, "").is_none() {
            assert(!rule_compiles(i as int));
            return false;
        }
        assert(rule_compiles(i as int));
        i = i + 1;
    }
    true
}

/// Files we never analyse (vendored, generated, lockfiles).
pub fn skip_file(path: &str) -> (r: bool)
    ensures
        r == spec_skip_file(path@),
{
    contains(path, "vendor/") || contains(path, "node_modules/") || contains(path, "/testdata/")
        || contains(path, ".min.js") || contains(path, ".lock")
}

/// Rules that only make sense outside test/entry files.
pub fn rule_applies_to_file(rule_id: &str, path: &str) -> (r: bool)
    ensures
        r == spec_rule_applies_to_file(rule_id@, path@),
{
    let is_test = ends_with(path, "_test.go") || contains(path, ".test.") || contains(path, ".spec.")
        || contains(path, "/test/");
    let is_main = ends_with(path, "main.go") || contains(path, "/cmd/");
    if str_eq(rule_id, "go_context_background") || str_eq(rule_id, "go_panic_in_lib") {
        !is_test && !is_main
    } else if str_eq(rule_id, "debug_leftover") {
        !is_test
    } else {
        true
    }
}

/// Whether rule `i` reports `text`.
fn rule_fires(i: usize, text: &str) -> (r: bool)
    requires
        i < RULE_COUNT,
    ensures
        r == fires(i as int, text@),
{
    let hit = match regex_match(PATTERNS[i], text) {
        Some(b) => b,
        None => false,
    };
    if !hit {
        return false;
    }
    if EXCLUDES[i].unicode_len() == 0 {
        return true;
    }
    let ex = match regex_match(EXCLUDES[i], text) {
        Some(b) => b,
        None => false,
    };
    !ex
}

/// Whether rule `i` runs over `fd`.
fn rule_runs_on(i: usize, fd: &FileDiff) -> (r: bool)
    requires
        i < RULE_COUNT,
    ensures
        r == rule_on_file(i as int, fd@),
{
    let langs = rule_langs(i);
    let mut lang_ok = langs.len() == 0;
    let mut j: usize = 0;
    while j < langs.len()
        invariant
            strs(langs@) == spec_rule_langs(i as int),
            j <= langs@.len(),
            lang_ok == (langs@.len() == 0 || exists|k: int| 0 <= k < j && #[trigger] spec_rule_langs(i as int)[k] == fd@.lang),
        decreases langs.len() - j,
    {
        assert(spec_rule_langs(i as int)[j as int] == langs@[j as int]@);
        if str_eq(langs[j], fd.lang.as_str()) {
            lang_ok = true;
        }
        j = j + 1;
    }
    proof {
        let ls = spec_rule_langs(i as int);
        if lang_ok && ls.len() > 0 {
            let k = choose|k: int| 0 <= k < j && #[trigger] ls[k] == fd@.lang;
            assert(ls.contains(fd@.lang));
        }
        if ls.contains(fd@.lang) {
            let k = choose|k: int| 0 <= k < ls.len() && ls[k] == fd@.lang;
            assert(ls[k] == fd@.lang);
        }
    }
    lang_ok && rule_applies_to_file(IDS[i], fd.path.as_str())
}

/// The default severity of the category `path`.
fn severity_of(path: &str) -> (r: crate::analyze::Severity)
    ensures
        r == spec_severity(path@),
{
    match lookup(path) {
        Some(n) => n.default_severity,
        None => crate::analyze::Severity::Low,
    }
}

/// The finding rule `i` makes of added line `a` of `fd`.
fn make_finding(repo: &str, sha: &str, fd: &FileDiff, i: usize, line: u32, text: &str, ts: &str) -> (r: Finding)
    requires
        i < RULE_COUNT,
    ensures
        r@ == finding_for(repo@, sha@, fd@, i as int, AddedLineView { line, text: text@ }, ts@),
{
    let t = trim(text);
    Finding {
        id: finding_id(sha, fd.path.as_str(), line, IDS[i]),
        repo: owned(repo),
        sha: owned(sha),
        file: owned(fd.path.as_str()),
        line_start: line,
        line_end: line,
        lang: owned(fd.lang.as_str()),
        category: owned(CATEGORIES[i]),
        severity: severity_of(CATEGORIES[i]),
        confidence: CONFIDENCE[i],
        source: concat("heuristic:", IDS[i]),
        title: owned(TITLES[i]),
        evidence: take_chars(t.as_str(), 160),
        fix_hint: owned(FIX_HINTS[i]),
        author: Author::Unknown,
        touched_after_agent: false,
        status: Status::Open,
        created_at: owned(ts),
    }
}

/// Run the rules over the added lines of `diffs`, stamping each finding with `created_at`.
pub fn run_at(repo: &str, sha: &str, diffs: &Vec<FileDiff>, created_at: &str) -> (r: Vec<Finding>)
    ensures
        r@.map_values(|f: Finding| f@) == spec_run(repo@, sha@, diffs@.map_values(|d: FileDiff| d@), created_at@),
{
    let ghost dv = diffs@.map_values(|d: FileDiff| d@);
    let mut out: Vec<Finding> = Vec::new();
    let mut di: usize = 0;
    while di < diffs.len()
        invariant
            dv == diffs@.map_values(|d: FileDiff| d@),
            di <= diffs@.len(),
            out@.map_values(|f: Finding| f@) == spec_run(repo@, sha@, dv.take(di as int), created_at@),
        decreases diffs.len() - di,
    {
        let fd = &diffs[di];
        assert(dv.take(di + 1).drop_last() =~= dv.take(di as int));
        assert(dv.take(di + 1).last() == fd@);
        let ghost base = out@.map_values(|f: Finding| f@);
        if !skip_file(fd.path.as_str()) {
            let mut ri: usize = 0;
            while ri < RULE_COUNT
                invariant
                    ri <= RULE_COUNT,
                    out@.map_values(|f: Finding| f@) == base + rule_findings(repo@, sha@, fd@, ri as nat, created_at@),
                decreases RULE_COUNT - ri,
            {
                let ghost before_rule = out@.map_values(|f: Finding| f@);
                if rule_runs_on(ri, fd) {
                    let ghost lines = fd@.added;
                    let mut li: usize = 0;
                    while li < fd.added.len()
                        invariant
                            ri < RULE_COUNT,
                            lines == fd@.added,
                            li <= lines.len(),
                            out@.map_values(|f: Finding| f@) == before_rule + line_findings(repo@, sha@, fd@, ri as int, lines.take(li as int), created_at@),
                        decreases fd.added.len() - li,
                    {
                        let a = &fd.added[li];
                        assert(lines[li as int] == a@);
                        assert(lines.take(li + 1).drop_last() =~= lines.take(li as int));
                        assert(lines.take(li + 1).last() == a@);
                        let ghost prev = out@.map_values(|f: Finding| f@);
                        if rule_fires(ri, a.text.as_str()) {
                            let f = make_finding(repo, sha, fd, ri, a.line, a.text.as_str(), created_at);
                            out.push(f);
                            assert(out@.map_values(|f: Finding| f@) =~= prev.push(f@));
                        }
                        li = li + 1;
                    }
                    assert(lines.take(lines.len() as int) =~= lines);
                }
                ri = ri + 1;
            }
        }
        di = di + 1;
    }
    assert(dv.take(diffs@.len() as int) =~= dv);
    out
}

/// Run the rules over the added lines of `diffs`, stamped with the current
/// time; the stamp is empty when the system clock cannot be read.
pub fn run(repo: &str, sha: &str, diffs: &Vec<FileDiff>) -> (r: Vec<Finding>)
    ensures
        exists|ts: Seq<char>|
            (ts.len() == 0 || is_timestamp(ts)) && findings_view(r@) == #[trigger] spec_run(
                repo@,
                sha@,
                diffs_view(diffs@),
                ts,
            ),
{
    let ts = match now() {
        Some(t) => t,
        None => String::new(),
    };
    let r = run_at(repo, sha, diffs, ts.as_str());
    assert(findings_view(r@) == spec_run(repo@, sha@, diffs_view(diffs@), ts@));
    r
}


/// Which files each rule reads, by the language tag of the file: the four
/// language-neutral rules (`debug_leftover`, `todo_unreferenced`,
/// `secret_literal`, `aws_key`) read every file; the three Go rules read `go`
/// files; `ts_any` reads `ts` files; `ts_empty_catch` and `ts_foreach_async`
/// read `ts` and `js` files.
pub proof fn rule_languages(i: int, lang: Seq<char>)
    requires
        0 <= i < RULE_COUNT,
    ensures
        (spec_rule_langs(i).len() == 0 || spec_rule_langs(i).contains(lang)) <==> {
            ||| 0 <= i < 4
            ||| (4 <= i < 7 && lang == "go"@)
            ||| (i == 7 && lang == "ts"@)
            ||| (8 <= i < 10 && (lang == "ts"@ || lang == "js"@))
        },
        IDS[0]@ == "debug_leftover"@ && IDS[1]@ == "todo_unreferenced"@ && IDS[2]@ == "secret_literal"@
            && IDS[3]@ == "aws_key"@,
        IDS[4]@ == "go_err_discarded"@ && IDS[5]@ == "go_context_background"@ && IDS[6]@ == "go_panic_in_lib"@,
        IDS[7]@ == "ts_any"@ && IDS[8]@ == "ts_empty_catch"@ && IDS[9]@ == "ts_foreach_async"@,
{
    let ls = spec_rule_langs(i);
    if 4 <= i < 7 {
        assert(ls =~= seq!["go"@]);
        if ls.contains(lang) {
            let k = choose|k: int| 0 <= k < ls.len() && ls[k] == lang;
            assert(k == 0);
        }
        if lang == "go"@ {
            assert(ls[0] == lang);
        }
    } else if i == 7 {
        assert(ls =~= seq!["ts"@]);
        if ls.contains(lang) {
            let k = choose|k: int| 0 <= k < ls.len() && ls[k] == lang;
            assert(k == 0);
        }
        if lang == "ts"@ {
            assert(ls[0] == lang);
        }
    } else if i >= 8 {
        assert(ls =~= seq!["ts"@, "js"@]);
        if ls.contains(lang) {
            let k = choose|k: int| 0 <= k < ls.len() && ls[k] == lang;
            assert(k == 0 || k == 1);
        }
        if lang == "ts"@ {
            assert(ls[0] == lang);
        }
        if lang == "js"@ {
            assert(ls[1] == lang);
        }
    }
}

/// Rule `i`'s finding for added line `a` is among the findings of `lines`.
proof fn lemma_line_finding_in(
    repo: Seq<char>,
    sha: Seq<char>,
    fd: FileDiffView,
    i: int,
    lines: Seq<AddedLineView>,
    ts: Seq<char>,
    a: int,
)
    requires
        0 <= a < lines.len(),
        fires(i, lines[a].text),
    ensures
        line_findings(repo, sha, fd, i, lines, ts).contains(finding_for(repo, sha, fd, i, lines[a], ts)),
    decreases lines.len(),
{
    let x = finding_for(repo, sha, fd, i, lines[a], ts);
    let pre = line_findings(repo, sha, fd, i, lines.drop_last(), ts);
    let all = line_findings(repo, sha, fd, i, lines, ts);
    if a == lines.len() - 1 {
        assert(all[pre.len() as int] == x);
    } else {
        assert(lines.drop_last()[a] == lines[a]);
        lemma_line_finding_in(repo, sha, fd, i, lines.drop_last(), ts, a);
        let k = choose|k: int| 0 <= k < pre.len() && pre[k] == x;
        assert(all[k] == x);
    }
}

/// What rule `i < n` finds in a file it runs on is among the findings of the first `n` rules.
proof fn lemma_rule_finding_in(repo: Seq<char>, sha: Seq<char>, fd: FileDiffView, n: nat, ts: Seq<char>, i: int, x: FindingView)
    requires
        0 <= i < n,
        rule_on_file(i, fd),
        line_findings(repo, sha, fd, i, fd.added, ts).contains(x),
    ensures
        rule_findings(repo, sha, fd, n, ts).contains(x),
    decreases n,
{
    let pre = rule_findings(repo, sha, fd, (n - 1) as nat, ts);
    let all = rule_findings(repo, sha, fd, n, ts);
    if i == n - 1 {
        let lf = line_findings(repo, sha, fd, i, fd.added, ts);
        let k = choose|k: int| 0 <= k < lf.len() && lf[k] == x;
        assert(all[pre.len() + k] == x);
    } else {
        lemma_rule_finding_in(repo, sha, fd, (n - 1) as nat, ts, i, x);
        let k = choose|k: int| 0 <= k < pre.len() && pre[k] == x;
        assert(all[k] == x);
    }
}

/// What the rules find in an analysed file is among the findings of the run.
proof fn lemma_run_finding_in(repo: Seq<char>, sha: Seq<char>, diffs: Seq<FileDiffView>, ts: Seq<char>, d: int, x: FindingView)
    requires
        0 <= d < diffs.len(),
        !spec_skip_file(diffs[d].path),
        rule_findings(repo, sha, diffs[d], RULE_COUNT as nat, ts).contains(x),
    ensures
        spec_run(repo, sha, diffs, ts).contains(x),
    decreases diffs.len(),
{
    let pre = spec_run(repo, sha, diffs.drop_last(), ts);
    let all = spec_run(repo, sha, diffs, ts);
    if d == diffs.len() - 1 {
        let rf = rule_findings(repo, sha, diffs[d], RULE_COUNT as nat, ts);
        let k = choose|k: int| 0 <= k < rf.len() && rf[k] == x;
        assert(all[pre.len() + k] == x);
    } else {
        assert(diffs.drop_last()[d] == diffs[d]);
        lemma_run_finding_in(repo, sha, diffs.drop_last(), ts, d, x);
        let k = choose|k: int| 0 <= k < pre.len() && pre[k] == x;
        assert(all[k] == x);
    }
}

/// The empty-catch and `forEach(async` rules review JavaScript as they do
/// TypeScript: in an analysed file tagged `js` or `ts`, an added line that
/// either rule fires on gives a finding at that line, under
/// `ts.async.empty_catch` (source `heuristic:ts_empty_catch`) or
/// `ts.async.foreach_async` (source `heuristic:ts_foreach_async`).
pub proof fn async_rules_review_javascript(
    repo: Seq<char>,
    sha: Seq<char>,
    diffs: Seq<FileDiffView>,
    ts: Seq<char>,
    d: int,
    a: int,
    i: int,
)
    requires
        0 <= d < diffs.len(),
        diffs[d].lang == "js"@ || diffs[d].lang == "ts"@,
        !spec_skip_file(diffs[d].path),
        0 <= a < diffs[d].added.len(),
        i == 8 || i == 9,
        fires(i, diffs[d].added[a].text),
    ensures
        exists|k: int|
            0 <= k < spec_run(repo, sha, diffs, ts).len() && {
                let f = #[trigger] spec_run(repo, sha, diffs, ts)[k];
                &&& f.category == if i == 8 {
                    "ts.async.empty_catch"@
                } else {
                    "ts.async.foreach_async"@
                }
                &&& f.source == if i == 8 {
                    "heuristic:ts_empty_catch"@
                } else {
                    "heuristic:ts_foreach_async"@
                }
                &&& f.file == diffs[d].path
                &&& f.line_start == diffs[d].added[a].line
            },
{
    let fd = diffs[d];
    rule_languages(i, fd.lang);
    reveal_strlit("ts_empty_catch");
    reveal_strlit("ts_foreach_async");
    reveal_strlit("go_context_background");
    reveal_strlit("go_panic_in_lib");
    reveal_strlit("debug_leftover");
    reveal_strlit("ts.async.empty_catch");
    reveal_strlit("ts.async.foreach_async");
    assert(spec_rule_applies_to_file(IDS[i]@, fd.path));
    assert(rule_on_file(i, fd));
    let x = finding_for(repo, sha, fd, i, fd.added[a], ts);
    lemma_line_finding_in(repo, sha, fd, i, fd.added, ts, a);
    lemma_rule_finding_in(repo, sha, fd, RULE_COUNT as nat, ts, i, x);
    lemma_run_finding_in(repo, sha, diffs, ts, d, x);
    let run = spec_run(repo, sha, diffs, ts);
    let k = choose|k: int| 0 <= k < run.len() && run[k] == x;
    reveal_strlit("heuristic:");
    reveal_strlit("heuristic:ts_empty_catch");
    reveal_strlit("heuristic:ts_foreach_async");
    if i == 8 {
        assert(CATEGORIES[8]@ =~= "ts.async.empty_catch"@);
        assert(x.source =~= "heuristic:ts_empty_catch"@);
    } else {
        assert(CATEGORIES[9]@ =~= "ts.async.foreach_async"@);
        assert(x.source =~= "heuristic:ts_foreach_async"@);
    }
    assert(run[k] == x);
}

/// Vendored, generated and lock files are never analysed: a file whose path
/// contains `vendor/`, `node_modules/`, `/testdata/`, `.min.js` or `.lock`
/// adds no finding to a run.
pub proof fn skipped_files_add_no_findings(repo: Seq<char>, sha: Seq<char>, diffs: Seq<FileDiffView>, fd: FileDiffView, ts: Seq<char>)
    requires
        seq_contains(fd.path, "vendor/"@) || seq_contains(fd.path, "node_modules/"@) || seq_contains(fd.path, "/testdata/"@)
            || seq_contains(fd.path, ".min.js"@) || seq_contains(fd.path, ".lock"@),
    ensures
        spec_run(repo, sha, diffs.push(fd), ts) == spec_run(repo, sha, diffs, ts),
{
    assert(diffs.push(fd).drop_last() =~= diffs);
    assert(spec_run(repo, sha, diffs.push(fd), ts) =~= spec_run(repo, sha, diffs, ts));
}

/// Every rule reports under a category of the taxonomy, so none of its
/// findings is dropped; the two secret rules report at `block` severity.
pub proof fn rules_report_under_taxonomy_categories()
    ensures
        forall|i: int| 0 <= i < RULE_COUNT ==> has_node(#[trigger] CATEGORIES[i]@),
        spec_severity(CATEGORIES[2]@) == crate::analyze::Severity::Block,
        spec_severity(CATEGORIES[3]@) == crate::analyze::Severity::Block,
{
    assert(CATEGORIES[0]@ == PATHS[3]@);
    assert(CATEGORIES[1]@ == PATHS[4]@);
    assert(CATEGORIES[2]@ == PATHS[0]@);
    assert(CATEGORIES[3]@ == PATHS[0]@);
    assert(CATEGORIES[4]@ == PATHS[10]@);
    assert(CATEGORIES[5]@ == PATHS[13]@);
    assert(CATEGORIES[6]@ == PATHS[12]@);
    assert(CATEGORIES[7]@ == PATHS[22]@);
    assert(CATEGORIES[8]@ == PATHS[28]@);
    assert(CATEGORIES[9]@ == PATHS[27]@);
    let secret = PATHS[0]@;
    assert(first_node(secret, 0));
    let k = choose|k: int| first_node(secret, k);
    assert(k == 0);
}


/// `f` stamped with the time `ts` instead.
pub open spec fn stamped(f: FindingView, ts: Seq<char>) -> FindingView {
    FindingView {
        id: f.id,
        repo: f.repo,
        sha: f.sha,
        file: f.file,
        line_start: f.line_start,
        line_end: f.line_end,
        lang: f.lang,
        category: f.category,
        severity: f.severity,
        confidence: f.confidence,
        source: f.source,
        title: f.title,
        evidence: f.evidence,
        fix_hint: f.fix_hint,
        author: f.author,
        touched_after_agent: f.touched_after_agent,
        status: f.status,
        created_at: ts,
    }
}

/// Every finding of `fs` stamped with the time `ts` instead.
pub open spec fn restamped(fs: Seq<FindingView>, ts: Seq<char>) -> Seq<FindingView> {
    fs.map_values(|f: FindingView| stamped(f, ts))
}

proof fn lemma_restamped_concat(a: Seq<FindingView>, b: Seq<FindingView>, ts: Seq<char>)
    ensures
        restamped(a + b, ts) == restamped(a, ts) + restamped(b, ts),
{
    assert(restamped(a + b, ts) =~= restamped(a, ts) + restamped(b, ts));
}

proof fn lemma_line_findings_stable(
    repo: Seq<char>,
    sha: Seq<char>,
    fd: FileDiffView,
    i: int,
    lines: Seq<AddedLineView>,
    ts1: Seq<char>,
    ts2: Seq<char>,
)
    ensures
        line_findings(repo, sha, fd, i, lines, ts2) == restamped(line_findings(repo, sha, fd, i, lines, ts1), ts2),
    decreases lines.len(),
{
    if lines.len() == 0 {
        assert(restamped(Seq::empty(), ts2) =~= Seq::<FindingView>::empty());
    } else {
        lemma_line_findings_stable(repo, sha, fd, i, lines.drop_last(), ts1, ts2);
        let tail1 = if fires(i, lines.last().text) {
            seq![finding_for(repo, sha, fd, i, lines.last(), ts1)]
        } else {
            Seq::empty()
        };
        lemma_restamped_concat(line_findings(repo, sha, fd, i, lines.drop_last(), ts1), tail1, ts2);
        assert(restamped(tail1, ts2) =~= if fires(i, lines.last().text) {
            seq![finding_for(repo, sha, fd, i, lines.last(), ts2)]
        } else {
            Seq::empty()
        });
    }
}

proof fn lemma_rule_findings_stable(repo: Seq<char>, sha: Seq<char>, fd: FileDiffView, n: nat, ts1: Seq<char>, ts2: Seq<char>)
    ensures
        rule_findings(repo, sha, fd, n, ts2) == restamped(rule_findings(repo, sha, fd, n, ts1), ts2),
    decreases n,
{
    if n == 0 {
        assert(restamped(Seq::empty(), ts2) =~= Seq::<FindingView>::empty());
    } else {
        lemma_rule_findings_stable(repo, sha, fd, (n - 1) as nat, ts1, ts2);
        lemma_line_findings_stable(repo, sha, fd, n - 1, fd.added, ts1, ts2);
        let tail1 = if rule_on_file(n - 1, fd) {
            line_findings(repo, sha, fd, n - 1, fd.added, ts1)
        } else {
            Seq::empty()
        };
        lemma_restamped_concat(rule_findings(repo, sha, fd, (n - 1) as nat, ts1), tail1, ts2);
        assert(restamped(Seq::empty(), ts2) =~= Seq::<FindingView>::empty());
    }
}

/// Re-analysing a commit gives the same findings whenever it runs, with the
/// same ids: only the time stamp differs. Results replace rather than
/// accumulate.
pub proof fn reanalysis_is_stable(repo: Seq<char>, sha: Seq<char>, diffs: Seq<FileDiffView>, ts1: Seq<char>, ts2: Seq<char>)
    ensures
        spec_run(repo, sha, diffs, ts2) == restamped(spec_run(repo, sha, diffs, ts1), ts2),
        spec_run(repo, sha, diffs, ts1).map_values(|f: FindingView| f.id) == spec_run(repo, sha, diffs, ts2).map_values(
            |f: FindingView| f.id,
        ),
    decreases diffs.len(),
{
    if diffs.len() == 0 {
        assert(restamped(Seq::empty(), ts2) =~= Seq::<FindingView>::empty());
    } else {
        reanalysis_is_stable(repo, sha, diffs.drop_last(), ts1, ts2);
        lemma_rule_findings_stable(repo, sha, diffs.last(), RULE_COUNT as nat, ts1, ts2);
        let tail1 = if spec_skip_file(diffs.last().path) {
            Seq::empty()
        } else {
            rule_findings(repo, sha, diffs.last(), RULE_COUNT as nat, ts1)
        };
        lemma_restamped_concat(spec_run(repo, sha, diffs.drop_last(), ts1), tail1, ts2);
        assert(restamped(Seq::empty(), ts2) =~= Seq::<FindingView>::empty());
    }
    let a = spec_run(repo, sha, diffs, ts1);
    assert(a.map_values(|f: FindingView| f.id) =~= restamped(a, ts2).map_values(|f: FindingView| f.id));
}

} // verus!
