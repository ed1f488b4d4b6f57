//! Analysis pipeline: tier0 (tools) → tier1 (heuristics) → tier2 (LLM).
//! Only tier1 is implemented so far.
pub mod tier1;

use crate::git::{diffs_view, FileDiff};
use crate::text::{decimal, decimal_string, hex_lower, hex_string, slice_chars};
use sha2::Digest;
use vstd::prelude::*;
use vstd::utf8::encode_utf8;

verus! {

#[derive(Debug, Clone, Copy, PartialEq, Eq, PartialOrd, Ord, Hash, Structural)]
pub enum Severity {
    Low,
    Medium,
    High,
    Block,
}

impl Severity {
    pub open spec fn spec_name(self) -> Seq<char> {
        match self {
            Severity::Low => "low"@,
            Severity::Medium => "medium"@,
            Severity::High => "high"@,
            Severity::Block => "block"@,
        }
    }

    pub fn as_str(&self) -> (s: &'static str)
        ensures
            s@ == self.spec_name(),
    {
        match self {
            Severity::Low => "low",
            Severity::Medium => "medium",
            Severity::High => "high",
            Severity::Block => "block",
        }
    }
}

#[derive(Debug, Clone, Copy, PartialEq, Eq, Structural)]
pub enum Author {
    Agent,
    Human,
    Unknown,
}

impl Author {
    pub open spec fn spec_name(self) -> Seq<char> {
        match self {
            Author::Agent => "agent"@,
            Author::Human => "human"@,
            Author::Unknown => "unknown"@,
        }
    }

    pub fn as_str(&self) -> (s: &'static str)
        ensures
            s@ == self.spec_name(),
    {
        match self {
            Author::Agent => "agent",
            Author::Human => "human",
            Author::Unknown => "unknown",
        }
    }
}

#[derive(Debug, Clone, Copy, PartialEq, Eq, Structural)]
pub enum Status {
    Open,
    FixedHuman,
    FixedAgent,
    Dismissed,
    Muted,
}

impl Status {
    pub open spec fn spec_name(self) -> Seq<char> {
        match self {
            Status::Open => "open"@,
            Status::FixedHuman => "fixed_human"@,
            Status::FixedAgent => "fixed_agent"@,
            Status::Dismissed => "dismissed"@,
            Status::Muted => "muted"@,
        }
    }

    pub fn as_str(&self) -> (s: &'static str)
        ensures
            s@ == self.spec_name(),
    {
        match self {
            Status::Open => "open",
            Status::FixedHuman => "fixed_human",
            Status::FixedAgent => "fixed_agent",
            Status::Dismissed => "dismissed",
            Status::Muted => "muted",
        }
    }
}

/// One review finding: where, what, how sure, and who wrote the line.
#[derive(Debug, Clone)]
pub struct Finding {
    pub id: String,
    pub repo: String,
    pub sha: String,
    pub file: String,
    pub line_start: u32,
    pub line_end: u32,
    pub lang: String,
    pub category: String,
    pub severity: Severity,
    /// How sure the rule is, in hundredths (90 means 0.9).
    pub confidence: u32,
    pub source: String,
    pub title: String,
    pub evidence: String,
    pub fix_hint: String,
    pub author: Author,
    pub touched_after_agent: bool,
    pub status: Status,
    pub created_at: String,
}

/// What a [`Finding`] is, as values.
pub struct FindingView {
    pub id: Seq<char>,
    pub repo: Seq<char>,
    pub sha: Seq<char>,
    pub file: Seq<char>,
    pub line_start: u32,
    pub line_end: u32,
    pub lang: Seq<char>,
    pub category: Seq<char>,
    pub severity: Severity,
    pub confidence: u32,
    pub source: Seq<char>,
    pub title: Seq<char>,
    pub evidence: Seq<char>,
    pub fix_hint: Seq<char>,
    pub author: Author,
    pub touched_after_agent: bool,
    pub status: Status,
    pub created_at: Seq<char>,
}

impl View for Finding {
    type V = FindingView;

    open spec fn view(&self) -> FindingView {
        FindingView {
            id: self.id@,
            repo: self.repo@,
            sha: self.sha@,
            file: self.file@,
            line_start: self.line_start,
            line_end: self.line_end,
            lang: self.lang@,
            category: self.category@,
            severity: self.severity,
            confidence: self.confidence,
            source: self.source@,
            title: self.title@,
            evidence: self.evidence@,
            fix_hint: self.fix_hint@,
            author: self.author,
            touched_after_agent: self.touched_after_agent,
            status: self.status,
            created_at: self.created_at@,
        }
    }
}

/// The views of a sequence of findings.
pub open spec fn findings_view(v: Seq<Finding>) -> Seq<FindingView> {
    v.map_values(|f: Finding| f@)
}

/// The SHA-256 digest of `data`.
pub uninterp spec fn sha256(data: Seq<u8>) -> Seq<u8>;

/// `sha2::Sha256::digest`: the 32-byte SHA-256 digest of `data`.
#[verifier::external_body]
fn sha256_digest(data: &[u8]) -> (r: Vec<u8>)
    ensures
        r@ == sha256(data@),
        r@.len() == 32,
{
    sha2::Sha256::digest(data).to_vec()
}

/// The bytes hashed into a finding id: the UTF-8 of commit, file, line and
/// rule, separated by the unit separator 0x1f.
pub open spec fn id_input(sha: Seq<char>, file: Seq<char>, line: u32, rule: Seq<char>) -> Seq<u8> {
    encode_utf8(sha) + seq![0x1fu8] + encode_utf8(file) + seq![0x1fu8] + encode_utf8(decimal(line as nat))
        + seq![0x1fu8] + encode_utf8(rule)
}

/// `f_` and the first 16 lower-case hex digits of the SHA-256 of [`id_input`].
pub open spec fn spec_finding_id(sha: Seq<char>, file: Seq<char>, line: u32, rule: Seq<char>) -> Seq<char> {
    "f_"@ + hex_lower(sha256(id_input(sha, file, line, rule))).take(16)
}

proof fn lemma_hex_len(b: Seq<u8>)
    ensures
        hex_lower(b).len() == 2 * b.len(),
    decreases b.len(),
{
    if b.len() > 0 {
        lemma_hex_len(b.drop_last());
    }
}

/// Append the bytes of `s` to `v`.
fn push_str_bytes(v: &mut Vec<u8>, s: &str)
    ensures
        final(v)@ == old(v)@ + encode_utf8(s@),
{
    let b = s.as_bytes();
    let mut i: usize = 0;
    let ghost start = v@;
    while i < b.len()
        invariant
            b@ == encode_utf8(s@),
            i <= b@.len(),
            v@ == start + b@.take(i as int),
        decreases b.len() - i,
    {
        v.push(b[i]);
        i = i + 1;
        assert(v@ =~= start + b@.take(i as int));
    }
    assert(b@.take(b@.len() as int) =~= b@);
}

/// A finding's identity is *where and what*, not when it was found. Re-analysing
/// a commit must produce the same ids so results replace rather than accumulate.
pub fn finding_id(sha: &str, file: &str, line: u32, rule: &str) -> (r: String)
    ensures
        r@ == spec_finding_id(sha@, file@, line, rule@),
        r@.len() == 18,
{
    let mut data: Vec<u8> = Vec::new();
    push_str_bytes(&mut data, sha);
    data.push(0x1f);
    push_str_bytes(&mut data, file);
    data.push(0x1f);
    let n = decimal_string(line);
    push_str_bytes(&mut data, n.as_str());
    data.push(0x1f);
    push_str_bytes(&mut data, rule);
    assert(data@ =~= id_input(sha@, file@, line, rule@));
    let digest = sha256_digest(data.as_slice());
    let hex = hex_string(&digest);
    proof {
        lemma_hex_len(digest@);
    }
    let head = slice_chars(hex.as_str(), 0, 16);
    let mut id = String::from_str("f_");
    id.append(head.as_str());
    proof {
        reveal_strlit("f_");
    }
    id
}

/// Run the pipeline over a commit's added lines.
/// Tier 0 and tier 2 are not wired yet; tier 1 carries the first slice.
pub fn run(repo: &str, sha: &str, diffs: &Vec<FileDiff>) -> (r: Vec<Finding>)
    ensures
        exists|ts: Seq<char>|
            (ts.len() == 0 || crate::store::is_timestamp(ts)) && findings_view(r@) == #[trigger] tier1::spec_run(
                repo@,
                sha@,
                diffs_view(diffs@),
                ts,
            ),
{
    tier1::run(repo, sha, diffs)
}

} // verus!
