//! Terminal styling. Hand-rolled to keep the dependency tree small.
//!
//! Colour is on only when stdout is a terminal, `NO_COLOR` is unset (see
//! no-color.org) and `TERM` is not `dumb`; [`color_enabled`] makes that call
//! from the facts the caller gathers, and every styling function takes its answer.
use crate::text::{concat, owned, str_eq};
use vstd::prelude::*;

verus! {

/// Whether output is styled.
pub open spec fn spec_color_enabled(is_terminal: bool, no_color_set: bool, term: Option<Seq<char>>) -> bool {
    is_terminal && !no_color_set && match term {
        Some(t) => t != "dumb"@,
        None => true,
    }
}

/// Whether output is styled: a terminal, no `NO_COLOR`, and a `TERM` other than `dumb`.
pub fn color_enabled(is_terminal: bool, no_color_set: bool, term: Option<&str>) -> (r: bool)
    ensures
        r == spec_color_enabled(is_terminal, no_color_set, match term {
            Some(t) => Some(t@),
            None => None,
        }),
{
    is_terminal && !no_color_set && match term {
        Some(t) => !str_eq(t, "dumb"),
        None => true,
    }
}

/// `s` wrapped in the SGR escape `code` when `on`, else `s` as it is.
pub open spec fn spec_wrap(on: bool, code: Seq<char>, s: Seq<char>) -> Seq<char> {
    if on {
        "\x1b["@ + code + "m"@ + s + "\x1b[0m"@
    } else {
        s
    }
}

fn wrap(on: bool, code: &str, s: &str) -> (r: String)
    ensures
        r@ == spec_wrap(on, code@, s@),
{
    if on {
        let mut r = concat("\x1b[", code);
        r.append("m");
        r.append(s);
        r.append("\x1b[0m");
        r
    } else {
        owned(s)
    }
}

pub fn bold(on: bool, s: &str) -> (r: String)
    ensures
        r@ == spec_wrap(on, "1"@, s@),
{
    wrap(on, "1", s)
}

pub fn dim(on: bool, s: &str) -> (r: String)
    ensures
        r@ == spec_wrap(on, "2"@, s@),
{
    wrap(on, "2", s)
}

pub fn green(on: bool, s: &str) -> (r: String)
    ensures
        r@ == spec_wrap(on, "32"@, s@),
{
    wrap(on, "32", s)
}

pub fn yellow(on: bool, s: &str) -> (r: String)
    ensures
        r@ == spec_wrap(on, "33"@, s@),
{
    wrap(on, "33", s)
}

pub fn cyan(on: bool, s: &str) -> (r: String)
    ensures
        r@ == spec_wrap(on, "36"@, s@),
{
    wrap(on, "36", s)
}

/// Present.
pub fn ok(on: bool) -> (r: String)
    ensures
        r@ == spec_wrap(on, "32"@, "●"@),
{
    green(on, "●")
}

/// Absent.
pub fn missing(on: bool) -> (r: String)
    ensures
        r@ == spec_wrap(on, "2"@, "○"@),
{
    dim(on, "○")
}

/// Reading `s` left to right: how many characters are printable, and whether
/// the reader ends inside an escape sequence (`ESC` up to and including `m`).
pub open spec fn scan(s: Seq<char>) -> (nat, bool)
    decreases s.len(),
{
    if s.len() == 0 {
        (0, false)
    } else {
        let (n, in_escape) = scan(s.drop_last());
        let c = s.last();
        if in_escape {
            (n, c != 'm')
        } else if c == '\x1b' {
            (n, true)
        } else {
            (n + 1, false)
        }
    }
}

/// Printable width of `s`, ignoring ANSI escapes.
pub open spec fn spec_visible_len(s: Seq<char>) -> nat {
    scan(s).0
}

proof fn lemma_scan_bound(s: Seq<char>)
    ensures
        scan(s).0 <= s.len(),
    decreases s.len(),
{
    if s.len() > 0 {
        lemma_scan_bound(s.drop_last());
    }
}

/// Printable width, ignoring ANSI escapes — for aligning styled cells.
pub fn visible_len(s: &str) -> (r: usize)
    ensures
        r == spec_visible_len(s@),
{
    let n = s.unicode_len();
    let mut count: usize = 0;
    let mut in_escape = false;
    let mut i: usize = 0;
    while i < n
        invariant
            n == s@.len(),
            i <= n,
            scan(s@.take(i as int)) == (count as nat, in_escape),
        decreases n - i,
    {
        let c = s.get_char(i);
        proof {
            lemma_scan_bound(s@.take(i as int));
            assert(s@.take(i + 1).drop_last() =~= s@.take(i as int));
        }
        if in_escape {
            if c == 'm' {
                in_escape = false;
            }
        } else if c == '\x1b' {
            in_escape = true;
        } else {
            count = count + 1;
        }
        i = i + 1;
    }
    assert(s@.take(n as int) =~= s@);
    count
}

/// `n` spaces.
pub open spec fn spaces(n: nat) -> Seq<char> {
    Seq::new(n, |i: int| ' ')
}

/// `s` followed by enough spaces to make its printable width `width`.
pub open spec fn spec_pad(s: Seq<char>, width: nat) -> Seq<char> {
    let len = spec_visible_len(s);
    if len >= width {
        s
    } else {
        s + spaces((width - len) as nat)
    }
}

/// Left-pad a possibly-styled string to `width`.
pub fn pad(s: &str, width: usize) -> (r: String)
    ensures
        r@ == spec_pad(s@, width as nat),
{
    let len = visible_len(s);
    if len >= width {
        return owned(s);
    }
    let mut r = owned(s);
    let mut k: usize = 0;
    while k < width - len
        invariant
            len < width,
            k <= width - len,
            r@ == s@ + spaces(k as nat),
        decreases width - len - k,
    {
        r.append(" ");
        proof {
            reveal_strlit(" ");
        }
        k = k + 1;
        assert(r@ =~= s@ + spaces(k as nat));
    }
    r
}

proof fn lemma_scan_spaces(s: Seq<char>, k: nat)
    requires
        !scan(s).1,
    ensures
        scan(s + spaces(k)) == (scan(s).0 + k, false),
    decreases k,
{
    if k > 0 {
        lemma_scan_spaces(s, (k - 1) as nat);
        assert((s + spaces(k)).drop_last() =~= s + spaces((k - 1) as nat));
    } else {
        assert(s + spaces(0) =~= s);
    }
}

/// Padding a string that does not end inside an escape sequence makes its
/// printable width exactly the larger of its own and `width`: styled and
/// plain cells line up alike.
pub proof fn pad_aligns_styled_and_plain_identically(s: Seq<char>, width: nat)
    requires
        !scan(s).1,
    ensures
        spec_visible_len(spec_pad(s, width)) == if spec_visible_len(s) >= width { spec_visible_len(s) } else { width },
{
    if spec_visible_len(s) < width {
        lemma_scan_spaces(s, (width - spec_visible_len(s)) as nat);
    }
}

/// With styling off, every style function hands its text back untouched.
pub proof fn styling_is_inert_when_disabled(code: Seq<char>, s: Seq<char>)
    ensures
        spec_wrap(false, code, s) == s,
{
}

} // verus!
