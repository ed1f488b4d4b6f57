//! Character-level string operations with specifications over `Seq<char>`.
//!
//! Every comparison, search and rewrite that revd performs on text goes through
//! this module, so the rest of the crate can state its contracts over views.
use vstd::prelude::*;

verus! {

// ------------------------------------------------------------------ specs --

/// `s` begins with `p`.
pub open spec fn seq_starts_with(s: Seq<char>, p: Seq<char>) -> bool {
    p.len() <= s.len() && s.subrange(0, p.len() as int) == p
}

/// `s` ends with `p`.
pub open spec fn seq_ends_with(s: Seq<char>, p: Seq<char>) -> bool {
    p.len() <= s.len() && s.subrange(s.len() - p.len(), s.len() as int) == p
}

/// `n` occurs in `s` starting at position `i`.
pub open spec fn occurs_at(s: Seq<char>, n: Seq<char>, i: int) -> bool {
    0 <= i && i + n.len() <= s.len() && s.subrange(i, i + n.len()) == n
}

/// `n` occurs somewhere in `s` as a contiguous run.
pub open spec fn seq_contains(s: Seq<char>, n: Seq<char>) -> bool {
    exists|i: int| occurs_at(s, n, i)
}

/// Strict lexicographic order by code point, the order of Rust's `str`.
pub open spec fn seq_lt(a: Seq<char>, b: Seq<char>) -> bool
    decreases a.len(),
{
    if a.len() == 0 {
        b.len() > 0
    } else if b.len() == 0 {
        false
    } else if a[0] != b[0] {
        (a[0] as int) < (b[0] as int)
    } else {
        seq_lt(a.drop_first(), b.drop_first())
    }
}

/// Lexicographic order, non-strict.
pub open spec fn seq_le(a: Seq<char>, b: Seq<char>) -> bool {
    a == b || seq_lt(a, b)
}

/// Every non-overlapping occurrence of `f`, scanning left to right, replaced
/// by `t`. An empty `f` occurs before each character and at the end, as
/// `str::replace` has it.
pub open spec fn seq_replace(s: Seq<char>, f: Seq<char>, t: Seq<char>) -> Seq<char>
    decreases s.len(),
{
    if f.len() == 0 {
        if s.len() == 0 {
            t
        } else {
            t + seq![s[0]] + seq_replace(s.drop_first(), f, t)
        }
    } else if s.len() == 0 {
        s
    } else if seq_starts_with(s, f) {
        t + seq_replace(s.skip(f.len() as int), f, t)
    } else {
        seq![s[0]] + seq_replace(s.drop_first(), f, t)
    }
}

/// The parts, with `sep` between each two consecutive ones.
pub open spec fn seq_join(parts: Seq<Seq<char>>, sep: Seq<char>) -> Seq<char>
    decreases parts.len(),
{
    if parts.len() == 0 {
        Seq::empty()
    } else if parts.len() == 1 {
        parts[0]
    } else {
        seq_join(parts.drop_last(), sep) + sep + parts.last()
    }
}

/// Unicode's `White_Space` property, which `str::trim` removes.
pub open spec fn is_white_space(c: char) -> bool {
    let u = c as u32;
    ||| 0x09 <= u <= 0x0d
    ||| u == 0x20
    ||| u == 0x85
    ||| u == 0xa0
    ||| u == 0x1680
    ||| 0x2000 <= u <= 0x200a
    ||| u == 0x2028
    ||| u == 0x2029
    ||| u == 0x202f
    ||| u == 0x205f
    ||| u == 0x3000
}

/// Number of leading white-space characters.
pub open spec fn lead_ws(s: Seq<char>) -> nat
    decreases s.len(),
{
    if s.len() > 0 && is_white_space(s[0]) {
        1 + lead_ws(s.drop_first())
    } else {
        0
    }
}

/// Number of trailing white-space characters.
pub open spec fn trail_ws(s: Seq<char>) -> nat
    decreases s.len(),
{
    if s.len() > 0 && is_white_space(s.last()) {
        1 + trail_ws(s.drop_last())
    } else {
        0
    }
}

/// `s` without leading and trailing white space.
pub open spec fn seq_trim(s: Seq<char>) -> Seq<char> {
    let a = lead_ws(s);
    if a == s.len() {
        Seq::empty()
    } else {
        s.subrange(a as int, s.len() - trail_ws(s))
    }
}

/// The ASCII digit for `d < 10`.
pub open spec fn digit(d: nat) -> char {
    (('0' as u32) + d) as char
}

/// The decimal representation of `n`, no sign, no leading zeros.
pub open spec fn decimal(n: nat) -> Seq<char>
    decreases n,
{
    if n < 10 {
        seq![digit(n)]
    } else {
        decimal(n / 10).push(digit(n % 10))
    }
}

/// The lower-case hex digit for `d < 16`.
pub open spec fn hex_digit(d: nat) -> char {
    if d < 10 {
        (('0' as u32) + d) as char
    } else {
        (('a' as u32) + (d - 10)) as char
    }
}

/// Two lower-case hex digits per byte, most significant first.
pub open spec fn hex_lower(b: Seq<u8>) -> Seq<char>
    decreases b.len(),
{
    if b.len() == 0 {
        Seq::empty()
    } else {
        hex_lower(b.drop_last()) + seq![hex_digit((b.last() / 16) as nat), hex_digit((b.last() % 16) as nat)]
    }
}

/// The first line of `s` as `str::lines` yields it: up to the first `\n`,
/// with one trailing `\r` removed. `None` for the empty string.
pub open spec fn first_line(s: Seq<char>) -> Option<Seq<char>> {
    if s.len() == 0 {
        None
    } else {
        let l = if exists|i: int| 0 <= i < s.len() && s[i] == '\n' {
            s.take(choose|i: int| 0 <= i < s.len() && s[i] == '\n' && forall|j: int| 0 <= j < i ==> s[j] != '\n')
        } else {
            s
        };
        Some(if l.len() > 0 && l.last() == '\r' { l.drop_last() } else { l })
    }
}

// ------------------------------------------------------------------ lemmas --

proof fn lemma_lt_irreflexive(a: Seq<char>)
    ensures
        !seq_lt(a, a),
    decreases a.len(),
{
    if a.len() > 0 {
        lemma_lt_irreflexive(a.drop_first());
    }
}

/// `seq_lt` is a strict total order.
pub proof fn lemma_lt_total(a: Seq<char>, b: Seq<char>)
    ensures
        a == b || seq_lt(a, b) || seq_lt(b, a),
        !(seq_lt(a, b) && seq_lt(b, a)),
    decreases a.len(),
{
    if a.len() > 0 && b.len() > 0 {
        if a[0] == b[0] {
            lemma_lt_total(a.drop_first(), b.drop_first());
            if a.drop_first() == b.drop_first() {
                assert(a =~= seq![a[0]] + a.drop_first());
                assert(b =~= seq![b[0]] + b.drop_first());
            }
        } else {
            assert((a[0] as int) != (b[0] as int));
        }
    }
}

/// `seq_lt` is transitive.
pub proof fn lemma_lt_transitive(a: Seq<char>, b: Seq<char>, c: Seq<char>)
    requires
        seq_lt(a, b),
        seq_lt(b, c),
    ensures
        seq_lt(a, c),
    decreases a.len(),
{
    if a.len() > 0 && b.len() > 0 && c.len() > 0 {
        if a[0] == b[0] && b[0] == c[0] {
            lemma_lt_transitive(a.drop_first(), b.drop_first(), c.drop_first());
        }
    }
}

// ------------------------------------------------------------------- exec --

/// The characters of `s`, in order.
pub fn chars_of(s: &str) -> (v: Vec<char>)
    ensures
        v@ == s@,
{
    let n = s.unicode_len();
    let mut v: Vec<char> = Vec::new();
    let mut i: usize = 0;
    while i < n
        invariant
            n == s@.len(),
            i <= n,
            v@ == s@.take(i as int),
        decreases n - i,
    {
        let c = s.get_char(i);
        v.push(c);
        i = i + 1;
        assert(v@ =~= s@.take(i as int));
    }
    assert(v@ =~= s@);
    v
}

/// `String::push`: appends one character.
#[verifier::external_body]
pub(crate) fn push_char(s: &mut String, c: char)
    ensures
        final(s)@ == old(s)@.push(c),
{
    s.push(c);
}

/// A `String` holding exactly `v`.
pub fn string_of(v: &Vec<char>) -> (s: String)
    ensures
        s@ == v@,
{
    let mut s = String::new();
    let mut i: usize = 0;
    while i < v.len()
        invariant
            i <= v.len(),
            s@ == v@.take(i as int),
        decreases v.len() - i,
    {
        push_char(&mut s, v[i]);
        i = i + 1;
        assert(s@ =~= v@.take(i as int));
    }
    assert(v@.take(v@.len() as int) =~= v@);
    s
}

/// An owned copy of `s`.
pub fn owned(s: &str) -> (r: String)
    ensures
        r@ == s@,
{
    s.to_owned()
}

/// `a` + `b`.
pub fn concat(a: &str, b: &str) -> (r: String)
    ensures
        r@ == a@ + b@,
{
    let mut r = a.to_owned();
    r.append(b);
    r
}

/// Character-wise equality of two slices of characters, from `lo` on.
fn chars_eq_from(a: &Vec<char>, b: &Vec<char>, lo: usize, at: usize, n: usize) -> (r: bool)
    requires
        lo + n <= a@.len(),
        at + n <= b@.len(),
    ensures
        r == (a@.subrange(lo as int, lo + n) == b@.subrange(at as int, at + n)),
{
    let mut k: usize = 0;
    while k < n
        invariant
            k <= n,
            lo + n <= a@.len(),
            at + n <= b@.len(),
            a@.subrange(lo as int, lo + k) == b@.subrange(at as int, at + k),
        decreases n - k,
    {
        assert(lo + k < a@.len() && at + k < b@.len());
        assert(a@.len() == a.len() && b@.len() == b.len());
        if a[lo + k] != b[at + k] {
            assert(a@.subrange(lo as int, lo + n)[k as int] != b@.subrange(at as int, at + n)[k as int]);
            return false;
        }
        k = k + 1;
        assert(a@.subrange(lo as int, lo + k) =~= a@.subrange(lo as int, lo + k - 1).push(a@[lo + k - 1]));
        assert(b@.subrange(at as int, at + k) =~= b@.subrange(at as int, at + k - 1).push(b@[at + k - 1]));
    }
    assert(a@.subrange(lo as int, lo + n) =~= b@.subrange(at as int, at + n));
    true
}

/// `a == b` on views.
pub fn str_eq(a: &str, b: &str) -> (r: bool)
    ensures
        r == (a@ == b@),
{
    let x = chars_of(a);
    let y = chars_of(b);
    if x.len() != y.len() {
        return false;
    }
    let r = chars_eq_from(&x, &y, 0, 0, x.len());
    assert(x@.subrange(0, x@.len() as int) =~= x@);
    assert(y@.subrange(0, y@.len() as int) =~= y@);
    r
}

/// `s` starts with `p`.
pub fn starts_with(s: &str, p: &str) -> (r: bool)
    ensures
        r == seq_starts_with(s@, p@),
{
    let x = chars_of(s);
    let y = chars_of(p);
    if y.len() > x.len() {
        return false;
    }
    let r = chars_eq_from(&x, &y, 0, 0, y.len());
    assert(y@.subrange(0, y@.len() as int) =~= y@);
    r
}

/// `s` ends with `p`.
pub fn ends_with(s: &str, p: &str) -> (r: bool)
    ensures
        r == seq_ends_with(s@, p@),
{
    let x = chars_of(s);
    let y = chars_of(p);
    if y.len() > x.len() {
        return false;
    }
    let r = chars_eq_from(&x, &y, x.len() - y.len(), 0, y.len());
    assert(y@.subrange(0, y@.len() as int) =~= y@);
    r
}

/// `n` occurs in `v` at position `i`.
fn occurs_at_exec(v: &Vec<char>, n: &Vec<char>, i: usize) -> (r: bool)
    ensures
        r == occurs_at(v@, n@, i as int),
{
    if n.len() > v.len() || i > v.len() - n.len() {
        return false;
    }
    let r = chars_eq_from(v, n, i, 0, n.len());
    assert(n@.subrange(0, n@.len() as int) =~= n@);
    r
}

/// `n` occurs in `s`.
pub fn contains(s: &str, n: &str) -> (r: bool)
    ensures
        r == seq_contains(s@, n@),
{
    let x = chars_of(s);
    let y = chars_of(n);
    if y.len() > x.len() {
        assert(x@ == s@ && y@ == n@);
        assert forall|i: int| !occurs_at(s@, n@, i) by {}
        return false;
    }
    let last = x.len() - y.len();
    let mut i: usize = 0;
    while i <= last
        invariant
            x@ == s@,
            y@ == n@,
            last == x@.len() - y@.len(),
            i <= last + 1,
            forall|j: int| 0 <= j < i ==> !occurs_at(s@, n@, j),
        decreases last + 1 - i,
    {
        if occurs_at_exec(&x, &y, i) {
            return true;
        }
        proof {
            if y@.len() == 0 {
                assert(s@.subrange(i as int, i as int) =~= n@);
            }
            assert(x@.len() == x.len());
        }
        i = i + 1;
    }
    assert forall|j: int| !occurs_at(s@, n@, j) by {
        if occurs_at(s@, n@, j) {
            assert(j <= last);
        }
    }
    false
}

/// `c` occurs in `s`.
pub fn contains_char(s: &str, c: char) -> (r: bool)
    ensures
        r == s@.contains(c),
{
    let x = chars_of(s);
    let mut i: usize = 0;
    while i < x.len()
        invariant
            x@ == s@,
            i <= x@.len(),
            forall|j: int| 0 <= j < i ==> x@[j] != c,
        decreases x.len() - i,
    {
        if x[i] == c {
            return true;
        }
        i = i + 1;
    }
    false
}

/// Strict lexicographic comparison, `a < b`.
pub fn less_than(a: &str, b: &str) -> (r: bool)
    ensures
        r == seq_lt(a@, b@),
{
    let x = chars_of(a);
    let y = chars_of(b);
    let mut i: usize = 0;
    assert(a@.skip(0) =~= a@ && b@.skip(0) =~= b@);
    while i < x.len() && i < y.len()
        invariant
            x@ == a@,
            y@ == b@,
            i <= x@.len(),
            i <= y@.len(),
            x@.take(i as int) == y@.take(i as int),
            seq_lt(a@, b@) == seq_lt(a@.skip(i as int), b@.skip(i as int)),
        decreases x.len() - i,
    {
        let xc = x[i];
        let yc = y[i];
        if xc != yc {
            assert(a@.skip(i as int)[0] == xc);
            assert(b@.skip(i as int)[0] == yc);
            return xc < yc;
        }
        assert(a@.skip(i as int).drop_first() =~= a@.skip(i + 1));
        assert(b@.skip(i as int).drop_first() =~= b@.skip(i + 1));
        i = i + 1;
        assert(x@.take(i as int) =~= x@.take(i - 1).push(xc));
        assert(y@.take(i as int) =~= y@.take(i - 1).push(yc));
    }
    assert(a@.skip(i as int).len() == a@.len() - i);
    i < y.len()
}

/// Every non-overlapping occurrence of `from` replaced by `to`, as `str::replace` does.
/// Appends all of `t` to `out`.
fn push_all(out: &mut Vec<char>, t: &Vec<char>)
    ensures
        final(out)@ == old(out)@ + t@,
{
    let mut k: usize = 0;
    while k < t.len()
        invariant
            k <= t@.len(),
            out@ == old(out)@ + t@.take(k as int),
        decreases t.len() - k,
    {
        out.push(t[k]);
        k = k + 1;
        assert(out@ =~= old(out)@ + t@.take(k as int));
    }
    assert(t@.take(t@.len() as int) =~= t@);
}

/// `s` with every non-overlapping occurrence of `from` replaced by `to`, as `str::replace`.
pub fn replace(s: &str, from: &str, to: &str) -> (r: String)
    ensures
        r@ == seq_replace(s@, from@, to@),
{
    let x = chars_of(s);
    let f = chars_of(from);
    let t = chars_of(to);
    let mut out: Vec<char> = Vec::new();
    let mut i: usize = 0;
    assert(s@.skip(0) =~= s@);
    if f.len() == 0 {
        while i < x.len()
            invariant
                x@ == s@,
                t@ == to@,
                from@.len() == 0,
                i <= x@.len(),
                out@ + seq_replace(s@.skip(i as int), from@, to@) == seq_replace(s@, from@, to@),
            decreases x.len() - i,
        {
            let ghost rest = s@.skip(i as int);
            let ghost before = out@;
            push_all(&mut out, &t);
            out.push(x[i]);
            assert(rest.drop_first() =~= s@.skip(i + 1));
            assert(out@ + seq_replace(s@.skip(i + 1), from@, to@) =~= before + (t@ + seq![rest[0]] + seq_replace(
                rest.drop_first(),
                from@,
                to@,
            )));
            i = i + 1;
        }
        assert(s@.skip(i as int).len() == 0);
        push_all(&mut out, &t);
        return string_of(&out);
    }
    while i < x.len()
        invariant
            x@ == s@,
            f@ == from@,
            t@ == to@,
            f@.len() > 0,
            i <= x@.len(),
            out@ + seq_replace(s@.skip(i as int), from@, to@) == seq_replace(s@, from@, to@),
        decreases x.len() - i,
    {
        let ghost rest = s@.skip(i as int);
        if occurs_at_exec(&x, &f, i) {
            assert(rest.subrange(0, f@.len() as int) =~= x@.subrange(i as int, i + f@.len()));
            assert(seq_starts_with(rest, from@));
            let mut k: usize = 0;
            let ghost before = out@;
            while k < t.len()
                invariant
                    k <= t@.len(),
                    out@ == before + t@.take(k as int),
                decreases t.len() - k,
            {
                out.push(t[k]);
                k = k + 1;
                assert(out@ =~= before + t@.take(k as int));
            }
            assert(t@.take(t@.len() as int) =~= t@);
            assert(rest.skip(f@.len() as int) =~= s@.skip(i + f@.len()));
            assert(out@ + seq_replace(s@.skip(i + f@.len()), from@, to@) =~= before + (t@ + seq_replace(rest.skip(f@.len() as int), from@, to@)));
            i = i + f.len();
        } else {
            assert(!seq_starts_with(rest, from@)) by {
                if seq_starts_with(rest, from@) {
                    assert(rest.subrange(0, f@.len() as int) =~= x@.subrange(i as int, i + f@.len()));
                }
            }
            let ghost before = out@;
            out.push(x[i]);
            assert(rest.drop_first() =~= s@.skip(i + 1));
            assert(out@ + seq_replace(s@.skip(i + 1), from@, to@) =~= before + (seq![rest[0]] + seq_replace(rest.drop_first(), from@, to@)));
            i = i + 1;
        }
    }
    assert(s@.skip(i as int).len() == 0);
    assert(out@ + seq_replace(s@.skip(i as int), from@, to@) =~= out@);
    string_of(&out)
}

/// What occurs in `s` occurs in `a + s + b`.
pub proof fn lemma_contains_within(a: Seq<char>, s: Seq<char>, b: Seq<char>, n: Seq<char>)
    requires
        seq_contains(s, n),
    ensures
        seq_contains(a + s + b, n),
{
    let i = choose|i: int| occurs_at(s, n, i);
    let t = a + s + b;
    assert(t.subrange(a.len() + i, a.len() + i + n.len()) =~= s.subrange(i, i + n.len()));
    assert(occurs_at(t, n, a.len() + i));
}

/// Each part occurs in the join of the parts.
pub proof fn lemma_join_contains_part(parts: Seq<Seq<char>>, sep: Seq<char>, i: int)
    requires
        0 <= i < parts.len(),
    ensures
        seq_contains(seq_join(parts, sep), parts[i]),
    decreases parts.len(),
{
    let e = Seq::<char>::empty();
    if parts.len() == 1 {
        assert(parts[0].subrange(0, parts[0].len() as int) =~= parts[0]);
        assert(occurs_at(parts[0], parts[0], 0));
    } else if i == parts.len() - 1 {
        let last = parts.last();
        assert(last.subrange(0, last.len() as int) =~= last);
        assert(occurs_at(last, last, 0));
        lemma_contains_within(seq_join(parts.drop_last(), sep) + sep, last, e, last);
        assert(seq_join(parts.drop_last(), sep) + sep + last + e =~= seq_join(parts, sep));
    } else {
        assert(parts.drop_last()[i] == parts[i]);
        lemma_join_contains_part(parts.drop_last(), sep, i);
        lemma_contains_within(e, seq_join(parts.drop_last(), sep), sep + parts.last(), parts[i]);
        assert(e + seq_join(parts.drop_last(), sep) + (sep + parts.last()) =~= seq_join(parts, sep));
    }
}

/// The parts joined with `sep` between them.
pub fn join(parts: &Vec<String>, sep: &str) -> (r: String)
    ensures
        r@ == seq_join(parts@.map_values(|p: String| p@), sep@),
{
    let ghost views = parts@.map_values(|p: String| p@);
    let mut r = String::new();
    let mut i: usize = 0;
    while i < parts.len()
        invariant
            i <= parts@.len(),
            views == parts@.map_values(|p: String| p@),
            r@ == seq_join(views.take(i as int), sep@),
        decreases parts.len() - i,
    {
        assert(views.take(i + 1).drop_last() =~= views.take(i as int));
        if i > 0 {
            r.append(sep);
        }
        r.append(parts[i].as_str());
        i = i + 1;
        assert(views.take(i as int).last() == parts@[i - 1]@);
        if i == 1 {
            assert(views.take(1)[0] == parts@[0]@);
            assert(r@ =~= seq_join(views.take(i as int), sep@));
        }
    }
    assert(views.take(parts@.len() as int) =~= views);
    r
}

/// Unicode white space, as `char::is_whitespace` decides it.
pub fn is_whitespace(c: char) -> (r: bool)
    ensures
        r == is_white_space(c),
{
    let u = c as u32;
    (0x09 <= u && u <= 0x0d) || u == 0x20 || u == 0x85 || u == 0xa0 || u == 0x1680 || (0x2000
        <= u && u <= 0x200a) || u == 0x2028 || u == 0x2029 || u == 0x202f || u == 0x205f || u
        == 0x3000
}

proof fn lemma_lead_ws(s: Seq<char>, i: int)
    requires
        0 <= i <= s.len(),
        forall|j: int| 0 <= j < i ==> is_white_space(s[j]),
    ensures
        lead_ws(s) == i + lead_ws(s.skip(i)),
    decreases i,
{
    if i > 0 {
        assert(s.skip(1) =~= s.drop_first());
        lemma_lead_ws(s.drop_first(), i - 1);
        assert(s.drop_first().skip(i - 1) =~= s.skip(i));
    } else {
        assert(s.skip(0) =~= s);
    }
}

proof fn lemma_trail_ws(s: Seq<char>, i: int)
    requires
        0 <= i <= s.len(),
        forall|j: int| s.len() - i <= j < s.len() ==> is_white_space(s[j]),
    ensures
        trail_ws(s) == i + trail_ws(s.take(s.len() - i)),
    decreases i,
{
    if i > 0 {
        lemma_trail_ws(s.drop_last(), i - 1);
        assert(s.drop_last().take(s.drop_last().len() - (i - 1)) =~= s.take(s.len() - i));
    } else {
        assert(s.take(s.len() as int) =~= s);
    }
}

proof fn lemma_trail_bounded(s: Seq<char>)
    ensures
        trail_ws(s) <= s.len(),
        trail_ws(s) < s.len() ==> !is_white_space(s[s.len() - 1 - trail_ws(s)]),
        forall|j: int| s.len() - trail_ws(s) <= j < s.len() ==> is_white_space(s[j]),
    decreases s.len(),
{
    if s.len() > 0 && is_white_space(s.last()) {
        lemma_trail_bounded(s.drop_last());
        assert forall|j: int| s.len() - trail_ws(s) <= j < s.len() implies is_white_space(s[j]) by {
            if j < s.len() - 1 {
                assert(s[j] == s.drop_last()[j]);
            }
        }
        if trail_ws(s) < s.len() {
            assert(s[s.len() - 1 - trail_ws(s)] == s.drop_last()[s.drop_last().len() - 1 - trail_ws(s.drop_last())]);
        }
    }
}

/// `s` without leading and trailing white space, as `str::trim` gives it.
pub fn trim(s: &str) -> (r: String)
    ensures
        r@ == seq_trim(s@),
{
    let x = chars_of(s);
    let n = x.len();
    let mut a: usize = 0;
    while a < n && is_whitespace(x[a])
        invariant
            x@ == s@,
            n == x@.len(),
            a <= n,
            forall|j: int| 0 <= j < a ==> is_white_space(x@[j]),
        decreases n - a,
    {
        a = a + 1;
    }
    proof {
        lemma_lead_ws(s@, a as int);
        if a < n {
            assert(s@.skip(a as int)[0] == s@[a as int]);
        } else {
            assert(s@.skip(a as int).len() == 0);
        }
    }
    if a == n {
        return String::new();
    }
    let mut b: usize = n;
    while b > a && is_whitespace(x[b - 1])
        invariant
            x@ == s@,
            n == x@.len(),
            a < n,
            a <= b <= n,
            forall|j: int| b <= j < n ==> is_white_space(x@[j]),
        decreases b,
    {
        b = b - 1;
    }
    proof {
        lemma_trail_ws(s@, (n - b) as int);
        assert(s@.take(b as int).len() == b);
        if b > a {
            assert(s@.take(b as int).last() == s@[b - 1]);
        }
        assert(!is_white_space(s@[a as int]));
        assert(b > a);
    }
    let mut out: Vec<char> = Vec::new();
    let mut k: usize = a;
    while k < b
        invariant
            x@ == s@,
            a <= k <= b <= n,
            n == x@.len(),
            out@ == s@.subrange(a as int, k as int),
        decreases b - k,
    {
        out.push(x[k]);
        k = k + 1;
        assert(out@ =~= s@.subrange(a as int, k as int));
    }
    string_of(&out)
}

/// `s` without trailing white space, as `str::trim_end` gives it.
pub open spec fn seq_trim_end(s: Seq<char>) -> Seq<char> {
    s.take(s.len() - trail_ws(s))
}

/// `s` without trailing white space.
pub fn trim_end(s: &str) -> (r: String)
    ensures
        r@ == seq_trim_end(s@),
{
    let x = chars_of(s);
    let n = x.len();
    let mut b: usize = n;
    while b > 0 && is_whitespace(x[b - 1])
        invariant
            x@ == s@,
            n == x@.len(),
            b <= n,
            forall|j: int| b <= j < n ==> is_white_space(x@[j]),
        decreases b,
    {
        b = b - 1;
    }
    proof {
        lemma_trail_ws(s@, (n - b) as int);
        if b > 0 {
            assert(s@.take(b as int).last() == s@[b - 1]);
        }
        assert(s@.take(b as int).len() == b);
    }
    slice_chars(s, 0, b)
}

/// The views of a sequence of strings.
pub open spec fn views(v: Seq<String>) -> Seq<Seq<char>> {
    v.map_values(|x: String| x@)
}

/// Each string comes strictly before the next.
pub open spec fn strictly_sorted(v: Seq<Seq<char>>) -> bool {
    forall|i: int, j: int| 0 <= i < j < v.len() ==> seq_lt(v[i], v[j])
}

/// Add `s` to the strictly sorted `v`, unless it is there already.
pub fn insert_unique_sorted(v: &mut Vec<String>, s: &str)
    requires
        strictly_sorted(views(old(v)@)),
    ensures
        strictly_sorted(views(final(v)@)),
        forall|x: Seq<char>| views(final(v)@).contains(x) <==> (views(old(v)@).contains(x) || x == s@),
{
    let ghost ov = views(v@);
    let mut p: usize = 0;
    while p < v.len() && less_than(v[p].as_str(), s)
        invariant
            views(v@) == ov,
            p <= ov.len(),
            forall|i: int| 0 <= i < p ==> seq_lt(ov[i], s@),
        decreases v.len() - p,
    {
        assert(ov[p as int] == v@[p as int]@);
        p = p + 1;
    }
    if p < v.len() {
        assert(ov[p as int] == v@[p as int]@);
        proof {
            lemma_lt_total(ov[p as int], s@);
        }
        if str_eq(v[p].as_str(), s) {
            return;
        }
    }
    let ghost old_v = v@;
    v.insert(p, owned(s));
    proof {
        let nv = views(v@);
        assert(nv =~= ov.insert(p as int, s@));
        assert forall|i: int, j: int| 0 <= i < j < nv.len() implies seq_lt(nv[i], nv[j]) by {
            if j < p {
            } else if j == p {
            } else if i < p {
                assert(nv[j] == ov[j - 1]);
                assert(seq_lt(s@, ov[p as int]));
                if j - 1 > p {
                    lemma_lt_transitive(s@, ov[p as int], ov[j - 1]);
                }
                lemma_lt_transitive(nv[i], s@, nv[j]);
            } else if i == p {
                assert(nv[j] == ov[j - 1]);
                if j - 1 > p {
                    lemma_lt_transitive(s@, ov[p as int], ov[j - 1]);
                }
            } else {
                assert(nv[i] == ov[i - 1] && nv[j] == ov[j - 1]);
            }
        }
        assert forall|x: Seq<char>| nv.contains(x) <==> (ov.contains(x) || x == s@) by {
            if nv.contains(x) {
                let k = choose|k: int| 0 <= k < nv.len() && nv[k] == x;
                if k < p {
                    assert(ov[k] == x);
                } else if k > p {
                    assert(ov[k - 1] == x);
                }
            }
            if ov.contains(x) {
                let k = choose|k: int| 0 <= k < ov.len() && ov[k] == x;
                if k < p {
                    assert(nv[k] == x);
                } else {
                    assert(nv[k + 1] == x);
                }
            }
            if x == s@ {
                assert(nv[p as int] == x);
            }
        }
    }
}

/// The characters of `s` from index `lo` up to `hi`.
pub fn slice_chars(s: &str, lo: usize, hi: usize) -> (r: String)
    requires
        lo <= hi <= s@.len(),
    ensures
        r@ == s@.subrange(lo as int, hi as int),
{
    let x = chars_of(s);
    let mut out: Vec<char> = Vec::new();
    let mut k: usize = lo;
    while k < hi
        invariant
            x@ == s@,
            lo <= k <= hi <= x@.len(),
            out@ == s@.subrange(lo as int, k as int),
        decreases hi - k,
    {
        out.push(x[k]);
        k = k + 1;
        assert(out@ =~= s@.subrange(lo as int, k as int));
    }
    string_of(&out)
}

/// At most the first `n` characters of `s`.
pub fn take_chars(s: &str, n: usize) -> (r: String)
    ensures
        r@ == s@.take(if n <= s@.len() { n as int } else { s@.len() as int }),
{
    let len = s.unicode_len();
    let hi = if n <= len { n } else { len };
    slice_chars(s, 0, hi)
}

proof fn lemma_decimal_len(n: nat)
    ensures
        decimal(n).len() >= 1,
    decreases n,
{
    if n >= 10 {
        lemma_decimal_len(n / 10);
    }
}

/// The lower-case hex digit for `d < 16`.
fn hex_char(d: u8) -> (c: char)
    requires
        d < 16,
    ensures
        c == hex_digit(d as nat),
        d < 10 ==> c == digit(d as nat),
{
    match d {
        0 => '0',
        1 => '1',
        2 => '2',
        3 => '3',
        4 => '4',
        5 => '5',
        6 => '6',
        7 => '7',
        8 => '8',
        9 => '9',
        10 => 'a',
        11 => 'b',
        12 => 'c',
        13 => 'd',
        14 => 'e',
        _ => 'f',
    }
}

/// The decimal representation of `n`, as `usize::to_string` gives it.
pub fn decimal_usize(n: usize) -> (r: String)
    ensures
        r@ == decimal(n as nat),
{
    let mut digits: Vec<char> = Vec::new();
    let mut m: usize = n;
    // digits are collected least significant first
    while m >= 10
        invariant
            decimal(n as nat) == decimal(m as nat) + digits@.reverse(),
        decreases m,
    {
        let d = m % 10;
        let ch: char = hex_char(d as u8);
        let ghost before = digits@;
        let ghost gm = m;
        digits.push(ch);
        m = m / 10;
        assert(digits@.reverse() =~= seq![ch] + before.reverse());
        assert(decimal(gm as nat) == decimal(m as nat).push(ch));
        assert(decimal(n as nat) =~= decimal(m as nat) + digits@.reverse());
    }
    let ch: char = hex_char(m as u8);
    let ghost before = digits@;
    digits.push(ch);
    assert(digits@.reverse() =~= seq![ch] + before.reverse());
    assert(decimal(m as nat) == seq![ch]);
    assert(decimal(n as nat) =~= digits@.reverse());
    let mut out: Vec<char> = Vec::new();
    let mut k: usize = digits.len();
    while k > 0
        invariant
            k <= digits@.len(),
            out@ == digits@.reverse().take(digits@.len() - k),
        decreases k,
    {
        k = k - 1;
        out.push(digits[k]);
        assert(out@ =~= digits@.reverse().take(digits@.len() - k));
    }
    assert(digits@.reverse().take(digits@.len() as int) =~= digits@.reverse());
    assert(decimal(n as nat) == out@);
    string_of(&out)
}

/// The decimal representation of `n`, as `u32::to_string` gives it.
pub fn decimal_string(n: u32) -> (r: String)
    ensures
        r@ == decimal(n as nat),
{
    decimal_usize(n as usize)
}

/// Two lower-case hex digits per byte.
pub fn hex_string(b: &Vec<u8>) -> (r: String)
    ensures
        r@ == hex_lower(b@),
{
    let mut out: Vec<char> = Vec::new();
    let mut i: usize = 0;
    while i < b.len()
        invariant
            i <= b@.len(),
            out@ == hex_lower(b@.take(i as int)),
        decreases b.len() - i,
    {
        let x = b[i];
        let hi = x / 16;
        let lo = x % 16;
        let ch = hex_char(hi);
        let cl = hex_char(lo);
        assert(ch == hex_digit(hi as nat));
        assert(cl == hex_digit(lo as nat));
        out.push(ch);
        out.push(cl);
        assert(b@.take(i + 1).drop_last() =~= b@.take(i as int));
        i = i + 1;
        assert(out@ =~= hex_lower(b@.take(i as int)));
    }
    assert(b@.take(b@.len() as int) =~= b@);
    string_of(&out)
}

/// The first line of `s`, as `s.lines().next()` yields it.
pub fn first_line_of(s: &str) -> (r: Option<String>)
    ensures
        r matches Some(l) ==> first_line(s@) == Some(l@),
        r is None ==> first_line(s@) is None,
{
    let x = chars_of(s);
    if x.len() == 0 {
        return None;
    }
    let mut i: usize = 0;
    while i < x.len() && x[i] != '\n'
        invariant
            x@ == s@,
            i <= x@.len(),
            forall|j: int| 0 <= j < i ==> x@[j] != '\n',
        decreases x.len() - i,
    {
        i = i + 1;
    }
    proof {
        if i < x.len() {
            let k = choose|k: int| 0 <= k < s@.len() && s@[k] == '\n' && forall|j: int| 0 <= j < k ==> s@[j] != '\n';
            assert(k == i) by {
                if k < i {
                } else if k > i {
                    assert(s@[i as int] == '\n');
                }
            }
        } else {
            assert(!exists|j: int| 0 <= j < s@.len() && s@[j] == '\n');
            assert(s@.take(i as int) =~= s@);
        }
    }
    let end = if i > 0 && x[i - 1] == '\r' { i - 1 } else { i };
    let l = slice_chars(s, 0, end);
    proof {
        let t = s@.take(i as int);
        if i > 0 && x@[i - 1] == '\r' {
            assert(t.drop_last() =~= s@.subrange(0, end as int));
        } else {
            assert(t =~= s@.subrange(0, end as int));
        }
    }
    Some(l)
}

} // verus!
