//! What revd keeps between runs lives under `~/.revd`. Opening and writing
//! the database happens elsewhere; here is what those steps compute.
use crate::git::{join_path, spec_join};
use crate::text::{chars_of, owned, slice_chars, str_eq};
use vstd::prelude::*;

verus! {

/// The seconds and nanoseconds since 1970-01-01T00:00:00Z that the system
/// clock reads (`SystemTime::now().duration_since(UNIX_EPOCH)`), or `None`
/// when it reads earlier. Nothing more is promised: it depends on the clock.
#[verifier::external_body]
fn unix_clock() -> (r: Option<(u64, u32)>)
    ensures
        r matches Some(t) ==> t.1 < 1_000_000_000,
{
    match std::time::SystemTime::now().duration_since(std::time::UNIX_EPOCH) {
        Ok(d) => Some((d.as_secs(), d.subsec_nanos())),
        Err(_) => None,
    }
}

/// The RFC 3339 text of the UTC instant `secs` seconds and `nsecs`
/// nanoseconds after 1970-01-01T00:00:00Z, as chrono writes it.
pub uninterp spec fn rfc3339(secs: int, nsecs: u32) -> Seq<char>;

/// The last second chrono can represent: 262142-12-31T23:59:59Z, that many
/// seconds after 1970-01-01T00:00:00Z.
pub const MAX_TIMESTAMP: u64 = 8_210_266_876_799;

/// `chrono::DateTime::<Utc>::from_timestamp(secs, nsecs)` followed by
/// `to_rfc3339`: `None` when the instant is out of chrono's range or `nsecs`
/// is invalid, else its RFC 3339 text. An instant from 1970 up to
/// [`MAX_TIMESTAMP`] with fewer than a billion nanoseconds is in range.
#[verifier::external_body]
fn rfc3339_utc(secs: i64, nsecs: u32) -> (r: Option<String>)
    ensures
        r matches Some(t) ==> t@ == rfc3339(secs as int, nsecs),
        0 <= secs <= MAX_TIMESTAMP && nsecs < 1_000_000_000 ==> r is Some,
{
    match chrono::DateTime::<chrono::Utc>::from_timestamp(secs, nsecs) {
        Some(d) => Some(d.to_rfc3339()),
        None => None,
    }
}

/// `t` is the RFC 3339 text of an instant at or after 1970-01-01T00:00:00Z.
pub open spec fn is_timestamp(t: Seq<char>) -> bool {
    exists|secs: int, nsecs: u32| 0 <= secs && nsecs < 1_000_000_000 && t == #[trigger] rfc3339(secs, nsecs)
}

/// The RFC 3339 text of the instant `secs` seconds and `nsecs` nanoseconds
/// after 1970-01-01T00:00:00Z; `None` past [`MAX_TIMESTAMP`] or for a
/// billion nanoseconds or more.
pub fn timestamp(secs: u64, nsecs: u32) -> (r: Option<String>)
    ensures
        secs <= MAX_TIMESTAMP && nsecs < 1_000_000_000 ==> (r matches Some(t) && t@ == rfc3339(secs as int, nsecs)),
        !(secs <= MAX_TIMESTAMP && nsecs < 1_000_000_000) ==> r is None,
{
    if secs <= MAX_TIMESTAMP && nsecs < 1_000_000_000 {
        let r = rfc3339_utc(secs as i64, nsecs);
        proof {
            assert(secs as i64 as int == secs as int);
        }
        r
    } else {
        None
    }
}

/// The current time as RFC 3339 text: the system clock's reading, formatted
/// by [`timestamp`]; `None` when the clock reads before 1970 or past
/// [`MAX_TIMESTAMP`]. Which instant that is depends on the clock.
pub fn now() -> (r: Option<String>)
    ensures
        r matches Some(t) ==> is_timestamp(t@),
{
    match unix_clock() {
        Some((secs, nsecs)) => timestamp(secs, nsecs),
        None => None,
    }
}

/// revd's directory under the home directory `home`.
pub fn revd_dir(home: &str) -> (r: String)
    ensures
        r@ == spec_join(home@, ".revd"@),
{
    join_path(home, ".revd")
}

/// The daemon's socket inside the revd directory.
pub fn socket_path(revd_dir: &str) -> (r: String)
    ensures
        r@ == spec_join(revd_dir@, "revd.sock"@),
{
    join_path(revd_dir, "revd.sock")
}

/// The database inside the revd directory.
pub fn db_path(revd_dir: &str) -> (r: String)
    ensures
        r@ == spec_join(revd_dir@, "revd.db"@),
{
    join_path(revd_dir, "revd.db")
}

/// Where the last `/`-separated component of `p` starts.
pub open spec fn component_start(p: Seq<char>) -> nat
    decreases p.len(),
{
    if p.len() == 0 {
        0
    } else if p.last() == '/' {
        p.len()
    } else {
        component_start(p.drop_last())
    }
}

/// The last component of a `/`-separated path, as `Path::file_name` gives
/// it: trailing `/` and `.` components are passed over; there is none when
/// the path ends in `..` or has no component at all.
pub open spec fn file_name(p: Seq<char>) -> Option<Seq<char>>
    decreases p.len(),
{
    if p.len() == 0 {
        None
    } else if p.last() == '/' {
        file_name(p.drop_last())
    } else {
        let k = component_start(p);
        proof {
            lemma_component_start(p.drop_last());
        }
        let c = p.subrange(k as int, p.len() as int);
        if c == "."@ {
            file_name(p.subrange(0, k as int))
        } else if c == ".."@ {
            None
        } else {
            Some(c)
        }
    }
}

/// The last component starts after the last `/`, or at the start.
pub proof fn lemma_component_start(p: Seq<char>)
    ensures
        component_start(p) <= p.len(),
        forall|i: int| component_start(p) <= i < p.len() ==> p[i] != '/',
        component_start(p) > 0 ==> p[component_start(p) - 1] == '/',
    decreases p.len(),
{
    if p.len() > 0 && p.last() != '/' {
        lemma_component_start(p.drop_last());
        assert forall|i: int| component_start(p) <= i < p.len() implies p[i] != '/' by {
            if i < p.len() - 1 {
                assert(p[i] == p.drop_last()[i]);
            }
        }
        if component_start(p) > 0 {
            assert(p[component_start(p) - 1] == p.drop_last()[component_start(p) - 1]);
        }
    }
}

/// The last component of a `/`-separated path, as `Path::file_name` gives it.
pub fn path_file_name(path: &str) -> (r: Option<String>)
    ensures
        match r {
            Some(n) => file_name(path@) == Some(n@),
            None => file_name(path@) is None,
        },
{
    let x = chars_of(path);
    let mut n: usize = x.len();
    assert(path@.take(n as int) =~= path@);
    while n > 0
        invariant
            n <= x@.len(),
            x@ == path@,
            file_name(path@) == file_name(path@.take(n as int)),
        decreases n,
    {
        let p = Ghost(path@.take(n as int));
        if x[n - 1] == '/' {
            assert(p@.last() == '/');
            assert(p@.drop_last() =~= path@.take(n - 1));
            n = n - 1;
        } else {
            // the start of the last component
            let mut k: usize = n - 1;
            assert(p@.take(n as int) =~= p@);
            while k > 0 && x[k - 1] != '/'
                invariant
                    k < n <= x@.len(),
                    x@ == path@,
                    p@ == path@.take(n as int),
                    p@.last() != '/',
                    component_start(p@) == component_start(p@.take(k + 1)),
                    forall|i: int| k <= i < n ==> p@[i] != '/',
                decreases k,
            {
                assert(p@.take(k + 1).last() == p@[k as int]);
                assert(p@.take(k + 1).drop_last() =~= p@.take(k as int));
                k = k - 1;
            }
            proof {
                let q = p@.take(k + 1);
                assert(q.last() == p@[k as int]);
                assert(p@[k as int] != '/');
                assert(component_start(q) == component_start(q.drop_last()));
                if k > 0 {
                    assert(q.drop_last() =~= p@.take(k as int));
                    assert(p@.take(k as int).last() == '/');
                    assert(component_start(q.drop_last()) == k);
                } else {
                    assert(q.drop_last().len() == 0);
                }
                assert(component_start(p@) == k);
            }
            let c = slice_chars(path, k, n);
            assert(c@ =~= p@.subrange(k as int, p@.len() as int));
            if str_eq(c.as_str(), ".") {
                assert(p@.subrange(0, k as int) =~= path@.take(k as int));
                n = k;
            } else if str_eq(c.as_str(), "..") {
                return None;
            } else {
                return Some(c);
            }
        }
    }
    assert(path@.take(0).len() == 0);
    None
}

/// The name revd records for the repository at `path`: its last path
/// component, or the whole path when it has none.
pub fn repo_name(path: &str) -> (r: String)
    ensures
        r@ == match file_name(path@) {
            Some(n) => n,
            None => path@,
        },
{
    match path_file_name(path) {
        Some(n) => n,
        None => owned(path),
    }
}

} // verus!
