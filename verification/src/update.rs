//! Deciding whether a release is worth announcing, and how.
use vstd::prelude::*;

use crate::daemon::{all_digits, digits_value, lemma_digits_value_grows};
use crate::foreign::Timestamp;
use crate::matter::split_on;
use crate::text::{
    chars_of, find_char_from_pub, lemma_index_of_char_pub, lemma_lex_lt_irreflexive, lemma_lex_lt_transitive,
    lex_lt, owned, push_str, str_eq, str_lt, string_of_range,
};

verus! {

/// Checks for releases at most once a day, remembering the last check
/// in a cache file.
pub struct UpdateChecker {
    pub cache_path: String,
    pub current_version: String,
}

/// How long to wait between two checks, in nanoseconds: a day.
pub open spec fn check_interval_nanos() -> int {
    86_400_000_000_000int
}

/// The nanoseconds from `earlier` to `later`.
pub open spec fn elapsed_nanos(earlier: Timestamp, later: Timestamp) -> int {
    (later.secs - earlier.secs) * 1_000_000_000 + (later.nanos - earlier.nanos)
}

/// `s` without its leading `v` characters.
pub open spec fn strip_leading_v(s: Seq<char>) -> Seq<char>
    decreases s.len(),
{
    if s.len() > 0 && s[0] == 'v' {
        strip_leading_v(s.drop_first())
    } else {
        s
    }
}

/// The dot-separated parts of a version, without its leading `v`s.
pub open spec fn version_parts(s: Seq<char>) -> Seq<Seq<char>> {
    split_on(strip_leading_v(s), '.')
}

/// Whether every part is a run of ASCII digits whose value fits in a `u64`.
pub open spec fn numeric_parts(p: Seq<Seq<char>>) -> bool {
    forall|i: int| 0 <= i < p.len() ==> all_digits(#[trigger] p[i]) && digits_value(p[i]) <= u64::MAX
}

/// The numbers that the parts denote.
pub open spec fn part_numbers(p: Seq<Seq<char>>) -> Seq<int> {
    p.map_values(|d: Seq<char>| digits_value(d))
}

/// The `i`th number of a version, zero past its last part.
pub open spec fn number_at(a: Seq<int>, i: int) -> int {
    if 0 <= i < a.len() {
        a[i]
    } else {
        0
    }
}

/// Whether the numbers `a` come before `b` from position `i` on: at the
/// first position where they differ, `a`'s is smaller (a missing number
/// counts as zero, so `1.2` and `1.2.0` are the same version).
pub open spec fn numbers_before_from(a: Seq<int>, b: Seq<int>, i: int) -> bool
    decreases a.len() + b.len() - i,
{
    if i >= a.len() && i >= b.len() {
        false
    } else if number_at(a, i) != number_at(b, i) {
        number_at(a, i) < number_at(b, i)
    } else {
        numbers_before_from(a, b, i + 1)
    }
}

/// Whether release `latest` is newer than version `current`. Without
/// leading `v`s, versions whose dot-separated parts are all numbers (each
/// fitting in a `u64`) are compared number by number, so `0.10.0` is newer
/// than `0.9.0`; any other pair is compared as text, and is newer when it
/// differs and sorts after the running version character by character.
pub open spec fn is_newer_version(current: Seq<char>, latest: Seq<char>) -> bool {
    let c = version_parts(current);
    let l = version_parts(latest);
    if numeric_parts(c) && numeric_parts(l) {
        numbers_before_from(part_numbers(c), part_numbers(l), 0)
    } else {
        strip_leading_v(latest) != strip_leading_v(current) && lex_lt(
            strip_leading_v(current),
            strip_leading_v(latest),
        )
    }
}

/// The announcement of release `latest` to users of version `current`.
pub open spec fn notification_text(current: Seq<char>, latest: Seq<char>) -> Seq<char> {
    "\n📢 Update available: v"@ + current + " → "@ + latest
        + "\n   Run: curl -fsSL https://github.com/HelixoidLLC/pmsynapse/releases/latest | sh\n"@
}

/// `s` without its leading `v` characters.
fn trim_leading_v(s: &str) -> (r: String)
    ensures
        r@ == strip_leading_v(s@),
{
    let v = chars_of(s);
    let mut i: usize = 0;
    assert(v@.subrange(0, v@.len() as int) =~= v@);
    while i < v.len() && v[i] == 'v'
        invariant
            i <= v.len(),
            strip_leading_v(s@) == strip_leading_v(v@.subrange(i as int, v@.len() as int)),
            v@ == s@,
        decreases v.len() - i,
    {
        assert(v@.subrange(i as int, v@.len() as int).drop_first() =~= v@.subrange(i + 1, v@.len() as int));
        i = i + 1;
    }
    string_of_range(&v, i, v.len())
}

/// The number that the characters `v[start..end]` denote, when they are one
/// or more ASCII digits and it fits in a `u64`.
fn digits_number(v: &Vec<char>, start: usize, end: usize) -> (r: Option<u64>)
    requires
        start <= end <= v.len(),
    ensures
        match r {
            Some(n) => all_digits(v@.subrange(start as int, end as int)) && digits_value(
                v@.subrange(start as int, end as int),
            ) <= u64::MAX && n == digits_value(v@.subrange(start as int, end as int)),
            None => !(all_digits(v@.subrange(start as int, end as int)) && digits_value(
                v@.subrange(start as int, end as int),
            ) <= u64::MAX),
        },
{
    let ghost d = v@.subrange(start as int, end as int);
    if start == end {
        return None;
    }
    let mut acc: u128 = 0;
    let mut i: usize = start;
    while i < end
        invariant
            start <= i <= end <= v.len(),
            start < end,
            d == v@.subrange(start as int, end as int),
            acc == digits_value(d.take(i - start)),
            acc <= u64::MAX,
            forall|j: int| 0 <= j < i - start ==> '0' <= #[trigger] d[j] <= '9',
        decreases end - i,
    {
        let c = v[i];
        if c < '0' || c > '9' {
            assert(d[i - start] == c);
            return None;
        }
        let digit: u128 = (c as u32 - '0' as u32) as u128;
        proof {
            let t = d.take(i - start + 1);
            assert(t.drop_last() =~= d.take(i - start));
            assert(t.last() == c);
        }
        acc = acc * 10 + digit;
        i = i + 1;
        if acc > 0xffff_ffff_ffff_ffff {
            proof {
                if all_digits(d) {
                    lemma_digits_value_grows(d, i - start);
                }
            }
            return None;
        }
    }
    assert(d.take(d.len() as int) =~= d);
    Some(acc as u64)
}

/// The numbers of the dot-separated parts of `s`, when every part is numeric.
fn version_numbers(s: &str) -> (r: Option<Vec<u64>>)
    ensures
        match r {
            Some(n) => numeric_parts(split_on(s@, '.')) && n@.map_values(|x: u64| x as int) == part_numbers(
                split_on(s@, '.'),
            ),
            None => !numeric_parts(split_on(s@, '.')),
        },
{
    let v = chars_of(s);
    let mut out: Vec<u64> = Vec::new();
    let mut start: usize = 0;
    let ghost full = split_on(s@, '.');
    let ghost mut done: Seq<Seq<char>> = Seq::empty();
    assert(v@.skip(0) =~= v@);
    assert(done + full =~= full);
    loop
        invariant
            start <= v.len(),
            v@ == s@,
            full == split_on(s@, '.'),
            done + split_on(v@.skip(start as int), '.') == full,
            numeric_parts(done),
            out@.map_values(|x: u64| x as int) == part_numbers(done),
        decreases v.len() - start,
    {
        let end = find_char_from_pub(&v, '.', start);
        let ghost rest = v@.skip(start as int);
        proof {
            lemma_index_of_char_pub(rest, '.');
            assert(v@.subrange(start as int, end as int) =~= rest.take(end - start));
        }
        let ghost piece = rest.take(end - start);
        let ghost tail: Seq<Seq<char>> = if end == v.len() {
            Seq::empty()
        } else {
            split_on(v@.skip(end + 1), '.')
        };
        proof {
            if end == v.len() {
                assert(rest.take(end - start) =~= rest);
                assert(split_on(rest, '.') =~= seq![piece] + tail);
            } else {
                assert(rest.skip(end - start + 1) =~= v@.skip(end + 1));
                assert(split_on(rest, '.') =~= seq![piece] + tail);
            }
            assert(full =~= done.push(piece) + tail);
            assert(full[done.len() as int] == piece);
        }
        match digits_number(&v, start, end) {
            None => {
                assert(!(all_digits(full[done.len() as int]) && digits_value(full[done.len() as int]) <= u64::MAX));
                return None;
            },
            Some(n) => {
                proof {
                    assert(out@.push(n).map_values(|x: u64| x as int) =~= out@.map_values(|x: u64| x as int).push(
                        n as int,
                    ));
                    assert(part_numbers(done.push(piece)) =~= part_numbers(done).push(digits_value(piece)));
                    assert forall|i: int| 0 <= i < done.push(piece).len() implies all_digits(
                        #[trigger] done.push(piece)[i],
                    ) && digits_value(done.push(piece)[i]) <= u64::MAX by {
                        if i < done.len() {
                            assert(done.push(piece)[i] == done[i]);
                        }
                    }
                    done = done.push(piece);
                }
                out.push(n);
                if end == v.len() {
                    assert(done =~= full);
                    return Some(out);
                }
                start = end + 1;
            },
        }
    }
}

/// Whether the numbers `a` come before `b` (see `numbers_before_from`).
fn numbers_before(a: &Vec<u64>, b: &Vec<u64>) -> (r: bool)
    ensures
        r == numbers_before_from(a@.map_values(|x: u64| x as int), b@.map_values(|x: u64| x as int), 0),
{
    let ghost sa = a@.map_values(|x: u64| x as int);
    let ghost sb = b@.map_values(|x: u64| x as int);
    let mut i: usize = 0;
    while i < a.len() || i < b.len()
        invariant
            i <= a.len() || i <= b.len(),
            sa == a@.map_values(|x: u64| x as int),
            sb == b@.map_values(|x: u64| x as int),
            numbers_before_from(sa, sb, 0) == numbers_before_from(sa, sb, i as int),
        decreases a.len() + b.len() - i,
    {
        let x: u64 = if i < a.len() {
            a[i]
        } else {
            0
        };
        let y: u64 = if i < b.len() {
            b[i]
        } else {
            0
        };
        assert(x == number_at(sa, i as int));
        assert(y == number_at(sb, i as int));
        if x != y {
            return x < y;
        }
        i = i + 1;
    }
    false
}

impl UpdateChecker {
    /// Whether release `latest_version` is announced as an update: whether it
    /// is newer than the running version (see `is_newer_version`).
    pub fn is_update_available(&self, latest_version: &str) -> (r: bool)
        ensures
            r == is_newer_version(self.current_version@, latest_version@),
    {
        let latest = trim_leading_v(latest_version);
        let current = trim_leading_v(self.current_version.as_str());
        match (version_numbers(current.as_str()), version_numbers(latest.as_str())) {
            (Some(c), Some(l)) => numbers_before(&c, &l),
            _ => !str_eq(latest.as_str(), current.as_str()) && str_lt(current.as_str(), latest.as_str()),
        }
    }

    /// The announcement of release `latest_version`.
    pub fn format_notification(&self, latest_version: &str) -> (r: String)
        ensures
            r@ == notification_text(self.current_version@, latest_version@),
    {
        let mut r = owned("\n📢 Update available: v");
        push_str(&mut r, self.current_version.as_str());
        push_str(&mut r, " → ");
        push_str(&mut r, latest_version);
        push_str(&mut r, "\n   Run: curl -fsSL https://github.com/HelixoidLLC/pmsynapse/releases/latest | sh\n");
        r
    }

    /// The announcement to show once the latest release `latest_version` is
    /// known: one when it is newer than the running version (see
    /// `is_update_available`), none otherwise.
    pub fn check_and_notify(&self, latest_version: &str) -> (r: Option<String>)
        ensures
            is_newer_version(self.current_version@, latest_version@) ==> (r matches Some(m) && m@ == notification_text(
                self.current_version@,
                latest_version@,
            )),
            !is_newer_version(self.current_version@, latest_version@) ==> r is None,
    {
        if self.is_update_available(latest_version) {
            Some(self.format_notification(latest_version))
        } else {
            None
        }
    }

    /// Whether to ask for the latest release at `now`: when no check was
    /// made yet, or the last one is more than a day old.
    pub fn should_check(last_check: Option<Timestamp>, now: Timestamp) -> (r: bool)
        ensures
            r == match last_check {
                None => true,
                Some(t) => elapsed_nanos(t, now) > check_interval_nanos(),
            },
    {
        match last_check {
            None => true,
            Some(t) => {
                let ds: i128 = now.secs as i128 - t.secs as i128;
                let dn: i128 = now.nanos as i128 - t.nanos as i128;
                assert(-0x1_0000_0000_0000_0000 <= ds <= 0x1_0000_0000_0000_0000);
                assert(ds * 1_000_000_000 <= 0x1_0000_0000_0000_0000 * 1_000_000_000 && ds * 1_000_000_000
                    >= -0x1_0000_0000_0000_0000 * 1_000_000_000) by (nonlinear_arith)
                    requires
                        -0x1_0000_0000_0000_0000 <= ds <= 0x1_0000_0000_0000_0000,
                ;
                let elapsed: i128 = ds * 1_000_000_000 + dn;
                elapsed > 86_400_000_000_000
            },
        }
    }
}

/// Why a response to the release query cannot be used.
#[derive(Debug, Clone, Copy, PartialEq, Eq, Structural)]
pub enum ReleaseProblem {
    /// The project has no published release (HTTP 404).
    NoReleases,
    /// The query failed with another status outside 200–299.
    RequestFailed,
}

/// What an HTTP status of the release query means: 404 is the absence of
/// releases, any other status outside 200–299 a failure.
pub fn release_status_problem(status: u16) -> (r: Option<ReleaseProblem>)
    ensures
        status == 404 ==> r == Some(ReleaseProblem::NoReleases),
        status != 404 && !(200 <= status <= 299) ==> r == Some(ReleaseProblem::RequestFailed),
        200 <= status <= 299 ==> r is None,
{
    if status == 404 {
        Some(ReleaseProblem::NoReleases)
    } else if status < 200 || status > 299 {
        Some(ReleaseProblem::RequestFailed)
    } else {
        None
    }
}

proof fn lemma_numbers_before_irreflexive(a: Seq<int>, i: int)
    ensures
        !numbers_before_from(a, a, i),
    decreases a.len() + a.len() - i,
{
    if i < a.len() {
        lemma_numbers_before_irreflexive(a, i + 1);
    }
}

proof fn lemma_numbers_before_asymmetric(a: Seq<int>, b: Seq<int>, i: int)
    ensures
        numbers_before_from(a, b, i) ==> !numbers_before_from(b, a, i),
    decreases a.len() + b.len() - i,
{
    if (i < a.len() || i < b.len()) && number_at(a, i) == number_at(b, i) {
        lemma_numbers_before_asymmetric(a, b, i + 1);
    }
}

/// The running version is never announced as its own update, and of two
/// versions at most one is newer than the other.
pub proof fn lemma_version_order(a: Seq<char>, b: Seq<char>)
    ensures
        !is_newer_version(a, a),
        is_newer_version(a, b) ==> !is_newer_version(b, a),
{
    lemma_lex_lt_irreflexive(strip_leading_v(a));
    lemma_numbers_before_irreflexive(part_numbers(version_parts(a)), 0);
    lemma_numbers_before_asymmetric(part_numbers(version_parts(a)), part_numbers(version_parts(b)), 0);
    if is_newer_version(a, b) && is_newer_version(b, a) && !(numeric_parts(version_parts(a)) && numeric_parts(
        version_parts(b),
    )) {
        lemma_lex_lt_transitive(strip_leading_v(a), strip_leading_v(b), strip_leading_v(a));
    }
}

} // verus!
