//! Character-level string operations with specifications over `Seq<char>`.
use vstd::prelude::*;

verus! {

/// Appends one character to a string (std `String::push`).
#[verifier::external_body]
pub(crate) fn push_char(s: &mut String, c: char)
    ensures
        final(s)@ == old(s)@.push(c),
{
    s.push(c);
}

/// Appends a string slice to a string (std `String::push_str`).
#[verifier::external_body]
pub(crate) fn push_str(s: &mut String, t: &str)
    ensures
        final(s)@ == old(s)@ + t@,
{
    s.push_str(t);
}

/// The characters of a string, in order.
pub fn chars_of(s: &str) -> (v: Vec<char>)
    ensures
        v@ == s@,
{
    let mut v: Vec<char> = Vec::new();
    for c in it: s.chars()
        invariant
            v@ == it.seq().take(it.index() as int),
            it.seq() == s@,
    {
        v.push(c);
    }
    v
}

/// The string made of the characters `v[lo..hi]`.
pub fn string_of_range(v: &Vec<char>, lo: usize, hi: usize) -> (s: String)
    requires
        lo <= hi <= v.len(),
    ensures
        s@ == v@.subrange(lo as int, hi as int),
{
    let mut s = String::new();
    let mut i = lo;
    while i < hi
        invariant
            lo <= i <= hi <= v.len(),
            s@ == v@.subrange(lo as int, i as int),
        decreases hi - i,
    {
        push_char(&mut s, v[i]);
        i = i + 1;
    }
    s
}

/// The string made of all the characters of `v`.
pub fn string_of(v: &Vec<char>) -> (s: String)
    ensures
        s@ == v@,
{
    let s = string_of_range(v, 0, v.len());
    assert(v@.subrange(0, v@.len() as int) == v@);
    s
}

/// A fresh `String` holding the characters of `s`.
pub fn owned(s: &str) -> (r: String)
    ensures
        r@ == s@,
{
    s.to_owned()
}

/// Concatenation of two string slices.
pub fn concat2(a: &str, b: &str) -> (r: String)
    ensures
        r@ == a@ + b@,
{
    let mut r = owned(a);
    push_str(&mut r, b);
    r
}

/// Concatenation of three string slices.
pub fn concat3(a: &str, b: &str, c: &str) -> (r: String)
    ensures
        r@ == a@ + b@ + c@,
{
    let mut r = owned(a);
    push_str(&mut r, b);
    push_str(&mut r, c);
    r
}

/// Equality of two string slices.
pub fn str_eq(a: &str, b: &str) -> (r: bool)
    ensures
        r == (a@ == b@),
{
    let x = owned(a);
    let y = owned(b);
    x == y
}

/// `needle` occurs in `hay` at position `i`.
pub open spec fn occurs_at(hay: Seq<char>, needle: Seq<char>, i: int) -> bool {
    0 <= i && i + needle.len() <= hay.len() && hay.subrange(i, i + needle.len()) == needle
}

/// `needle` occurs somewhere in `hay`.
pub open spec fn contains_seq(hay: Seq<char>, needle: Seq<char>) -> bool {
    exists|i: int| occurs_at(hay, needle, i)
}

/// Position of the first occurrence of `needle` in `hay`, if any.
#[verifier::opaque]
pub open spec fn first_occurrence(hay: Seq<char>, needle: Seq<char>) -> Option<int> {
    if contains_seq(hay, needle) {
        Some(choose|i: int| occurs_at(hay, needle, i) && forall|j: int| 0 <= j < i ==> !occurs_at(hay, needle, j))
    } else {
        None
    }
}

/// Whether `needle` occurs in `hay` at position `i` (exec).
pub fn occurs_at_exec(hay: &Vec<char>, needle: &Vec<char>, i: usize) -> (r: bool)
    ensures
        r == occurs_at(hay@, needle@, i as int),
{
    if needle.len() > hay.len() || i > hay.len() - needle.len() {
        return false;
    }
    let mut k: usize = 0;
    while k < needle.len()
        invariant
            i + needle.len() <= hay.len(),
            k <= needle.len(),
            forall|m: int| 0 <= m < k ==> hay@[i + m] == needle@[m],
        decreases needle.len() - k,
    {
        if hay[i + k] != needle[k] {
            assert(hay@.subrange(i as int, i + needle.len())[k as int] != needle@[k as int]);
            return false;
        }
        k = k + 1;
    }
    assert(hay@.subrange(i as int, i + needle@.len()) =~= needle@);
    true
}

/// Position of the first occurrence of `needle` in `hay`, searching from `from`.
pub fn find_from(hay: &Vec<char>, needle: &Vec<char>, from: usize) -> (r: Option<usize>)
    ensures
        match r {
            Some(i) => from <= i && occurs_at(hay@, needle@, i as int) && forall|j: int|
                from <= j < i ==> !occurs_at(hay@, needle@, j),
            None => forall|j: int| from <= j ==> !occurs_at(hay@, needle@, j),
        },
{
    if needle.len() > hay.len() {
        return None;
    }
    let last = hay.len() - needle.len();
    let mut i = from;
    while i <= last
        invariant
            last == hay.len() - needle.len(),
            from <= i,
            forall|j: int| from <= j < i ==> !occurs_at(hay@, needle@, j),
        decreases last + 1 - i,
    {
        if occurs_at_exec(hay, needle, i) {
            return Some(i);
        }
        if i == last {
            return None;
        }
        i = i + 1;
    }
    None
}

/// Position of the first occurrence of `needle` in `hay`.
pub fn find(hay: &Vec<char>, needle: &Vec<char>) -> (r: Option<usize>)
    ensures
        r matches Some(i) ==> first_occurrence(hay@, needle@) == Some(i as int) && occurs_at(hay@, needle@, i as int),
        r is None ==> first_occurrence(hay@, needle@) is None,
{
    let r = find_from(hay, needle, 0);
    proof {
        reveal(first_occurrence);
    }
    match r {
        Some(i) => {
            assert(occurs_at(hay@, needle@, i as int));
            let ghost k = choose|k: int| occurs_at(hay@, needle@, k) && forall|j: int| 0 <= j < k ==> !occurs_at(hay@, needle@, j);
            assert(k == i as int) by {
                if k < i { } else if k > i { }
            }
        },
        None => {
            assert(!contains_seq(hay@, needle@));
        },
    }
    r
}

/// Whether `needle` occurs in the string `hay`.
pub fn str_contains(hay: &str, needle: &str) -> (r: bool)
    ensures
        r == contains_seq(hay@, needle@),
{
    let h = chars_of(hay);
    let n = chars_of(needle);
    let f = find_from(&h, &n, 0);
    match f {
        Some(i) => true,
        None => {
            assert(!contains_seq(hay@, needle@));
            false
        },
    }
}

/// Whether `s` begins with `p`.
pub fn str_starts_with(s: &str, p: &str) -> (r: bool)
    ensures
        r == p@.is_prefix_of(s@),
{
    let sv = chars_of(s);
    let pv = chars_of(p);
    let r = occurs_at_exec(&sv, &pv, 0);
    proof {
        if r {
            assert(sv@.subrange(0, pv@.len() as int) == pv@);
            assert forall|i: int| 0 <= i < pv@.len() implies pv@[i] == sv@[i] by {
                assert(sv@.subrange(0, pv@.len() as int)[i] == sv@[i]);
            }
        } else if p@.is_prefix_of(s@) {
            assert(sv@.subrange(0, pv@.len() as int) =~= pv@);
        }
    }
    r
}

/// Whether `s` ends with `p`.
pub fn str_ends_with(s: &str, p: &str) -> (r: bool)
    ensures
        r == p@.is_suffix_of(s@),
{
    let sv = chars_of(s);
    let pv = chars_of(p);
    if pv.len() > sv.len() {
        return false;
    }
    let start = sv.len() - pv.len();
    let r = occurs_at_exec(&sv, &pv, start);
    proof {
        if r {
            assert forall|i: int| 0 <= i < pv@.len() implies pv@[i] == sv@[sv@.len() - pv@.len() + i] by {
                assert(sv@.subrange(start as int, start + pv@.len())[i] == sv@[start + i]);
            }
        } else if p@.is_suffix_of(s@) {
            assert(sv@.subrange(start as int, start + pv@.len()) =~= pv@);
        }
    }
    r
}


/// Whether some string in `v` has the characters `s`.
pub open spec fn strings_contain(v: Seq<String>, s: Seq<char>) -> bool {
    exists|i: int| 0 <= i < v.len() && #[trigger] v[i]@ == s
}

/// Whether some string in `v` equals `s`.
pub fn vec_contains(v: &Vec<String>, s: &str) -> (r: bool)
    ensures
        r == strings_contain(v@, s@),
{
    let target = owned(s);
    let mut i: usize = 0;
    while i < v.len()
        invariant
            i <= v.len(),
            target@ == s@,
            forall|j: int| 0 <= j < i ==> #[trigger] v@[j]@ != s@,
        decreases v.len() - i,
    {
        if v[i] == target {
            assert(v@[i as int]@ == s@);
            return true;
        }
        i = i + 1;
    }
    false
}

/// Strict lexicographic order on character sequences, comparing code points
/// (the order of `str` and `String` comparison).
pub open spec fn lex_lt(a: Seq<char>, b: Seq<char>) -> bool
    decreases a.len(),
{
    if a.len() == 0 {
        b.len() > 0
    } else if b.len() == 0 {
        false
    } else if (a[0] as int) < (b[0] as int) {
        true
    } else if a[0] == b[0] {
        lex_lt(a.drop_first(), b.drop_first())
    } else {
        false
    }
}

/// `lex_lt` is irreflexive.
pub proof fn lemma_lex_lt_irreflexive(a: Seq<char>)
    ensures
        !lex_lt(a, a),
    decreases a.len(),
{
    if a.len() > 0 {
        lemma_lex_lt_irreflexive(a.drop_first());
    }
}

/// `lex_lt` is transitive.
pub proof fn lemma_lex_lt_transitive(a: Seq<char>, b: Seq<char>, c: Seq<char>)
    requires
        lex_lt(a, b),
        lex_lt(b, c),
    ensures
        lex_lt(a, c),
    decreases a.len(),
{
    if a.len() > 0 && b.len() > 0 && c.len() > 0 && a[0] == b[0] && b[0] == c[0] {
        lemma_lex_lt_transitive(a.drop_first(), b.drop_first(), c.drop_first());
    }
}

/// Two different sequences are ordered one way or the other.
pub proof fn lemma_lex_lt_total(a: Seq<char>, b: Seq<char>)
    requires
        a != b,
    ensures
        lex_lt(a, b) || lex_lt(b, a),
    decreases a.len(),
{
    if a.len() > 0 && b.len() > 0 && a[0] == b[0] {
        if a.drop_first() == b.drop_first() {
            assert(a =~= seq![a[0]] + a.drop_first());
            assert(b =~= seq![b[0]] + b.drop_first());
        }
        lemma_lex_lt_total(a.drop_first(), b.drop_first());
    } else if a.len() > 0 && b.len() > 0 {
        assert((a[0] as int) != (b[0] as int));
    } else if a.len() == 0 && b.len() == 0 {
        assert(a =~= b);
    }
}

/// Lexicographic comparison `a < b` of two strings.
pub fn str_lt(a: &str, b: &str) -> (r: bool)
    ensures
        r == lex_lt(a@, b@),
{
    let av = chars_of(a);
    let bv = chars_of(b);
    let mut i: usize = 0;
    assert(av@.skip(0) =~= av@);
    assert(bv@.skip(0) =~= bv@);
    while i < av.len() && i < bv.len() && av[i] == bv[i]
        invariant
            i <= av.len(),
            i <= bv.len(),
            av@.take(i as int) == bv@.take(i as int),
            lex_lt(av@, bv@) == lex_lt(av@.skip(i as int), bv@.skip(i as int)),
        decreases av.len() - i,
    {
        proof {
            let sa = av@.skip(i as int);
            let sb = bv@.skip(i as int);
            assert(sa.drop_first() =~= av@.skip(i + 1));
            assert(sb.drop_first() =~= bv@.skip(i + 1));
            assert(av@.take(i + 1) =~= av@.take(i as int).push(av@[i as int]));
            assert(bv@.take(i + 1) =~= bv@.take(i as int).push(bv@[i as int]));
        }
        i = i + 1;
    }
    let ghost sa = av@.skip(i as int);
    let ghost sb = bv@.skip(i as int);
    if i == av.len() {
        assert(sa.len() == 0);
        i < bv.len()
    } else if i == bv.len() {
        false
    } else {
        assert(sa[0] == av@[i as int] && sb[0] == bv@[i as int]);
        av[i] < bv[i]
    }
}

/// The character sequences of a sequence of strings.
pub open spec fn views(v: Seq<String>) -> Seq<Seq<char>> {
    v.map_values(|s: String| s@)
}

/// Strings in strictly increasing lexicographic order (hence without repeats).
pub open spec fn strictly_sorted(v: Seq<String>) -> bool {
    forall|i: int, j: int| 0 <= i < j < v.len() ==> lex_lt(#[trigger] v[i]@, #[trigger] v[j]@)
}

/// Inserts `s` into a strictly sorted vector unless an equal string is present.
pub fn insert_sorted_unique(v: &mut Vec<String>, s: String)
    requires
        strictly_sorted(old(v)@),
    ensures
        strictly_sorted(final(v)@),
        forall|x: Seq<char>|
            strings_contain(final(v)@, x) <==> (strings_contain(old(v)@, x) || x == s@),
{
    let ghost v0 = v@;
    let mut i: usize = 0;
    while i < v.len() && str_lt(v[i].as_str(), s.as_str())
        invariant
            v@ == v0,
            i <= v.len(),
            strictly_sorted(v0),
            forall|j: int| 0 <= j < i ==> lex_lt(#[trigger] v0[j]@, s@),
        decreases v.len() - i,
    {
        i = i + 1;
    }
    if i < v.len() && v[i] == s {
        assert(v@[i as int]@ == s@);
        return;
    }
    proof {
        if i < v@.len() {
            assert(!lex_lt(v0[i as int]@, s@));
            assert(v0[i as int]@ != s@);
            lemma_lex_lt_total(v0[i as int]@, s@);
            assert(lex_lt(s@, v0[i as int]@));
        }
    }
    v.insert(i, s);
    proof {
        let v1 = v@;
        assert forall|a: int, b: int| 0 <= a < b < v1.len() implies lex_lt(#[trigger] v1[a]@, #[trigger] v1[b]@) by {
            if b < i {
            } else if a < i && b == i {
            } else if a < i && b > i {
                assert(v1[b] == v0[b - 1]);
                if b - 1 > i {
                    lemma_lex_lt_transitive(v0[a]@, v0[i as int]@, v0[b - 1]@);
                }
                lemma_lex_lt_transitive(v0[a]@, s@, v0[i as int]@);
                if b - 1 > i {
                    lemma_lex_lt_transitive(v0[a]@, v0[i as int]@, v0[b - 1]@);
                }
            } else if a == i {
                assert(v1[b] == v0[b - 1]);
                if b - 1 > i {
                    lemma_lex_lt_transitive(s@, v0[i as int]@, v0[b - 1]@);
                }
            } else {
                assert(v1[a] == v0[a - 1]);
                assert(v1[b] == v0[b - 1]);
            }
        }
        assert forall|x: Seq<char>| strings_contain(v1, x) <==> (strings_contain(v0, x) || x == s@) by {
            if strings_contain(v1, x) {
                let k = choose|k: int| 0 <= k < v1.len() && #[trigger] v1[k]@ == x;
                if k < i {
                    assert(v0[k]@ == x);
                } else if k > i {
                    assert(v0[k - 1]@ == x);
                }
            }
            if strings_contain(v0, x) {
                let k = choose|k: int| 0 <= k < v0.len() && #[trigger] v0[k]@ == x;
                if k < i {
                    assert(v1[k]@ == x);
                } else {
                    assert(v1[k + 1]@ == x);
                }
            }
            if x == s@ {
                assert(v1[i as int]@ == x);
            }
        }
    }
}


/// Growing a prefix by one string adds exactly that string's characters.
pub proof fn lemma_strings_contain_take(v: Seq<String>, j: int, x: Seq<char>)
    requires
        0 <= j < v.len(),
    ensures
        strings_contain(v.take(j + 1), x) <==> (strings_contain(v.take(j), x) || v[j]@ == x),
{
    if strings_contain(v.take(j + 1), x) {
        let i = choose|i: int| 0 <= i < v.take(j + 1).len() && #[trigger] v.take(j + 1)[i]@ == x;
        if i < j {
            assert(v.take(j)[i]@ == x);
        }
    }
    if strings_contain(v.take(j), x) {
        let i = choose|i: int| 0 <= i < v.take(j).len() && #[trigger] v.take(j)[i]@ == x;
        assert(v.take(j + 1)[i]@ == x);
    }
    if v[j]@ == x {
        assert(v.take(j + 1)[j]@ == x);
    }
}

/// The whole sequence is its longest prefix.
pub proof fn lemma_strings_contain_take_all(v: Seq<String>, x: Seq<char>)
    ensures
        strings_contain(v.take(v.len() as int), x) == strings_contain(v, x),
{
    assert(v.take(v.len() as int) =~= v);
}

/// The characters of an optional string.
pub open spec fn opt_view(o: Option<String>) -> Option<Seq<char>> {
    match o {
        Some(s) => Some(s@),
        None => None,
    }
}

/// An optional string holding the characters of `s`.
pub fn some_owned(s: &str) -> (r: Option<String>)
    ensures
        opt_view(r) == Some(s@),
{
    Some(owned(s))
}

/// A copy of an optional string.
pub fn clone_opt(o: &Option<String>) -> (r: Option<String>)
    ensures
        r == *o,
{
    match o {
        Some(s) => Some(s.clone()),
        None => None,
    }
}

/// A copy of a vector of strings.
pub fn clone_strings(v: &Vec<String>) -> (r: Vec<String>)
    ensures
        r@ == v@,
{
    let mut r: Vec<String> = Vec::new();
    let mut i: usize = 0;
    while i < v.len()
        invariant
            i <= v.len(),
            r@ == v@.take(i as int),
        decreases v.len() - i,
    {
        r.push(v[i].clone());
        assert(r@ =~= v@.take(i + 1));
        i = i + 1;
    }
    assert(v@.take(v.len() as int) =~= v@);
    r
}

/// Extending path `base` by the relative path `seg`, with a `/` between
/// them unless `base` is empty or already ends with one; an absolute `seg`
/// replaces `base`.
pub open spec fn path_join_spec(base: Seq<char>, seg: Seq<char>) -> Seq<char> {
    if seg.len() > 0 && seg[0] == '/' {
        seg
    } else if base.len() == 0 || base.last() == '/' {
        base + seg
    } else {
        base + "/"@ + seg
    }
}

/// Joins two paths as `PathBuf::join` does on Unix.
pub fn path_join(base: &str, seg: &str) -> (r: String)
    ensures
        r@ == path_join_spec(base@, seg@),
{
    let bv = chars_of(base);
    let sv = chars_of(seg);
    if sv.len() > 0 && sv[0] == '/' {
        return owned(seg);
    }
    if bv.len() == 0 || bv[bv.len() - 1] == '/' {
        return concat2(base, seg);
    }
    concat3(base, "/", seg)
}

/// Equality of two vectors of strings, string by string.
pub fn strings_eq(a: &Vec<String>, b: &Vec<String>) -> (r: bool)
    ensures
        r == (views(a@) == views(b@)),
{
    if a.len() != b.len() {
        assert(views(a@).len() != views(b@).len());
        return false;
    }
    let mut i: usize = 0;
    while i < a.len()
        invariant
            a.len() == b.len(),
            i <= a.len(),
            forall|j: int| 0 <= j < i ==> #[trigger] a@[j]@ == b@[j]@,
        decreases a.len() - i,
    {
        if a[i] != b[i] {
            assert(views(a@)[i as int] != views(b@)[i as int]);
            return false;
        }
        i = i + 1;
    }
    assert(views(a@) =~= views(b@));
    true
}

/// The characters with the Unicode `White_Space` property, those for which
/// `char::is_whitespace` holds.
pub open spec fn is_white_space(c: char) -> bool {
    let n = c as int;
    ||| 0x9 <= n <= 0xd
    ||| n == 0x20
    ||| n == 0x85
    ||| n == 0xa0
    ||| n == 0x1680
    ||| 0x2000 <= n <= 0x200a
    ||| n == 0x2028
    ||| n == 0x2029
    ||| n == 0x202f
    ||| n == 0x205f
    ||| n == 0x3000
}

/// Whether `c` is white space.
pub fn is_white_space_char(c: char) -> (r: bool)
    ensures
        r == is_white_space(c),
{
    let n = c as u32;
    (0x9 <= n && n <= 0xd) || n == 0x20 || n == 0x85 || n == 0xa0 || n == 0x1680 || (0x2000 <= n && n
        <= 0x200a) || n == 0x2028 || n == 0x2029 || n == 0x202f || n == 0x205f || n == 0x3000
}

/// `s` without its trailing white space.
pub open spec fn trim_end_spec(s: Seq<char>) -> Seq<char>
    decreases s.len(),
{
    if s.len() > 0 && is_white_space(s.last()) {
        trim_end_spec(s.drop_last())
    } else {
        s
    }
}

/// `s` without its leading white space.
pub open spec fn trim_start_spec(s: Seq<char>) -> Seq<char>
    decreases s.len(),
{
    if s.len() > 0 && is_white_space(s[0]) {
        trim_start_spec(s.drop_first())
    } else {
        s
    }
}

/// The characters `v[lo..hi]` without trailing white space.
pub fn trim_end_range(v: &Vec<char>, lo: usize, hi: usize) -> (r: String)
    requires
        lo <= hi <= v.len(),
    ensures
        r@ == trim_end_spec(v@.subrange(lo as int, hi as int)),
{
    let mut j = hi;
    while j > lo && is_white_space_char(v[j - 1])
        invariant
            lo <= j <= hi <= v.len(),
            trim_end_spec(v@.subrange(lo as int, hi as int)) == trim_end_spec(v@.subrange(lo as int, j as int)),
        decreases j,
    {
        assert(v@.subrange(lo as int, j as int).drop_last() =~= v@.subrange(lo as int, j - 1));
        j = j - 1;
    }
    string_of_range(v, lo, j)
}

/// The characters `v[lo..hi]` without leading white space.
pub fn trim_start_range(v: &Vec<char>, lo: usize, hi: usize) -> (r: String)
    requires
        lo <= hi <= v.len(),
    ensures
        r@ == trim_start_spec(v@.subrange(lo as int, hi as int)),
{
    let mut j = lo;
    while j < hi && is_white_space_char(v[j])
        invariant
            lo <= j <= hi <= v.len(),
            trim_start_spec(v@.subrange(lo as int, hi as int)) == trim_start_spec(v@.subrange(j as int, hi as int)),
        decreases hi - j,
    {
        assert(v@.subrange(j as int, hi as int).drop_first() =~= v@.subrange(j + 1, hi as int));
        j = j + 1;
    }
    string_of_range(v, j, hi)
}

/// `s` without its trailing white space (`str::trim_end`).
pub fn trim_end(s: &str) -> (r: String)
    ensures
        r@ == trim_end_spec(s@),
{
    let v = chars_of(s);
    assert(v@.subrange(0, v@.len() as int) =~= s@);
    trim_end_range(&v, 0, v.len())
}

/// The lines of `v` joined with a newline between them.
pub open spec fn join_lines(v: Seq<Seq<char>>) -> Seq<char>
    decreases v.len(),
{
    if v.len() == 0 {
        Seq::empty()
    } else if v.len() == 1 {
        v[0]
    } else {
        join_lines(v.drop_last()) + "\n"@ + v.last()
    }
}

/// The strings of `v` joined with a newline between them (`[String]::join`).
pub fn join_with_newlines(v: &Vec<String>) -> (r: String)
    ensures
        r@ == join_lines(views(v@)),
{
    let mut r = String::new();
    let mut i: usize = 0;
    while i < v.len()
        invariant
            i <= v.len(),
            r@ == join_lines(views(v@).take(i as int)),
        decreases v.len() - i,
    {
        proof {
            let t = views(v@).take(i + 1);
            assert(t.drop_last() =~= views(v@).take(i as int));
            assert(t.last() == v@[i as int]@);
        }
        if i > 0 {
            push_str(&mut r, "\n");
        } else {
            assert(r@ == Seq::<char>::empty());
            assert(views(v@).take(1)[0] == v@[0]@);
        }
        push_str(&mut r, v[i].as_str());
        proof {
            if i == 0 {
                assert(r@ =~= v@[0]@);
            }
        }
        i = i + 1;
    }
    assert(views(v@).take(v@.len() as int) =~= views(v@));
    r
}

/// `s` without white space at either end (`str::trim`).
pub open spec fn trim_spec(s: Seq<char>) -> Seq<char> {
    trim_start_spec(trim_end_spec(s))
}

/// The characters `v[lo..hi]` without white space at either end.
pub fn trim_range(v: &Vec<char>, lo: usize, hi: usize) -> (r: String)
    requires
        lo <= hi <= v.len(),
    ensures
        r@ == trim_spec(v@.subrange(lo as int, hi as int)),
{
    let mut j = hi;
    while j > lo && is_white_space_char(v[j - 1])
        invariant
            lo <= j <= hi <= v.len(),
            trim_end_spec(v@.subrange(lo as int, hi as int)) == trim_end_spec(v@.subrange(lo as int, j as int)),
        decreases j,
    {
        assert(v@.subrange(lo as int, j as int).drop_last() =~= v@.subrange(lo as int, j - 1));
        j = j - 1;
    }
    assert(trim_end_spec(v@.subrange(lo as int, j as int)) == v@.subrange(lo as int, j as int));
    trim_start_range(v, lo, j)
}

/// Trimming ignores one more white-space character at the end.
pub proof fn lemma_trim_end_push_white(s: Seq<char>, w: char)
    requires
        is_white_space(w),
    ensures
        trim_end_spec(s.push(w)) == trim_end_spec(s),
{
    assert(s.push(w).drop_last() =~= s);
}

/// Trimming the start ignores one more white-space character there.
pub proof fn lemma_trim_start_prepend_white(s: Seq<char>, w: char)
    requires
        is_white_space(w),
    ensures
        trim_start_spec(seq![w] + s) == trim_start_spec(s),
{
    assert((seq![w] + s).drop_first() =~= s);
}

proof fn lemma_trim_end_prepend_white(s: Seq<char>, w: char)
    requires
        is_white_space(w),
    ensures
        trim_end_spec(seq![w] + s) == if trim_end_spec(s).len() == 0 {
            Seq::<char>::empty()
        } else {
            seq![w] + trim_end_spec(s)
        },
    decreases s.len(),
{
    if s.len() == 0 {
        let t = seq![w] + s;
        assert(t.drop_last() =~= Seq::<char>::empty());
        assert(trim_end_spec(Seq::<char>::empty()) == Seq::<char>::empty());
    } else {
        let t = seq![w] + s;
        assert(t.last() == s.last());
        if is_white_space(s.last()) {
            assert(t.drop_last() =~= seq![w] + s.drop_last());
            lemma_trim_end_prepend_white(s.drop_last(), w);
        } else {
            assert(trim_end_spec(s) == s);
        }
    }
}

/// Trimming both ends ignores white space added at either end.
pub proof fn lemma_trim_white_ends(s: Seq<char>, w: char)
    requires
        is_white_space(w),
    ensures
        trim_spec(seq![w] + s) == trim_spec(s),
        trim_spec(s.push(w)) == trim_spec(s),
{
    lemma_trim_end_push_white(s, w);
    lemma_trim_end_prepend_white(s, w);
    if trim_end_spec(s).len() != 0 {
        lemma_trim_start_prepend_white(trim_end_spec(s), w);
    } else {
        assert(trim_start_spec(Seq::<char>::empty()) == Seq::<char>::empty());
    }
}

/// The decimal digit for `d` (0 to 9).
pub open spec fn digit_char(d: int) -> char {
    if d == 0 {
        '0'
    } else if d == 1 {
        '1'
    } else if d == 2 {
        '2'
    } else if d == 3 {
        '3'
    } else if d == 4 {
        '4'
    } else if d == 5 {
        '5'
    } else if d == 6 {
        '6'
    } else if d == 7 {
        '7'
    } else if d == 8 {
        '8'
    } else {
        '9'
    }
}

/// The decimal notation of `n`, without leading zeros.
pub open spec fn decimal(n: nat) -> Seq<char>
    decreases n,
{
    if n < 10 {
        seq![digit_char(n as int)]
    } else {
        decimal(n / 10).push(digit_char((n % 10) as int))
    }
}

/// The decimal notation of `i`, with a minus sign when negative.
pub open spec fn signed_decimal(i: int) -> Seq<char> {
    if i < 0 {
        seq!['-'] + decimal((-i) as nat)
    } else {
        decimal(i as nat)
    }
}

fn digit(d: u64) -> (c: char)
    requires
        d < 10,
    ensures
        c == digit_char(d as int),
{
    if d == 0 {
        '0'
    } else if d == 1 {
        '1'
    } else if d == 2 {
        '2'
    } else if d == 3 {
        '3'
    } else if d == 4 {
        '4'
    } else if d == 5 {
        '5'
    } else if d == 6 {
        '6'
    } else if d == 7 {
        '7'
    } else if d == 8 {
        '8'
    } else {
        '9'
    }
}

/// Appends the decimal notation of `n` (as `{}` formats an unsigned number).
pub fn push_decimal(s: &mut String, n: u64)
    ensures
        final(s)@ == old(s)@ + decimal(n as nat),
    decreases n,
{
    if n >= 10 {
        push_decimal(s, n / 10);
    }
    push_char(s, digit(n % 10));
    assert(decimal(n as nat) == if n < 10 {
        seq![digit_char(n as int)]
    } else {
        decimal((n / 10) as nat).push(digit_char((n % 10) as int))
    });
}

/// Appends the decimal notation of `n` (as `{}` formats a signed number).
pub fn push_signed_decimal(s: &mut String, n: i64)
    ensures
        final(s)@ == old(s)@ + signed_decimal(n as int),
{
    if n < 0 {
        push_char(s, '-');
        let m: i128 = 0i128 - n as i128;
        push_decimal(s, m as u64);
    } else {
        push_decimal(s, n as u64);
    }
}

/// The decimal notation of `n`.
pub fn u64_to_string(n: u64) -> (r: String)
    ensures
        r@ == decimal(n as nat),
{
    let mut r = String::new();
    push_decimal(&mut r, n);
    r
}

/// The number of bytes of `c` in UTF-8 (`char::len_utf8`).
pub open spec fn utf8_width(c: char) -> int {
    if '\x7f' >= c {
        1
    } else if 'ࠀ' > c {
        2
    } else if '𐀀' > c {
        3
    } else {
        4
    }
}

/// The number of bytes of `s` in UTF-8 (`str::len`).
pub open spec fn utf8_len(s: Seq<char>) -> int
    decreases s.len(),
{
    if s.len() == 0 {
        0
    } else {
        utf8_width(s[0]) + utf8_len(s.drop_first())
    }
}

/// The number of bytes of `c` in UTF-8.
pub fn char_width(c: char) -> (w: usize)
    ensures
        w == utf8_width(c),
        1 <= w <= 4,
{
    if '\x7f' >= c {
        1
    } else if 'ࠀ' > c {
        2
    } else if '𐀀' > c {
        3
    } else {
        4
    }
}

/// The UTF-8 length of a concatenation is the sum of the lengths.
pub proof fn lemma_utf8_len_append(a: Seq<char>, b: Seq<char>)
    ensures
        utf8_len(a + b) == utf8_len(a) + utf8_len(b),
        utf8_len(a) >= 0,
    decreases a.len(),
{
    if a.len() > 0 {
        assert((a + b).drop_first() =~= a.drop_first() + b);
        assert((a + b)[0] == a[0]);
        lemma_utf8_len_append(a.drop_first(), b);
    } else {
        assert(a + b =~= b);
    }
}

/// The number of bytes of `s` in UTF-8 (`str::len`).
pub fn utf8_byte_len(s: &str) -> (r: usize)
    requires
        4 * s@.len() <= usize::MAX,
    ensures
        r == utf8_len(s@),
{
    let v = chars_of(s);
    let mut n: usize = 0;
    let mut i: usize = 0;
    assert(v@.take(0) =~= Seq::<char>::empty());
    while i < v.len()
        invariant
            i <= v.len(),
            v@ == s@,
            4 * s@.len() <= usize::MAX,
            n == utf8_len(v@.take(i as int)),
            n <= 4 * i,
        decreases v.len() - i,
    {
        let w = char_width(v[i]);
        proof {
            lemma_utf8_len_append(v@.take(i as int), seq![v@[i as int]]);
            assert(v@.take(i as int) + seq![v@[i as int]] =~= v@.take(i + 1));
            assert(seq![v@[i as int]].drop_first() =~= Seq::<char>::empty());
            assert(utf8_len(Seq::<char>::empty()) == 0);
        }
        n = n + w;
        i = i + 1;
    }
    assert(v@.take(v@.len() as int) =~= v@);
    n
}

/// The first position of `c` in `s`, if any.
pub open spec fn index_of_char(s: Seq<char>, c: char) -> Option<int>
    decreases s.len(),
{
    if s.len() == 0 {
        None
    } else if s[0] == c {
        Some(0)
    } else {
        match index_of_char(s.drop_first(), c) {
            Some(i) => Some(i + 1),
            None => None,
        }
    }
}

/// The text of `s` up to its first `c`, or all of it.
pub open spec fn before_char(s: Seq<char>, c: char) -> Seq<char> {
    match index_of_char(s, c) {
        Some(i) => s.take(i),
        None => s,
    }
}

/// Where `index_of_char` finds `c`, `c` is.
pub proof fn lemma_index_of_char_pub(s: Seq<char>, c: char)
    ensures
        match index_of_char(s, c) {
            Some(i) => 0 <= i < s.len() && s[i] == c,
            None => true,
        },
{
    lemma_index_of_char(s, c);
}

pub(crate) proof fn lemma_index_of_char(s: Seq<char>, c: char)
    ensures
        match index_of_char(s, c) {
            Some(i) => 0 <= i < s.len() && s[i] == c,
            None => true,
        },
    decreases s.len(),
{
    if s.len() > 0 && s[0] != c {
        lemma_index_of_char(s.drop_first(), c);
    }
}

/// The first position of `c` in `v[from..]`, or `v.len()` when there is none.
pub fn find_char_from_pub(v: &Vec<char>, c: char, from: usize) -> (r: usize)
    requires
        from <= v.len(),
    ensures
        from <= r <= v.len(),
        match index_of_char(v@.skip(from as int), c) {
            Some(i) => r == from + i,
            None => r == v.len(),
        },
        r == v.len() ==> index_of_char(v@.skip(from as int), c) is None,
{
    find_char_from(v, c, from)
}

/// The first position of `c` in `v[from..]`, or `v.len()` when there is none.
pub(crate) fn find_char_from(v: &Vec<char>, c: char, from: usize) -> (r: usize)
    requires
        from <= v.len(),
    ensures
        from <= r <= v.len(),
        match index_of_char(v@.skip(from as int), c) {
            Some(i) => r == from + i,
            None => r == v.len(),
        },
        r == v.len() ==> index_of_char(v@.skip(from as int), c) is None,
{
    let mut i = from;
    while i < v.len() && v[i] != c
        invariant
            from <= i <= v.len(),
            index_of_char(v@.skip(from as int), c) == match index_of_char(v@.skip(i as int), c) {
                Some(k) => Some(k + (i - from)),
                None => None,
            },
        decreases v.len() - i,
    {
        assert(v@.skip(i as int).drop_first() =~= v@.skip(i + 1));
        i = i + 1;
    }
    if i < v.len() {
        assert(v@.skip(i as int)[0] == v@[i as int]);
    } else {
        assert(v@.skip(i as int).len() == 0);
    }
    proof {
        lemma_index_of_char(v@.skip(from as int), c);
    }
    i
}

/// `l` without a final carriage return.
pub open spec fn strip_cr(l: Seq<char>) -> Seq<char> {
    if l.len() > 0 && l.last() == '\r' {
        l.drop_last()
    } else {
        l
    }
}

/// The lines of `s` (`str::lines`): the pieces between newlines, each
/// without the carriage return before its newline; a final newline ends the
/// last line rather than starting an empty one.
pub open spec fn text_lines(s: Seq<char>) -> Seq<Seq<char>>
    decreases s.len(),
{
    if s.len() == 0 {
        Seq::empty()
    } else {
        match index_of_char(s, '\n') {
            Some(i) => if 0 <= i < s.len() {
                seq![strip_cr(s.take(i))] + text_lines(s.skip(i + 1))
            } else {
                seq![s]
            },
            None => seq![s],
        }
    }
}

/// The lines of `s`.
pub fn lines_of(s: &str) -> (r: Vec<String>)
    ensures
        views(r@) == text_lines(s@),
{
    let v = chars_of(s);
    let mut out: Vec<String> = Vec::new();
    let mut start: usize = 0;
    assert(v@.skip(0) =~= v@);
    assert(views(out@) =~= Seq::<Seq<char>>::empty());
    while start < v.len()
        invariant
            start <= v.len(),
            v@ == s@,
            views(out@) + text_lines(v@.skip(start as int)) == text_lines(s@),
        decreases v.len() - start,
    {
        let end = find_char_from_pub(&v, '\n', start);
        let ghost rest = v@.skip(start as int);
        proof {
            lemma_index_of_char_pub(rest, '\n');
        }
        if end == v.len() {
            let line = string_of_range(&v, start, end);
            proof {
                assert(v@.subrange(start as int, end as int) =~= rest);
                assert(text_lines(rest) == seq![rest]);
                assert(views(out@.push(line)) =~= views(out@).push(line@));
                assert(v@.skip(end as int).len() == 0);
                assert(text_lines(v@.skip(end as int)) =~= Seq::<Seq<char>>::empty());
                assert(views(out@.push(line)) + text_lines(v@.skip(end as int)) =~= views(out@) + text_lines(rest));
            }
            out.push(line);
            start = end;
        } else {
            let stop = if end > start && v[end - 1] == '\r' {
                end - 1
            } else {
                end
            };
            let line = string_of_range(&v, start, stop);
            proof {
                assert(v@.subrange(start as int, end as int) =~= rest.take(end - start));
                if end > start && v@[end - 1] == '\r' {
                    assert(v@.subrange(start as int, stop as int) =~= rest.take(end - start).drop_last());
                } else {
                    assert(v@.subrange(start as int, stop as int) =~= rest.take(end - start));
                }
                assert(rest.skip(end - start + 1) =~= v@.skip(end + 1));
                assert(text_lines(rest) == seq![strip_cr(rest.take(end - start))] + text_lines(v@.skip(end + 1)));
                assert(views(out@.push(line)) =~= views(out@).push(line@));
                assert(views(out@.push(line)) + text_lines(v@.skip(end + 1)) =~= views(out@) + text_lines(rest));
            }
            out.push(line);
            start = end + 1;
        }
    }
    assert(v@.skip(start as int).len() == 0);
    assert(text_lines(v@.skip(start as int)) =~= Seq::<Seq<char>>::empty());
    assert(views(out@) + Seq::<Seq<char>>::empty() =~= views(out@));
    out
}

} // verus!
