//! Where the background daemon keeps its files, and what its PID file says.
use vstd::prelude::*;

use crate::config::get_pmsynapse_global_dir;
use crate::text::{
    before_char, find_char_from, index_of_char, lemma_index_of_char, lines_of, text_lines, views,
    chars_of, decimal, digit_char, is_white_space, owned, path_join, path_join_spec, push_char, push_decimal, push_str,
    string_of_range, trim_end_spec, trim_range, trim_spec, trim_start_spec,
};

verus! {

/// The name of a daemon file: `{stem}-{profile}{ext}` for a named profile,
/// `{stem}{ext}` otherwise.
pub open spec fn profile_file(stem: Seq<char>, ext: Seq<char>, profile: Option<Seq<char>>) -> Seq<char> {
    match profile {
        Some(p) => stem + "-"@ + p + ext,
        None => stem + ext,
    }
}

/// The characters of an optional string slice.
pub open spec fn opt_chars(o: Option<&str>) -> Option<Seq<char>> {
    match o {
        Some(s) => Some(s@),
        None => None,
    }
}

fn profile_file_name(stem: &str, ext: &str, profile: Option<&str>) -> (r: String)
    ensures
        r@ == profile_file(stem@, ext@, opt_chars(profile)),
{
    let mut r = owned(stem);
    if let Some(p) = profile {
        push_str(&mut r, "-");
        push_str(&mut r, p);
    }
    push_str(&mut r, ext);
    r
}

/// The daemon's socket in directory `dir`.
pub fn daemon_socket_path_in(dir: &str, profile: Option<&str>) -> (r: String)
    ensures
        r@ == path_join_spec(dir@, profile_file("daemon"@, ".sock"@, opt_chars(profile))),
{
    let name = profile_file_name("daemon", ".sock", profile);
    path_join(dir, name.as_str())
}

/// The daemon's database in directory `dir`.
pub fn daemon_db_path_in(dir: &str, profile: Option<&str>) -> (r: String)
    ensures
        r@ == path_join_spec(dir@, profile_file("synapse"@, ".db"@, opt_chars(profile))),
{
    let name = profile_file_name("synapse", ".db", profile);
    path_join(dir, name.as_str())
}

/// The daemon's PID file in directory `dir`.
pub fn daemon_pid_path_in(dir: &str, profile: Option<&str>) -> (r: String)
    ensures
        r@ == path_join_spec(dir@, profile_file("daemon"@, ".pid"@, opt_chars(profile))),
{
    let name = profile_file_name("daemon", ".pid", profile);
    path_join(dir, name.as_str())
}

/// The daemon's log file under directory `dir`, in its `logs` directory.
pub fn daemon_log_path_in(dir: &str, profile: Option<&str>) -> (r: String)
    ensures
        r@ == path_join_spec(path_join_spec(dir@, "logs"@), profile_file("daemon"@, ".log"@, opt_chars(profile))),
{
    let logs = path_join(dir, "logs");
    let name = profile_file_name("daemon", ".log", profile);
    path_join(logs.as_str(), name.as_str())
}

/// The daemon's socket in the `.pmsynapse` directory of the user's home.
pub fn get_daemon_socket_path(profile: Option<&str>) -> (r: String)
    ensures
        exists|dir: Seq<char>| r@ == path_join_spec(dir, profile_file("daemon"@, ".sock"@, opt_chars(profile))),
{
    let dir = get_pmsynapse_global_dir();
    daemon_socket_path_in(dir.as_str(), profile)
}

/// The daemon's database in the `.pmsynapse` directory of the user's home.
pub fn get_daemon_db_path(profile: Option<&str>) -> (r: String)
    ensures
        exists|dir: Seq<char>| r@ == path_join_spec(dir, profile_file("synapse"@, ".db"@, opt_chars(profile))),
{
    let dir = get_pmsynapse_global_dir();
    daemon_db_path_in(dir.as_str(), profile)
}

/// The daemon's PID file in the `.pmsynapse` directory of the user's home.
pub fn get_daemon_pid_path(profile: Option<&str>) -> (r: String)
    ensures
        exists|dir: Seq<char>| r@ == path_join_spec(dir, profile_file("daemon"@, ".pid"@, opt_chars(profile))),
{
    let dir = get_pmsynapse_global_dir();
    daemon_pid_path_in(dir.as_str(), profile)
}

/// The daemon's log file in the `logs` directory of the `.pmsynapse`
/// directory of the user's home.
pub fn get_daemon_log_path(profile: Option<&str>) -> (r: String)
    ensures
        exists|dir: Seq<char>|
            r@ == path_join_spec(path_join_spec(dir, "logs"@), profile_file("daemon"@, ".log"@, opt_chars(profile))),
{
    let dir = get_pmsynapse_global_dir();
    daemon_log_path_in(dir.as_str(), profile)
}

/// The port a PID file of the form `pid:port` gives: the text after the
/// first colon of the trimmed content, up to a next colon; none when the
/// content has no colon.
pub open spec fn pid_file_port(content: Seq<char>) -> Option<Seq<char>> {
    let t = trim_spec(content);
    match index_of_char(t, ':') {
        Some(k) => Some(before_char(t.skip(k + 1), ':')),
        None => None,
    }
}

/// The port recorded in the content of the daemon's PID file.
pub fn port_from_pid_file(content: &str) -> (r: Option<String>)
    ensures
        match r {
            Some(p) => pid_file_port(content@) == Some(p@),
            None => pid_file_port(content@) is None,
        },
{
    let raw = chars_of(content);
    let trimmed = trim_range(&raw, 0, raw.len());
    assert(raw@.subrange(0, raw@.len() as int) =~= content@);
    let t = chars_of(trimmed.as_str());
    let k = find_char_from(&t, ':', 0);
    assert(t@.skip(0) =~= t@);
    if k == t.len() {
        return None;
    }
    let end = find_char_from(&t, ':', k + 1);
    let port = string_of_range(&t, k + 1, end);
    proof {
        let rest = t@.skip(k + 1);
        match index_of_char(rest, ':') {
            Some(j) => {
                assert(t@.subrange(k + 1, end as int) =~= rest.take(j));
            },
            None => {
                assert(t@.subrange(k + 1, end as int) =~= rest);
            },
        }
    }
    Some(port)
}

/// The daemon's URL: its port from the PID file, else from the environment,
/// else 7878.
pub open spec fn daemon_url_spec(file_port: Option<Seq<char>>, env_port: Option<Seq<char>>) -> Seq<char> {
    let port = match file_port {
        Some(p) => p,
        None => match env_port {
            Some(p) => p,
            None => "7878"@,
        },
    };
    "http://127.0.0.1:"@ + port + "/api/v1"@
}

/// The characters of an optional string.
pub open spec fn opt_string_chars(o: Option<String>) -> Option<Seq<char>> {
    match o {
        Some(s) => Some(s@),
        None => None,
    }
}

/// The daemon's URL given the port read from its PID file and the one set
/// in the environment, if any.
pub fn daemon_url(file_port: Option<String>, env_port: Option<String>) -> (r: String)
    ensures
        r@ == daemon_url_spec(opt_string_chars(file_port), opt_string_chars(env_port)),
{
    let port = match file_port {
        Some(p) => p,
        None => match env_port {
            Some(p) => p,
            None => owned("7878"),
        },
    };
    let mut r = owned("http://127.0.0.1:");
    push_str(&mut r, port.as_str());
    push_str(&mut r, "/api/v1");
    r
}

/// `s` is one or more ASCII digits.
pub open spec fn all_digits(s: Seq<char>) -> bool {
    s.len() > 0 && forall|i: int| 0 <= i < s.len() ==> '0' <= #[trigger] s[i] <= '9'
}

/// The number that ASCII digits `s` denote.
pub open spec fn digits_value(s: Seq<char>) -> int
    decreases s.len(),
{
    if s.len() == 0 {
        0
    } else {
        digits_value(s.drop_last()) * 10 + (s.last() as int - '0' as int)
    }
}

/// What `str::parse::<i32>` gives for `s`: an optional sign then one or more
/// ASCII digits, whose value fits in an `i32`.
pub open spec fn parse_i32_spec(s: Seq<char>) -> Option<int> {
    let neg = s.len() > 0 && s[0] == '-';
    let ds = if s.len() > 0 && (s[0] == '-' || s[0] == '+') {
        s.drop_first()
    } else {
        s
    };
    let v = if neg {
        -digits_value(ds)
    } else {
        digits_value(ds)
    };
    if all_digits(ds) && i32::MIN <= v <= i32::MAX {
        Some(v)
    } else {
        None
    }
}

pub(crate) proof fn lemma_digits_value_grows(s: Seq<char>, i: int)
    requires
        all_digits(s),
        0 <= i <= s.len(),
    ensures
        digits_value(s.take(i)) <= digits_value(s),
        0 <= digits_value(s.take(i)),
    decreases s.len() - i,
{
    if i < s.len() {
        lemma_digits_value_grows(s, i + 1);
        let t = s.take(i + 1);
        assert(t.drop_last() =~= s.take(i));
        assert('0' <= s[i] <= '9');
    } else {
        assert(s.take(i) =~= s);
        lemma_digits_nonneg(s);
    }
}

proof fn lemma_digits_nonneg(s: Seq<char>)
    requires
        forall|i: int| 0 <= i < s.len() ==> '0' <= #[trigger] s[i] <= '9',
    ensures
        0 <= digits_value(s),
    decreases s.len(),
{
    if s.len() > 0 {
        lemma_digits_nonneg(s.drop_last());
        assert('0' <= s[s.len() - 1] <= '9');
    }
}

/// Parses `s` as `str::parse::<i32>` does.
pub fn parse_i32(s: &str) -> (r: Option<i32>)
    ensures
        match r {
            Some(v) => parse_i32_spec(s@) == Some(v as int),
            None => parse_i32_spec(s@) is None,
        },
{
    let v = chars_of(s);
    let neg = v.len() > 0 && v[0] == '-';
    let start: usize = if v.len() > 0 && (v[0] == '-' || v[0] == '+') {
        1
    } else {
        0
    };
    let ghost ds = if s@.len() > 0 && (s@[0] == '-' || s@[0] == '+') {
        s@.drop_first()
    } else {
        s@
    };
    assert(ds =~= v@.skip(start as int));
    if start == v.len() {
        return None;
    }
    let mut acc: i64 = 0;
    let mut i = start;
    while i < v.len()
        invariant
            start <= i <= v.len(),
            start < v.len(),
            ds == v@.skip(start as int),
            v@ == s@,
            ds == (if s@.len() > 0 && (s@[0] == '-' || s@[0] == '+') {
                s@.drop_first()
            } else {
                s@
            }),
            neg == (s@.len() > 0 && s@[0] == '-'),
            acc == digits_value(ds.take(i - start)),
            0 <= acc <= 0x8000_0000,
            forall|j: int| 0 <= j < i - start ==> '0' <= #[trigger] ds[j] <= '9',
        decreases v.len() - i,
    {
        let c = v[i];
        if c < '0' || c > '9' {
            assert(ds[i - start] == c);
            assert(!all_digits(ds));
            return None;
        }
        let d: i64 = c as i64 - '0' as i64;
        proof {
            let t = ds.take(i - start + 1);
            assert(t.drop_last() =~= ds.take(i - start));
            assert(t.last() == c);
        }
        acc = acc * 10 + d;
        i = i + 1;
        if acc > 0x8000_0000 {
            proof {
                assert(all_digits(ds) ==> digits_value(ds) >= acc) by {
                    if all_digits(ds) {
                        lemma_digits_value_grows(ds, i - start);
                    }
                }
                assert(parse_i32_spec(s@) is None);
            }
            return None;
        }
    }
    assert(ds.take(ds.len() as int) =~= ds);
    assert(all_digits(ds));
    if neg {
        let n: i64 = 0 - acc;
        Some(n as i32)
    } else if acc > 0x7fff_ffff {
        None
    } else {
        Some(acc as i32)
    }
}

/// The process id a PID file gives: the trimmed text before its first colon,
/// parsed as an `i32`.
pub open spec fn pid_file_pid(content: Seq<char>) -> Option<int> {
    parse_i32_spec(trim_spec(before_char(content, ':')))
}

/// The process id recorded in the content of the daemon's PID file, in the
/// form `pid` or `pid:port`.
pub fn pid_from_pid_file(content: &str) -> (r: Option<i32>)
    ensures
        match r {
            Some(v) => pid_file_pid(content@) == Some(v as int),
            None => pid_file_pid(content@) is None,
        },
{
    let v = chars_of(content);
    let k = find_char_from(&v, ':', 0);
    assert(v@.skip(0) =~= v@);
    let head = trim_range(&v, 0, k);
    proof {
        match index_of_char(v@, ':') {
            Some(j) => assert(v@.subrange(0, k as int) =~= v@.take(j)),
            None => assert(v@.subrange(0, k as int) =~= v@),
        }
    }
    parse_i32(head.as_str())
}

/// The content of the daemon's PID file: its process id and its port,
/// separated by a colon.
pub open spec fn pid_file_text(pid: u32, port: u16) -> Seq<char> {
    decimal(pid as nat) + seq![':'] + decimal(port as nat)
}

/// The content the daemon writes to its PID file.
pub fn pid_file_content(pid: u32, port: u16) -> (r: String)
    ensures
        r@ == pid_file_text(pid, port),
{
    let mut r = String::new();
    push_decimal(&mut r, pid as u64);
    push_char(&mut r, ':');
    push_decimal(&mut r, port as u64);
    r
}

proof fn lemma_decimal_digits(n: nat)
    ensures
        all_digits(decimal(n)),
        digits_value(decimal(n)) == n,
    decreases n,
{
    let d = decimal(n);
    if n >= 10 {
        lemma_decimal_digits(n / 10);
        let p = decimal(n / 10);
        assert(d == p.push(digit_char((n % 10) as int)));
        assert(d.drop_last() =~= p);
        assert forall|i: int| 0 <= i < d.len() implies '0' <= #[trigger] d[i] <= '9' by {
            if i < p.len() {
                assert(d[i] == p[i]);
            }
        }
    }
    assert(d.drop_last() =~= if n >= 10 { decimal(n / 10) } else { Seq::<char>::empty() });
    let k = (n % 10) as int;
    assert(digit_char(k) as int - '0' as int == k) by {
        if k == 0 {
        } else if k == 1 {
        } else if k == 2 {
        } else if k == 3 {
        } else if k == 4 {
        } else if k == 5 {
        } else if k == 6 {
        } else if k == 7 {
        } else if k == 8 {
        } else {
            assert(k == 9);
        }
    }
    assert(d.last() == digit_char(k));
    assert(digits_value(Seq::<char>::empty()) == 0);
    assert((n / 10) * 10 + n % 10 == n);
}

proof fn lemma_digits_have_no_colon(s: Seq<char>)
    requires
        all_digits(s),
    ensures
        index_of_char(s, ':') is None,
        !is_white_space(s[0]),
        !is_white_space(s.last()),
    decreases s.len(),
{
    assert('0' <= s[0] <= '9');
    assert('0' <= s[s.len() - 1] <= '9');
    if s.len() > 1 {
        assert forall|i: int| 0 <= i < s.drop_first().len() implies '0' <= #[trigger] s.drop_first()[i] <= '9' by {
            assert(s.drop_first()[i] == s[i + 1]);
        }
        lemma_digits_have_no_colon(s.drop_first());
    } else {
        assert(s.drop_first().len() == 0);
        assert(index_of_char(s.drop_first(), ':') is None);
    }
    assert(s[0] != ':');
}

proof fn lemma_index_after_prefix(a: Seq<char>, b: Seq<char>, c: char)
    requires
        index_of_char(a, c) is None,
    ensures
        index_of_char(a + b, c) == match index_of_char(b, c) {
            Some(i) => Some(i + a.len()),
            None => None,
        },
    decreases a.len(),
{
    if a.len() == 0 {
        assert(a + b =~= b);
    } else {
        assert((a + b)[0] == a[0]);
        assert((a + b).drop_first() =~= a.drop_first() + b);
        lemma_index_after_prefix(a.drop_first(), b, c);
    }
}

/// A PID file written for process `pid` on port `port` reads back as that
/// port, and as that process id when it fits in an `i32`.
pub proof fn lemma_pid_file_round_trip(pid: u32, port: u16)
    ensures
        pid_file_port(pid_file_text(pid, port)) == Some(decimal(port as nat)),
        pid <= i32::MAX ==> pid_file_pid(pid_file_text(pid, port)) == Some(pid as int),
{
    let a = decimal(pid as nat);
    let b = decimal(port as nat);
    let t = pid_file_text(pid, port);
    lemma_decimal_digits(pid as nat);
    lemma_decimal_digits(port as nat);
    lemma_digits_have_no_colon(a);
    lemma_digits_have_no_colon(b);
    assert(t == a + (seq![':'] + b));
    assert(t.last() == b.last());
    assert(t[0] == a[0]);
    assert(trim_end_spec(t) == t);
    assert(trim_start_spec(t) == t);
    assert(trim_spec(t) == t);
    assert(index_of_char(seq![':'] + b, ':') == Some(0int)) by {
        assert((seq![':'] + b)[0] == ':');
    }
    lemma_index_after_prefix(a, seq![':'] + b, ':');
    assert(index_of_char(t, ':') == Some(a.len() as int));
    assert(t.skip(a.len() as int + 1) =~= b);
    assert(before_char(b, ':') == b);
    assert(before_char(t, ':') =~= a);
    assert(trim_end_spec(a) == a);
    assert(trim_start_spec(a) == a);
    if pid <= i32::MAX {
        assert(a.len() > 0);
        assert(a[0] != '-' && a[0] != '+');
    }
}


/// The last `n` lines of the log text `content` (all of them when it has
/// fewer), in order.
pub fn tail_lines(content: &str, n: usize) -> (r: Vec<String>)
    ensures
        views(r@) == (if text_lines(content@).len() <= n {
            text_lines(content@)
        } else {
            text_lines(content@).skip(text_lines(content@).len() - n)
        }),
{
    let all = lines_of(content);
    let start = if all.len() <= n {
        0
    } else {
        all.len() - n
    };
    let mut out: Vec<String> = Vec::new();
    let mut i: usize = start;
    while i < all.len()
        invariant
            start <= i <= all.len(),
            views(all@) == text_lines(content@),
            views(out@) == views(all@).subrange(start as int, i as int),
        decreases all.len() - i,
    {
        let line = all[i].clone();
        proof {
            assert(views(out@.push(line)) =~= views(out@).push(line@));
        }
        out.push(line);
        proof {
            assert(views(all@)[i as int] == all@[i as int]@);
            assert(views(all@).subrange(start as int, i + 1) =~= views(all@).subrange(start as int, i as int).push(
                views(all@)[i as int],
            ));
        }
        i = i + 1;
    }
    assert(views(all@).subrange(start as int, all@.len() as int) =~= views(all@).skip(start as int));
    assert(views(all@).skip(0) =~= views(all@));
    out
}

/// How the daemon's HTTP address is shown for port `port`: its URL, or
/// `disabled` for port 0.
pub fn http_address_text(port: u16) -> (r: String)
    ensures
        r@ == (if port > 0 {
            "http://127.0.0.1:"@ + decimal(port as nat)
        } else {
            "disabled"@
        }),
{
    if port > 0 {
        let mut r = owned("http://127.0.0.1:");
        push_decimal(&mut r, port as u64);
        r
    } else {
        owned("disabled")
    }
}

} // verus!
