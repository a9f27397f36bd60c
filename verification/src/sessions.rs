//! Finding and summarizing the session files that the coding assistant keeps
//! for a project.
use vstd::prelude::*;

use crate::claude::export::{first_line, short_id, short_id_ok, short_id_text, take_at_most};
use crate::text::{
    chars_of, contains_seq, opt_view, owned, push_decimal, push_str, str_contains, str_ends_with, str_eq,
    str_starts_with, string_of, string_of_range, utf8_byte_len, utf8_len, decimal,
};

verus! {

/// A project's directory name among the assistant's projects: its path with every
/// `/` turned into `-`.
pub open spec fn claude_project_dir_name(path: Seq<char>) -> Seq<char> {
    path.map_values(|c: char| if c == '/' { '-' } else { c })
}

/// The directory name under which the assistant keeps the sessions of the project
/// at `path`.
pub fn path_to_claude_project_dir(path: &str) -> (r: String)
    ensures
        r@ == claude_project_dir_name(path@),
{
    let v = chars_of(path);
    let mut out: Vec<char> = Vec::new();
    let mut i: usize = 0;
    while i < v.len()
        invariant
            i <= v.len(),
            v@ == path@,
            out@ == v@.take(i as int).map_values(|c: char| if c == '/' { '-' } else { c }),
        decreases v.len() - i,
    {
        let c = v[i];
        out.push(if c == '/' { '-' } else { c });
        assert(out@ =~= v@.take(i + 1).map_values(|c: char| if c == '/' { '-' } else { c }));
        i = i + 1;
    }
    assert(v@.take(v@.len() as int) =~= v@);
    string_of(&out)
}

/// The directory name for project `p`: `p` itself when it already starts
/// with `-`, else the name made from its path.
pub open spec fn project_subdir_spec(p: Seq<char>) -> Seq<char> {
    if p.len() > 0 && p[0] == '-' {
        p
    } else {
        claude_project_dir_name(p)
    }
}

/// The directory name for project `p`, given as a path or as a directory name.
pub fn project_subdir(p: &str) -> (r: String)
    ensures
        r@ == project_subdir_spec(p@),
{
    let dash = str_starts_with(p, "-");
    proof {
        reveal_strlit("-");
        if p@.len() > 0 && p@[0] == '-' {
            assert("-"@.is_prefix_of(p@));
        }
        if dash {
            assert(p@[0] == "-"@[0]);
        }
    }
    if dash {
        owned(p)
    } else {
        path_to_claude_project_dir(p)
    }
}

/// A main session file: named by a UUID, so not starting with `agent-`,
/// ending with `.jsonl` and longer than 30 bytes.
pub open spec fn main_session_file(name: Seq<char>) -> bool {
    !"agent-"@.is_prefix_of(name) && ".jsonl"@.is_suffix_of(name) && utf8_len(name) > 30
}

/// Whether `filename` names a main session rather than an agent.
pub fn is_main_session_file(filename: &str) -> (r: bool)
    requires
        4 * filename@.len() <= usize::MAX,
    ensures
        r == main_session_file(filename@),
{
    !str_starts_with(filename, "agent-") && str_ends_with(filename, ".jsonl") && utf8_byte_len(filename) > 30
}

/// A session file matches id `id` (full or partial) when its name contains
/// the id and ends with `.jsonl`.
pub open spec fn session_file_matches_spec(name: Seq<char>, id: Seq<char>) -> bool {
    (id.is_prefix_of(name) || contains_seq(name, id)) && ".jsonl"@.is_suffix_of(name)
}

/// Whether the file named `filename` is a session file for id `id`.
pub fn session_file_matches(filename: &str, id: &str) -> (r: bool)
    ensures
        r == session_file_matches_spec(filename@, id@),
{
    let jsonl = str_ends_with(filename, ".jsonl");
    (str_starts_with(filename, id) && jsonl) || (str_contains(filename, id) && jsonl)
}

/// How long ago something happened, for people: `just now` under a minute,
/// then whole minutes, hours or days.
pub open spec fn age_text_spec(secs: nat) -> Seq<char> {
    if secs < 60 {
        "just now"@
    } else if secs < 3600 {
        decimal(secs / 60) + " minutes ago"@
    } else if secs < 86400 {
        decimal(secs / 3600) + " hours ago"@
    } else {
        decimal(secs / 86400) + " days ago"@
    }
}

/// How long ago something happened `secs` seconds ago.
pub fn age_text(secs: u64) -> (r: String)
    ensures
        r@ == age_text_spec(secs as nat),
{
    if secs < 60 {
        return owned("just now");
    }
    let mut r = String::new();
    if secs < 3600 {
        push_decimal(&mut r, secs / 60);
        push_str(&mut r, " minutes ago");
    } else if secs < 86400 {
        push_decimal(&mut r, secs / 3600);
        push_str(&mut r, " hours ago");
    } else {
        push_decimal(&mut r, secs / 86400);
        push_str(&mut r, " days ago");
    }
    r
}

/// A content item of a record's message, as far as summaries read it.
pub struct ContentItem {
    pub item_type: Option<String>,
    pub text: Option<String>,
}

/// What summaries read of a record: its session id, git branch, type,
/// summary, meta flag, and the items of its message when the content is a
/// list.
pub struct RecordSummary {
    pub session_id: Option<String>,
    pub git_branch: Option<String>,
    pub record_type: Option<String>,
    pub summary: Option<String>,
    pub is_meta: Option<bool>,
    pub items: Option<Vec<ContentItem>>,
}

/// A line of a session file: blank, not JSON, or a record.
pub enum SessionLine {
    Blank,
    Invalid,
    Record(RecordSummary),
}

/// What is shown of a session file in a listing.
pub struct SessionSummary {
    pub session_id: String,
    pub title: Option<String>,
    pub message_count: usize,
    pub git_branch: Option<String>,
    pub is_agent: bool,
}

/// The text of an item is short enough to be measured in bytes.
pub open spec fn text_fits(it: ContentItem) -> bool {
    match it.text {
        Some(t) => 4 * t@.len() <= usize::MAX,
        None => true,
    }
}

/// The items of a record.
pub open spec fn items_of(r: RecordSummary) -> Seq<ContentItem> {
    match r.items {
        Some(v) => v@,
        None => Seq::empty(),
    }
}

/// The optional string `o` holds exactly `t`.
pub open spec fn opt_eq(o: Option<String>, t: Seq<char>) -> bool {
    opt_view(o) == Some(t)
}

/// A user record whose message holds a tool result.
pub open spec fn is_tool_result(r: RecordSummary) -> bool {
    opt_eq(r.record_type, "user"@) && exists|i: int|
        0 <= i < items_of(r).len() && opt_eq(#[trigger] items_of(r)[i].item_type, "tool_result"@)
}

/// A title made of a message text: its first line, cut to 60 characters,
/// with `...` when the line is longer than 60 bytes.
pub open spec fn title_of_text(t: Seq<char>) -> Seq<char> {
    let l = first_line(t);
    if utf8_len(l) > 60 {
        take_at_most(l, 60) + "..."@
    } else {
        take_at_most(l, 60)
    }
}

/// A text that can title a session: not markup (starting with `<`) and no
/// command (holding `<command`).
pub open spec fn usable_text(t: Seq<char>) -> bool {
    !(t.len() > 0 && t[0] == '<') && !contains_seq(t, "<command"@)
}

/// The title that the first usable text item of `items` gives.
pub open spec fn title_from_items(items: Seq<ContentItem>) -> Option<Seq<char>>
    decreases items.len(),
{
    if items.len() == 0 {
        None
    } else {
        let it = items[0];
        if opt_eq(it.item_type, "text"@) && it.text is Some && usable_text(opt_view(it.text)->0) {
            Some(title_of_text(opt_view(it.text)->0))
        } else {
            title_from_items(items.drop_first())
        }
    }
}

/// The summary read so far from the lines of a session file.
pub ghost struct ScanState {
    pub session_id: Option<Seq<char>>,
    pub git_branch: Option<Seq<char>>,
    pub title: Option<Seq<char>>,
    pub count: nat,
    pub found: bool,
    pub failed: bool,
}

/// The first value seen.
pub open spec fn keep_first(current: Option<Seq<char>>, seen: Option<String>) -> Option<Seq<char>> {
    match current {
        Some(c) => Some(c),
        None => opt_view(seen),
    }
}

/// Reading one record: the first session id and branch are kept; a summary
/// record titles the session; user and assistant messages are counted,
/// unless meta or tool results; and, without a title yet, the first usable
/// text of a non-meta user message titles it.
pub open spec fn scan_record(st: ScanState, r: RecordSummary) -> ScanState {
    let is_user = opt_eq(r.record_type, "user"@);
    let is_assistant = opt_eq(r.record_type, "assistant"@);
    let meta = r.is_meta == Some(true);
    let t1 = if st.title is None && opt_eq(r.record_type, "summary"@) {
        opt_view(r.summary)
    } else {
        st.title
    };
    let count = if (is_user || is_assistant) && !is_tool_result(r) && !meta {
        st.count + 1
    } else {
        st.count
    };
    let candidate = if t1 is None && !st.found && is_user && !meta && r.items is Some {
        title_from_items(items_of(r))
    } else {
        None
    };
    ScanState {
        session_id: keep_first(st.session_id, r.session_id),
        git_branch: keep_first(st.git_branch, r.git_branch),
        title: match candidate {
            Some(t) => Some(t),
            None => t1,
        },
        count,
        found: st.found || candidate is Some,
        failed: st.failed,
    }
}

/// Reading one line: blank lines are skipped, and a line that is not JSON
/// spoils the whole file.
pub open spec fn scan_line(st: ScanState, l: SessionLine) -> ScanState {
    if st.failed {
        st
    } else {
        match l {
            SessionLine::Blank => st,
            SessionLine::Invalid => ScanState { failed: true, ..st },
            SessionLine::Record(r) => scan_record(st, r),
        }
    }
}

/// Reading the lines `ls` in order.
pub open spec fn scan_lines(ls: Seq<SessionLine>) -> ScanState
    decreases ls.len(),
{
    if ls.len() == 0 {
        ScanState { session_id: None, git_branch: None, title: None, count: 0, found: false, failed: false }
    } else {
        scan_line(scan_lines(ls.drop_last()), ls.last())
    }
}

/// `s` with every `.jsonl` removed (`str::replace`).
pub open spec fn without_jsonl(s: Seq<char>) -> Seq<char>
    decreases s.len(),
{
    if s.len() == 0 {
        s
    } else if s.len() >= 6 && ".jsonl"@.is_prefix_of(s) {
        without_jsonl(s.skip(6))
    } else {
        seq![s[0]] + without_jsonl(s.drop_first())
    }
}

/// `m` summarizes a file named `name` with lines `lines` (of which the first
/// 50 are read) and `total_lines` lines in all: absent when one of the read
/// lines is not JSON; otherwise the first session id seen (else the name
/// without `.jsonl`), the title found, the count of messages (all lines
/// when a main session has no title), and the first branch seen.
pub open spec fn summary_of(name: Seq<char>, lines: Seq<SessionLine>, total_lines: nat, m: Option<SessionSummary>) -> bool {
    let st = scan_lines(take_at_most_lines(lines, 50));
    let is_agent = "agent-"@.is_prefix_of(name);
    if st.failed {
        m is None
    } else {
        &&& m is Some
        &&& m->0.session_id@ == match st.session_id {
            Some(id) => id,
            None => without_jsonl(name),
        }
        &&& opt_view(m->0.title) == st.title
        &&& m->0.message_count == (if st.title is None && !is_agent {
            total_lines
        } else {
            st.count
        })
        &&& opt_view(m->0.git_branch) == st.git_branch
        &&& m->0.is_agent == is_agent
    }
}

/// At most the first `n` lines.
pub open spec fn take_at_most_lines(ls: Seq<SessionLine>, n: int) -> Seq<SessionLine> {
    if ls.len() > n {
        ls.take(n)
    } else {
        ls
    }
}

/// `s` with every `.jsonl` removed.
fn remove_jsonl(s: &str) -> (r: String)
    ensures
        r@ == without_jsonl(s@),
{
    let v = chars_of(s);
    let pat = chars_of(".jsonl");
    proof {
        reveal_strlit(".jsonl");
    }
    let mut out: Vec<char> = Vec::new();
    let mut i: usize = 0;
    assert(v@.skip(0) =~= v@);
    assert(out@ + without_jsonl(v@.skip(0)) =~= without_jsonl(s@));
    while i < v.len()
        invariant
            i <= v.len(),
            v@ == s@,
            pat@ == ".jsonl"@,
            out@ + without_jsonl(v@.skip(i as int)) == without_jsonl(s@),
        decreases v.len() - i,
    {
        let ghost rest = v@.skip(i as int);
        proof {
            reveal_strlit(".jsonl");
        }
        if crate::text::occurs_at_exec(&v, &pat, i) {
            proof {
                assert(".jsonl"@.is_prefix_of(rest)) by {
                    assert forall|k: int| 0 <= k < 6 implies ".jsonl"@[k] == rest[k] by {
                        assert(v@.subrange(i as int, i + 6)[k] == v@[i + k]);
                    }
                }
                assert(rest.skip(6) =~= v@.skip(i + 6));
            }
            i = i + 6;
        } else {
            proof {
                if ".jsonl"@.is_prefix_of(rest) {
                    assert(v@.subrange(i as int, i + 6) =~= pat@) by {
                        assert forall|k: int| 0 <= k < 6 implies v@.subrange(i as int, i + 6)[k] == pat@[k] by {
                            assert(rest[k] == v@[i + k]);
                        }
                    }
                }
                assert(rest.drop_first() =~= v@.skip(i + 1));
                assert(rest[0] == v@[i as int]);
                assert(out@.push(v@[i as int]) + without_jsonl(v@.skip(i + 1)) =~= out@ + (seq![v@[i as int]] + without_jsonl(
                    v@.skip(i + 1),
                )));
            }
            out.push(v[i]);
            i = i + 1;
        }
    }
    assert(v@.skip(i as int).len() == 0);
    assert(out@ + without_jsonl(v@.skip(i as int)) =~= out@);
    string_of(&out)
}

/// The title the first usable text item gives, if any.
fn title_from_item_list(items: &Vec<ContentItem>) -> (r: Option<String>)
    requires
        forall|i: int| 0 <= i < items@.len() ==> text_fits(#[trigger] items@[i]),
    ensures
        opt_view(r) == title_from_items(items@),
{
    let mut i: usize = 0;
    assert(items@.skip(0) =~= items@);
    while i < items.len()
        invariant
            i <= items.len(),
            title_from_items(items@) == title_from_items(items@.skip(i as int)),
            forall|k: int| 0 <= k < items@.len() ==> text_fits(#[trigger] items@[k]),
        decreases items.len() - i,
    {
        let it = &items[i];
        proof {
            assert(items@.skip(i as int)[0] == items@[i as int]);
            assert(items@.skip(i as int).drop_first() =~= items@.skip(i + 1));
        }
        let is_text = match &it.item_type {
            Some(t) => str_eq(t.as_str(), "text"),
            None => false,
        };
        if is_text {
            if let Some(text) = &it.text {
                let markup = str_starts_with(text.as_str(), "<");
                let command = str_contains(text.as_str(), "<command");
                proof {
                    reveal_strlit("<");
                    if text@.len() > 0 && text@[0] == '<' {
                        assert("<"@.is_prefix_of(text@));
                    }
                    if markup {
                        assert(text@[0] == "<"@[0]);
                    }
                }
                if !markup && !command {
                    let line = crate::claude::export::first_line_text(text.as_str());
                    let n = if line.len() > 60 {
                        60
                    } else {
                        line.len()
                    };
                    let cut = string_of_range(&line, 0, n);
                    proof {
                        if line@.len() > 60 {
                            assert(line@.subrange(0, 60) =~= line@.take(60));
                        } else {
                            assert(line@.subrange(0, line@.len() as int) =~= line@);
                        }
                    }
                    let line_str = string_of(&line);
                    assert(line@.len() <= text@.len()) by {
                        crate::claude::export::lemma_first_line_len(text@);
                    }
                    let long = utf8_byte_len(line_str.as_str()) > 60;
                    let mut title = cut;
                    if long {
                        push_str(&mut title, "...");
                    }
                    return Some(title);
                }
            }
        }
        i = i + 1;
    }
    assert(items@.skip(i as int).len() == 0);
    None
}

/// Summarizes a session file named `file_name` from its lines `lines` (the
/// first 50 of them are read), `total_lines` being the number of its lines.
pub fn summarize_session_lines(file_name: &str, lines: &Vec<SessionLine>, total_lines: usize) -> (r: Option<
    SessionSummary,
>)
    requires
        forall|i: int|
            0 <= i < lines@.len() ==> match #[trigger] lines@[i] {
                SessionLine::Record(rec) => forall|k: int|
                    0 <= k < items_of(rec).len() ==> text_fits(#[trigger] items_of(rec)[k]),
                _ => true,
            },
    ensures
        summary_of(file_name@, lines@, total_lines as nat, r),
{
    let is_agent = str_starts_with(file_name, "agent-");
    let limit: usize = if lines.len() > 50 {
        50
    } else {
        lines.len()
    };
    let ghost ls = take_at_most_lines(lines@, 50);
    assert(ls =~= lines@.take(limit as int));
    let mut session_id: Option<String> = None;
    let mut git_branch: Option<String> = None;
    let mut title: Option<String> = None;
    let mut count: usize = 0;
    let mut found = false;
    let mut i: usize = 0;
    assert(ls.take(0) =~= Seq::<SessionLine>::empty());
    while i < limit
        invariant
            i <= limit <= lines.len(),
            limit <= 50,
            ls == lines@.take(limit as int),
            ls == take_at_most_lines(lines@, 50),
            forall|k: int|
                0 <= k < lines@.len() ==> match #[trigger] lines@[k] {
                    SessionLine::Record(rec) => forall|j: int|
                        0 <= j < items_of(rec).len() ==> text_fits(#[trigger] items_of(rec)[j]),
                    _ => true,
                },
            count <= i,
            ({
                let st = scan_lines(ls.take(i as int));
                &&& !st.failed
                &&& st.session_id == opt_view(session_id)
                &&& st.git_branch == opt_view(git_branch)
                &&& st.title == opt_view(title)
                &&& st.count == count
                &&& st.found == found
            }),
        decreases limit - i,
    {
        proof {
            let t1 = ls.take(i + 1);
            assert(t1.drop_last() =~= ls.take(i as int));
            assert(t1.last() == lines@[i as int]);
        }
        match &lines[i] {
            SessionLine::Blank => {},
            SessionLine::Invalid => {
                proof {
                    lemma_failed_stays(ls, i as int + 1);
                }
                return None;
            },
            SessionLine::Record(rec) => {
                if session_id.is_none() {
                    session_id = crate::text::clone_opt(&rec.session_id);
                }
                if git_branch.is_none() {
                    git_branch = crate::text::clone_opt(&rec.git_branch);
                }
                let rtype: Option<&str> = match &rec.record_type {
                    Some(t) => Some(t.as_str()),
                    None => None,
                };
                let is_user = match rtype {
                    Some(t) => str_eq(t, "user"),
                    None => false,
                };
                let is_assistant = match rtype {
                    Some(t) => str_eq(t, "assistant"),
                    None => false,
                };
                let is_summary = match rtype {
                    Some(t) => str_eq(t, "summary"),
                    None => false,
                };
                if title.is_none() && is_summary {
                    title = crate::text::clone_opt(&rec.summary);
                }
                let meta = match rec.is_meta {
                    Some(b) => b,
                    None => false,
                };
                if (is_user || is_assistant) && !meta {
                    let tool_result = is_user && has_tool_result(rec);
                    if !tool_result {
                        count = count + 1;
                    }
                }
                if title.is_none() && !found && is_user && !meta {
                    if let Some(items) = &rec.items {
                        let t = title_from_item_list(items);
                        if t.is_some() {
                            title = t;
                            found = true;
                        }
                    }
                }
            },
        }
        i = i + 1;
    }
    assert(ls.take(limit as int) =~= ls);
    let message_count = if title.is_none() && !is_agent {
        total_lines
    } else {
        count
    };
    let id = match session_id {
        Some(s) => s,
        None => remove_jsonl(file_name),
    };
    Some(SessionSummary { session_id: id, title, message_count, git_branch, is_agent })
}

proof fn lemma_failed_stays(ls: Seq<SessionLine>, i: int)
    requires
        0 < i <= ls.len(),
        scan_lines(ls.take(i)).failed,
    ensures
        scan_lines(ls).failed,
    decreases ls.len() - i,
{
    if i < ls.len() {
        let t1 = ls.take(i + 1);
        assert(t1.drop_last() =~= ls.take(i));
        lemma_failed_stays(ls, i + 1);
    } else {
        assert(ls.take(i) =~= ls);
    }
}

/// Whether a user record's message holds a tool result.
fn has_tool_result(rec: &RecordSummary) -> (r: bool)
    ensures
        opt_eq(rec.record_type, "user"@) ==> r == is_tool_result(*rec),
{
    let items = match &rec.items {
        Some(v) => v,
        None => {
            return false;
        },
    };
    let mut i: usize = 0;
    while i < items.len()
        invariant
            i <= items.len(),
            items@ == items_of(*rec),
            forall|k: int| 0 <= k < i ==> !opt_eq(#[trigger] items_of(*rec)[k].item_type, "tool_result"@),
        decreases items.len() - i,
    {
        let t = match &items[i].item_type {
            Some(t) => str_eq(t.as_str(), "tool_result"),
            None => false,
        };
        if t {
            assert(opt_eq(items_of(*rec)[i as int].item_type, "tool_result"@));
            return true;
        }
        i = i + 1;
    }
    false
}

/// The forms a session is exported in.
#[derive(Debug, Clone, Copy, PartialEq, Eq, Structural)]
pub enum ExportFormat {
    Json,
    Markdown,
    Html,
}

/// The file extension of a form.
pub open spec fn format_extension(f: ExportFormat) -> Seq<char> {
    match f {
        ExportFormat::Json => "json"@,
        ExportFormat::Markdown => "md"@,
        ExportFormat::Html => "html"@,
    }
}

/// The name of the file a session (or agent) is imported to:
/// `session-{id}.{ext}` (or `agent-{id}.{ext}`), the id cut to 8 bytes.
pub open spec fn imported_name_spec(is_agent: bool, id: Seq<char>, f: ExportFormat) -> Seq<char> {
    (if is_agent { "agent-"@ } else { "session-"@ }) + short_id(id) + "."@ + format_extension(f)
}

/// The name of the file that the session (or agent) with id `id` is
/// imported to in form `f`.
pub fn imported_file_name(is_agent: bool, id: &str, f: ExportFormat) -> (r: String)
    requires
        short_id_ok(id@),
    ensures
        r@ == imported_name_spec(is_agent, id@, f),
{
    let head = short_id_text(id);
    let mut r = if is_agent {
        owned("agent-")
    } else {
        owned("session-")
    };
    push_str(&mut r, head.as_str());
    push_str(&mut r, ".");
    let ext = match f {
        ExportFormat::Json => "json",
        ExportFormat::Markdown => "md",
        ExportFormat::Html => "html",
    };
    push_str(&mut r, ext);
    r
}

} // verus!
