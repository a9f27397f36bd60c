//! How the records of a session file become a session.
use vstd::prelude::*;

use crate::claude::models::{
    ContentBlock, JsonlRecord, Message, MessageContent, MessageRole, MessageType, Session, SessionMetadata,
    ToolUse,
};
use crate::foreign::{parse_rfc3339, rfc3339_instant, Timestamp};
use crate::knowledge::{file_name_of, path_file_name};
use crate::text::{
    clone_opt, join_lines, join_with_newlines, opt_view, owned, str_eq, str_starts_with, views,
};
use crate::SynapseError;

verus! {

/// Reads the session files of one project.
pub struct SessionParser {
    project_dir: String,
}

/// The optional string `o` holds exactly the characters `t`.
pub open spec fn opt_is(o: Option<String>, t: Seq<char>) -> bool {
    match o {
        Some(s) => s@ == t,
        None => false,
    }
}

/// The characters of `o`, or `d` when it is absent.
pub open spec fn opt_or(o: Option<String>, d: Seq<char>) -> Seq<char> {
    match o {
        Some(s) => s@,
        None => d,
    }
}

/// The content blocks of a record: those of its message when the message's
/// content is a list, none otherwise.
pub open spec fn record_blocks(r: JsonlRecord) -> Seq<ContentBlock> {
    match r.message {
        Some(m) => match m.content {
            Some(v) => v@,
            None => Seq::empty(),
        },
        None => Seq::empty(),
    }
}

/// The texts of the `text` blocks, in order.
pub open spec fn text_parts(bs: Seq<ContentBlock>) -> Seq<Seq<char>>
    decreases bs.len(),
{
    if bs.len() == 0 {
        Seq::empty()
    } else {
        let p = text_parts(bs.drop_last());
        let b = bs.last();
        if opt_is(b.block_type, "text"@) && b.text is Some {
            p.push(opt_or(b.text, Seq::empty()))
        } else {
            p
        }
    }
}

/// The reasoning of the last `thinking` block that has one.
pub open spec fn last_thinking(bs: Seq<ContentBlock>) -> Option<Seq<char>>
    decreases bs.len(),
{
    if bs.len() == 0 {
        None
    } else {
        let b = bs.last();
        if opt_is(b.block_type, "thinking"@) && b.thinking is Some {
            Some(opt_or(b.thinking, Seq::empty()))
        } else {
            last_thinking(bs.drop_last())
        }
    }
}

/// The `tool_use` blocks, in order.
pub open spec fn tool_blocks(bs: Seq<ContentBlock>) -> Seq<ContentBlock> {
    bs.filter(|b: ContentBlock| opt_is(b.block_type, "tool_use"@))
}

/// The instant of a record, when it has one in RFC 3339 form.
pub open spec fn record_time(r: JsonlRecord) -> Option<Timestamp> {
    match r.timestamp {
        Some(t) => rfc3339_instant(t@),
        None => None,
    }
}

/// The kind named by a record's `type`; unknown or missing kinds are system
/// records.
pub open spec fn message_type_of(t: Option<Seq<char>>) -> MessageType {
    match t {
        Some(s) => if s == "user"@ {
            MessageType::User
        } else if s == "assistant"@ {
            MessageType::Assistant
        } else if s == "system"@ {
            MessageType::System
        } else if s == "summary"@ {
            MessageType::Summary
        } else if s == "file-history-snapshot"@ {
            MessageType::FileHistorySnapshot
        } else {
            MessageType::System
        },
        None => MessageType::System,
    }
}

/// The role named by a record's message.
pub open spec fn role_of(r: JsonlRecord) -> Option<MessageRole> {
    match r.message {
        Some(m) => match m.role {
            Some(s) => if s@ == "user"@ {
                Some(MessageRole::User)
            } else if s@ == "assistant"@ {
                Some(MessageRole::Assistant)
            } else if s@ == "system"@ {
                Some(MessageRole::System)
            } else {
                None
            },
            None => None,
        },
        None => None,
    }
}

/// `c` holds the readable parts of record `r`: its texts joined by
/// newlines (none when there is no text), its last reasoning, and the JSON
/// text of its message (`null` without one).
pub open spec fn content_of(r: JsonlRecord, c: MessageContent) -> bool {
    &&& (if text_parts(record_blocks(r)).len() == 0 {
        c.text is None
    } else {
        opt_view(c.text) == Some(join_lines(text_parts(record_blocks(r))))
    })
    &&& opt_view(c.thinking) == last_thinking(record_blocks(r))
    &&& c.raw_content@ == match r.message {
        Some(m) => m.raw@,
        None => "null"@,
    }
}

/// `t` is the tool call of block `b` of record `r`: its id (empty when
/// missing), its name (`unknown` when missing), the record's instant, its
/// input (`null` when missing) and no outcome yet.
pub open spec fn tool_use_of(r: JsonlRecord, b: ContentBlock, t: ToolUse) -> bool {
    &&& t.tool_id@ == opt_or(b.id, Seq::empty())
    &&& t.tool_name@ == opt_or(b.name, "unknown"@)
    &&& t.timestamp == record_time(r)
    &&& t.input@ == opt_or(b.input, "null"@)
    &&& t.output is None
}

/// `ts` are the tool calls of record `r`, one per `tool_use` block.
pub open spec fn tool_uses_of(r: JsonlRecord, ts: Seq<ToolUse>) -> bool {
    &&& ts.len() == tool_blocks(record_blocks(r)).len()
    &&& forall|i: int| 0 <= i < ts.len() ==> tool_use_of(r, tool_blocks(record_blocks(r))[i], #[trigger] ts[i])
}

/// `m` is the message of record `r`.
pub open spec fn message_of(r: JsonlRecord, m: Message) -> bool {
    &&& m.uuid@ == opt_or(r.uuid, Seq::empty())
    &&& opt_view(m.parent_uuid) == opt_view(r.parent_uuid)
    &&& m.is_sidechain == match r.is_sidechain {
        Some(b) => b,
        None => false,
    }
    &&& m.message_type == message_type_of(opt_view(r.message_type))
    &&& m.role == role_of(r)
    &&& m.timestamp == record_time(r)
    &&& content_of(r, m.content)
    &&& tool_uses_of(r, m.tool_uses@)
}

/// The records that carry an id, in order.
pub open spec fn with_uuid(rs: Seq<JsonlRecord>) -> Seq<JsonlRecord> {
    rs.filter(|r: JsonlRecord| r.uuid is Some)
}

/// The instants of the records that have one, in order.
pub open spec fn record_times(rs: Seq<JsonlRecord>) -> Seq<Timestamp>
    decreases rs.len(),
{
    if rs.len() == 0 {
        Seq::empty()
    } else {
        let p = record_times(rs.drop_last());
        match record_time(rs.last()) {
            Some(t) => p.push(t),
            None => p,
        }
    }
}

/// The whole seconds from `start` to `end`, rounded toward zero.
pub open spec fn whole_seconds_between(start: Timestamp, end: Timestamp) -> int {
    let n = (end.secs - start.secs) * 1_000_000_000 + (end.nanos - start.nanos);
    if n >= 0 {
        n / 1_000_000_000
    } else {
        -((-n) / 1_000_000_000)
    }
}

/// The records whose message calls at least one tool.
pub open spec fn records_with_tools(rs: Seq<JsonlRecord>) -> Seq<JsonlRecord> {
    rs.filter(|r: JsonlRecord| tool_blocks(record_blocks(r)).len() > 0)
}

/// `md` is what records `rs` of a file of `file_size` bytes tell of their
/// session: the first record's directory, version and branch; the first and
/// last instants and the whole seconds between them; the number of records
/// and of records that call tools.
pub open spec fn metadata_of(rs: Seq<JsonlRecord>, file_size: u64, md: SessionMetadata) -> bool {
    let ts = record_times(rs);
    &&& opt_view(md.cwd) == (if rs.len() > 0 { opt_view(rs[0].cwd) } else { None })
    &&& opt_view(md.version) == (if rs.len() > 0 { opt_view(rs[0].version) } else { None })
    &&& opt_view(md.git_branch) == (if rs.len() > 0 { opt_view(rs[0].git_branch) } else { None })
    &&& md.start_time == (if ts.len() > 0 { Some(ts[0]) } else { None })
    &&& md.end_time == (if ts.len() > 0 { Some(ts.last()) } else { None })
    &&& md.duration_seconds == (if ts.len() > 0 {
        Some(whole_seconds_between(ts[0], ts.last()) as i64)
    } else {
        None
    })
    &&& (ts.len() > 0 ==> i64::MIN <= whole_seconds_between(ts[0], ts.last()) <= i64::MAX)
    &&& md.message_count == rs.len()
    &&& md.tool_call_count == records_with_tools(rs).len()
    &&& md.file_size_bytes == file_size
}

/// A file name with `prefix` removed from its start as often as it occurs
/// (`str::trim_start_matches`).
pub open spec fn trim_prefix_all(s: Seq<char>, prefix: Seq<char>) -> Seq<char>
    decreases s.len(),
{
    if prefix.len() > 0 && prefix.is_prefix_of(s) {
        trim_prefix_all(s.skip(prefix.len() as int), prefix)
    } else {
        s
    }
}

/// A file name with `suffix` removed from its end as often as it occurs
/// (`str::trim_end_matches`).
pub open spec fn trim_suffix_all(s: Seq<char>, suffix: Seq<char>) -> Seq<char>
    decreases s.len(),
{
    if suffix.len() > 0 && suffix.is_suffix_of(s) {
        trim_suffix_all(s.take(s.len() - suffix.len()), suffix)
    } else {
        s
    }
}

/// `s` without every leading `prefix`.
fn trim_start_matches(s: &str, prefix: &str) -> (r: String)
    ensures
        r@ == trim_prefix_all(s@, prefix@),
{
    let v = crate::text::chars_of(s);
    let p = crate::text::chars_of(prefix);
    if p.len() == 0 {
        return owned(s);
    }
    let mut i: usize = 0;
    assert(v@.skip(0) =~= v@);
    while p.len() <= v.len() - i && crate::text::occurs_at_exec(&v, &p, i)
        invariant
            p@.len() > 0,
            i <= v.len(),
            v@ == s@,
            trim_prefix_all(s@, prefix@) == trim_prefix_all(v@.skip(i as int), p@),
            p@ == prefix@,
        decreases v.len() - i,
    {
        proof {
            let rest = v@.skip(i as int);
            assert(rest.subrange(0, p@.len() as int) =~= v@.subrange(i as int, i + p@.len()));
            assert(p@.is_prefix_of(rest)) by {
                assert forall|k: int| 0 <= k < p@.len() implies p@[k] == rest[k] by {
                    assert(v@.subrange(i as int, i + p@.len())[k] == v@[i + k]);
                }
            }
            assert(rest.skip(p@.len() as int) =~= v@.skip(i + p@.len()));
        }
        i = i + p.len();
    }
    proof {
        let rest = v@.skip(i as int);
        if p@.is_prefix_of(rest) {
            assert(i + p@.len() <= v@.len());
            assert(v@.subrange(i as int, i + p@.len()) =~= p@) by {
                assert forall|k: int| 0 <= k < p@.len() implies v@.subrange(i as int, i + p@.len())[k] == p@[k] by {
                    assert(rest[k] == v@[i + k]);
                }
            }
        }
    }
    crate::text::string_of_range(&v, i, v.len())
}

/// `s` without every trailing `suffix`.
fn trim_end_matches(s: &str, suffix: &str) -> (r: String)
    ensures
        r@ == trim_suffix_all(s@, suffix@),
{
    let v = crate::text::chars_of(s);
    let p = crate::text::chars_of(suffix);
    if p.len() == 0 {
        return owned(s);
    }
    let mut j: usize = v.len();
    assert(v@.take(v@.len() as int) =~= v@);
    while j >= p.len() && crate::text::occurs_at_exec(&v, &p, j - p.len())
        invariant
            p@.len() > 0,
            j <= v.len(),
            v@ == s@,
            trim_suffix_all(s@, suffix@) == trim_suffix_all(v@.take(j as int), p@),
            p@ == suffix@,
        decreases j,
    {
        proof {
            let head = v@.take(j as int);
            let k0 = j - p@.len();
            assert(p@.is_suffix_of(head)) by {
                assert forall|k: int| 0 <= k < p@.len() implies p@[k] == head[head.len() - p@.len() + k] by {
                    assert(v@.subrange(k0, k0 + p@.len())[k] == v@[k0 + k]);
                }
            }
            assert(head.take(head.len() - p@.len()) =~= v@.take(k0));
        }
        j = j - p.len();
    }
    proof {
        let head = v@.take(j as int);
        if p@.is_suffix_of(head) {
            let k0 = j - p@.len();
            assert(v@.subrange(k0, k0 + p@.len()) =~= p@) by {
                assert forall|k: int| 0 <= k < p@.len() implies v@.subrange(k0, k0 + p@.len())[k] == p@[k] by {
                    assert(head[head.len() - p@.len() + k] == v@[k0 + k]);
                }
            }
        }
    }
    crate::text::string_of_range(&v, 0, j)
}

impl SessionParser {
    /// A parser for the sessions of project directory `project_dir`.
    pub fn new(project_dir: String) -> (r: SessionParser)
        ensures
            r.project_dir_spec() == project_dir@,
    {
        SessionParser { project_dir }
    }

    /// The project directory.
    pub closed spec fn project_dir_spec(&self) -> Seq<char> {
        self.project_dir@
    }

    /// The project directory.
    pub fn project_dir(&self) -> (r: &str)
        ensures
            r@ == self.project_dir_spec(),
    {
        self.project_dir.as_str()
    }

    /// The kind named by a record's `type`.
    pub fn parse_message_type(&self, type_str: Option<&str>) -> (r: MessageType)
        ensures
            r == message_type_of(match type_str {
                Some(s) => Some(s@),
                None => None,
            }),
    {
        match type_str {
            Some(s) => if str_eq(s, "user") {
                MessageType::User
            } else if str_eq(s, "assistant") {
                MessageType::Assistant
            } else if str_eq(s, "system") {
                MessageType::System
            } else if str_eq(s, "summary") {
                MessageType::Summary
            } else if str_eq(s, "file-history-snapshot") {
                MessageType::FileHistorySnapshot
            } else {
                MessageType::System
            },
            None => MessageType::System,
        }
    }

    /// The readable parts of a record and the tools it calls.
    pub fn extract_content_and_tools(&self, record: &JsonlRecord) -> (r: (MessageContent, Vec<ToolUse>))
        ensures
            content_of(*record, r.0),
            tool_uses_of(*record, r.1@),
    {
        let raw = match &record.message {
            Some(m) => m.raw.clone(),
            None => owned("null"),
        };
        let time = match &record.timestamp {
            Some(t) => parse_rfc3339(t.as_str()),
            None => None,
        };
        let empty: Vec<ContentBlock> = Vec::new();
        let blocks: &Vec<ContentBlock> = match &record.message {
            Some(m) => match &m.content {
                Some(v) => v,
                None => &empty,
            },
            None => &empty,
        };
        assert(blocks@ == record_blocks(*record));
        let ghost bs = blocks@;
        let mut texts: Vec<String> = Vec::new();
        let mut thinking: Option<String> = None;
        let mut tools: Vec<ToolUse> = Vec::new();
        let mut i: usize = 0;
        while i < blocks.len()
            invariant
                i <= blocks.len(),
                bs == blocks@,
                bs == record_blocks(*record),
                time == record_time(*record),
                views(texts@) == text_parts(bs.take(i as int)),
                opt_view(thinking) == last_thinking(bs.take(i as int)),
                tools@.len() == tool_blocks(bs.take(i as int)).len(),
                forall|k: int|
                    0 <= k < tools@.len() ==> tool_use_of(*record, tool_blocks(bs.take(i as int))[k], #[trigger] tools@[k]),
            decreases blocks.len() - i,
        {
            let b = &blocks[i];
            let ghost t1 = bs.take(i + 1);
            proof {
                assert(t1.drop_last() =~= bs.take(i as int));
                assert(t1.last() == bs[i as int]);
                reveal(Seq::filter);
            }
            let ghost tb0 = tool_blocks(bs.take(i as int));
            let is_text = match &b.block_type {
                Some(t) => str_eq(t.as_str(), "text"),
                None => false,
            };
            let is_thinking = match &b.block_type {
                Some(t) => str_eq(t.as_str(), "thinking"),
                None => false,
            };
            let is_tool = match &b.block_type {
                Some(t) => str_eq(t.as_str(), "tool_use"),
                None => false,
            };
            assert(is_text == opt_is(b.block_type, "text"@));
            assert(is_thinking == opt_is(b.block_type, "thinking"@));
            assert(is_tool == opt_is(b.block_type, "tool_use"@));
            if is_text {
                if let Some(t) = &b.text {
                    texts.push(t.clone());
                }
            }
            if is_thinking {
                if let Some(t) = &b.thinking {
                    thinking = Some(t.clone());
                }
            }
            if is_tool {
                let tool = ToolUse {
                    tool_id: match &b.id {
                        Some(id) => id.clone(),
                        None => String::new(),
                    },
                    tool_name: match &b.name {
                        Some(n) => n.clone(),
                        None => owned("unknown"),
                    },
                    timestamp: match &time {
                        Some(t) => Some(t.copy()),
                        None => None,
                    },
                    input: match &b.input {
                        Some(v) => v.clone(),
                        None => owned("null"),
                    },
                    output: None,
                };
                assert(tool.tool_id@ == opt_or(bs[i as int].id, Seq::empty()));
                assert(tool.tool_name@ == opt_or(bs[i as int].name, "unknown"@));
                assert(tool.timestamp == record_time(*record));
                assert(tool.input@ == opt_or(bs[i as int].input, "null"@));
                assert(tool_use_of(*record, bs[i as int], tool));
                tools.push(tool);
                proof {
                    assert(tool_blocks(t1) == tb0.push(bs[i as int]));
                    assert forall|k: int| 0 <= k < tools@.len() implies tool_use_of(
                        *record,
                        tool_blocks(t1)[k],
                        #[trigger] tools@[k],
                    ) by {
                        if k < tools@.len() - 1 {
                            assert(tool_blocks(t1)[k] == tb0[k]);
                        }
                    }
                }
            } else {
                proof {
                    assert(tool_blocks(t1) == tb0);
                }
            }
            proof {
                assert(views(texts@) =~= text_parts(t1));
            }
            i = i + 1;
        }
        assert(bs.take(bs.len() as int) =~= bs);
        let text = if texts.len() == 0 {
            None
        } else {
            Some(join_with_newlines(&texts))
        };
        (MessageContent { text, thinking, raw_content: raw }, tools)
    }

    /// The message of a record.
    pub fn build_message(&self, record: &JsonlRecord) -> (m: Message)
        ensures
            message_of(*record, m),
    {
        let message_type = self.parse_message_type(
            match &record.message_type {
                Some(s) => Some(s.as_str()),
                None => None,
            },
        );
        let role = match &record.message {
            Some(msg) => match &msg.role {
                Some(r) => if str_eq(r.as_str(), "user") {
                    Some(MessageRole::User)
                } else if str_eq(r.as_str(), "assistant") {
                    Some(MessageRole::Assistant)
                } else if str_eq(r.as_str(), "system") {
                    Some(MessageRole::System)
                } else {
                    None
                },
                None => None,
            },
            None => None,
        };
        let timestamp = match &record.timestamp {
            Some(t) => parse_rfc3339(t.as_str()),
            None => None,
        };
        let (content, tool_uses) = self.extract_content_and_tools(record);
        assert(message_type == message_type_of(opt_view(record.message_type)));
        assert(role == role_of(*record));
        assert(timestamp == record_time(*record));
        Message {
            uuid: match &record.uuid {
                Some(u) => u.clone(),
                None => String::new(),
            },
            parent_uuid: clone_opt(&record.parent_uuid),
            is_sidechain: match record.is_sidechain {
                Some(b) => b,
                None => false,
            },
            message_type,
            role,
            timestamp,
            content,
            tool_uses,
        }
    }

    /// The messages of the records that carry an id, in order.
    pub fn build_messages(&self, records: &Vec<JsonlRecord>) -> (r: Vec<Message>)
        ensures
            r@.len() == with_uuid(records@).len(),
            forall|i: int| 0 <= i < r@.len() ==> message_of(with_uuid(records@)[i], #[trigger] r@[i]),
    {
        let mut out: Vec<Message> = Vec::new();
        let mut i: usize = 0;
        while i < records.len()
            invariant
                i <= records.len(),
                out@.len() == with_uuid(records@.take(i as int)).len(),
                forall|k: int|
                    0 <= k < out@.len() ==> message_of(with_uuid(records@.take(i as int))[k], #[trigger] out@[k]),
            decreases records.len() - i,
        {
            let ghost t1 = records@.take(i + 1);
            let ghost w0 = with_uuid(records@.take(i as int));
            proof {
                assert(t1.drop_last() =~= records@.take(i as int));
                assert(t1.last() == records@[i as int]);
                reveal(Seq::filter);
            }
            if records[i].uuid.is_some() {
                let m = self.build_message(&records[i]);
                out.push(m);
                proof {
                    assert(with_uuid(t1) == w0.push(records@[i as int]));
                    assert forall|k: int| 0 <= k < out@.len() implies message_of(with_uuid(t1)[k], #[trigger] out@[k]) by {
                        if k < out@.len() - 1 {
                            assert(with_uuid(t1)[k] == w0[k]);
                        }
                    }
                }
            } else {
                assert(with_uuid(t1) == w0);
            }
            i = i + 1;
        }
        assert(records@.take(records@.len() as int) =~= records@);
        out
    }

    /// What the records of a file of `file_size` bytes tell of their session.
    pub fn extract_metadata(&self, records: &Vec<JsonlRecord>, file_size: u64) -> (md: SessionMetadata)
        ensures
            metadata_of(records@, file_size, md),
    {
        let mut first: Option<Timestamp> = None;
        let mut last: Option<Timestamp> = None;
        let mut with_tools: usize = 0;
        let mut i: usize = 0;
        while i < records.len()
            invariant
                i <= records.len(),
                with_tools == records_with_tools(records@.take(i as int)).len(),
                with_tools <= i,
                match first {
                    Some(t) => record_times(records@.take(i as int)).len() > 0 && t == record_times(
                        records@.take(i as int),
                    )[0],
                    None => record_times(records@.take(i as int)).len() == 0,
                },
                match last {
                    Some(t) => record_times(records@.take(i as int)).len() > 0 && t == record_times(
                        records@.take(i as int),
                    ).last(),
                    None => record_times(records@.take(i as int)).len() == 0,
                },
                first matches Some(t) ==> -0x1_0000_0000_0000 <= t.secs <= 0x1_0000_0000_0000 && t.nanos
                    < 2_000_000_000,
                last matches Some(t) ==> -0x1_0000_0000_0000 <= t.secs <= 0x1_0000_0000_0000 && t.nanos
                    < 2_000_000_000,
            decreases records.len() - i,
        {
            let r = &records[i];
            let ghost t1 = records@.take(i + 1);
            proof {
                assert(t1.drop_last() =~= records@.take(i as int));
                assert(t1.last() == records@[i as int]);
                reveal(Seq::filter);
            }
            let time = match &r.timestamp {
                Some(t) => parse_rfc3339(t.as_str()),
                None => None,
            };
            if let Some(t) = time {
                if first.is_none() {
                    first = Some(t.copy());
                }
                last = Some(t);
                proof {
                    assert(record_times(t1) == record_times(records@.take(i as int)).push(t));
                }
            }
            let calls = Self::has_tool_block(r);
            if calls {
                with_tools = with_tools + 1;
            }
            i = i + 1;
        }
        assert(records@.take(records@.len() as int) =~= records@);
        let duration = match (&first, &last) {
            (Some(s), Some(e)) => {
                let ds: i128 = e.secs as i128 - s.secs as i128;
                let dn: i128 = e.nanos as i128 - s.nanos as i128;
                let n: i128 = ds * 1_000_000_000 + dn;
                let secs: i128 = if n >= 0 {
                    n / 1_000_000_000
                } else {
                    0 - ((0 - n) / 1_000_000_000)
                };
                assert(-0x4_0000_0000_0000 <= secs <= 0x4_0000_0000_0000);
                Some(secs as i64)
            },
            _ => None,
        };
        let (cwd, version, git_branch) = if records.len() > 0 {
            (clone_opt(&records[0].cwd), clone_opt(&records[0].version), clone_opt(&records[0].git_branch))
        } else {
            (None, None, None)
        };
        SessionMetadata {
            cwd,
            version,
            git_branch,
            start_time: first,
            end_time: last,
            duration_seconds: duration,
            message_count: records.len(),
            tool_call_count: with_tools,
            file_size_bytes: file_size,
        }
    }

    /// Whether the message of `r` has a `tool_use` block.
    fn has_tool_block(r: &JsonlRecord) -> (b: bool)
        ensures
            b == (tool_blocks(record_blocks(*r)).len() > 0),
    {
        let blocks = match &r.message {
            Some(m) => match &m.content {
                Some(v) => v,
                None => {
                    assert(record_blocks(*r).len() == 0);
                    assert(tool_blocks(record_blocks(*r)) =~= Seq::<ContentBlock>::empty());
                    return false;
                },
            },
            None => {
                assert(record_blocks(*r).len() == 0);
                assert(tool_blocks(record_blocks(*r)) =~= Seq::<ContentBlock>::empty());
                return false;
            },
        };
        let ghost bs = blocks@;
        let mut i: usize = 0;
        while i < blocks.len()
            invariant
                i <= blocks.len(),
                bs == blocks@,
                bs == record_blocks(*r),
                tool_blocks(bs.take(i as int)).len() == 0,
            decreases blocks.len() - i,
        {
            let ghost t1 = bs.take(i + 1);
            proof {
                assert(t1.drop_last() =~= bs.take(i as int));
                assert(t1.last() == bs[i as int]);
                reveal(Seq::filter);
            }
            let is_tool = match &blocks[i].block_type {
                Some(t) => str_eq(t.as_str(), "tool_use"),
                None => false,
            };
            if is_tool {
                proof {
                    lemma_filter_len_grows(bs, i as int + 1);
                }
                return true;
            }
            i = i + 1;
        }
        assert(bs.take(bs.len() as int) =~= bs);
        false
    }

    /// The session that the records of file `file_path` (of `file_size`
    /// bytes) make. A file named `agent-{id}.jsonl` holds an agent, whose
    /// session is the one its first record names; another file holds the
    /// main session named by the file. The parent session is the one the
    /// first record names. Fails when the path has no file name.
    pub fn build_session(&self, file_path: &str, records: Vec<JsonlRecord>, file_size: u64) -> (r: Result<
        Session,
        SynapseError,
    >)
        ensures
            path_file_name(file_path@) is None <==> r is Err,
            r matches Err(e) ==> (e matches SynapseError::Config(m) && m@ == "Invalid filename"@),
            r matches Ok(s) ==> session_of(path_file_name(file_path@)->0, records@, file_size, s),
    {
        let filename = match file_name_of(file_path) {
            Some(f) => f,
            None => return Err(SynapseError::Config(owned("Invalid filename"))),
        };
        let is_agent = str_starts_with(filename.as_str(), "agent-");
        let first_session = if records.len() > 0 {
            clone_opt(&records[0].session_id)
        } else {
            None
        };
        let session_id = if is_agent {
            match &first_session {
                Some(s) => s.clone(),
                None => String::new(),
            }
        } else {
            trim_end_matches(filename.as_str(), ".jsonl")
        };
        let agent_id = if is_agent {
            let head = trim_start_matches(filename.as_str(), "agent-");
            Some(trim_end_matches(head.as_str(), ".jsonl"))
        } else {
            None
        };
        let metadata = self.extract_metadata(&records, file_size);
        let messages = self.build_messages(&records);
        assert(filename@ == path_file_name(file_path@)->0);
        assert(is_agent == "agent-"@.is_prefix_of(filename@));
        assert(opt_view(first_session) == (if records@.len() > 0 { opt_view(records@[0].session_id) } else { None }));
        Ok(Session {
            session_id,
            is_agent,
            agent_id,
            parent_session_id: first_session,
            metadata,
            messages,
            child_agents: Vec::new(),
        })
    }
}

proof fn lemma_filter_len_grows(bs: Seq<ContentBlock>, j: int)
    requires
        0 < j <= bs.len(),
        opt_is(bs[j - 1].block_type, "tool_use"@),
    ensures
        tool_blocks(bs).len() > 0,
    decreases bs.len(),
{
    reveal(Seq::filter);
    if j == bs.len() {
        assert(bs.last() == bs[j - 1]);
    } else {
        assert(bs.drop_last()[j - 1] == bs[j - 1]);
        lemma_filter_len_grows(bs.drop_last(), j);
    }
}

/// `s` is the session that records `rs` of a file named `filename` (of
/// `file_size` bytes) make.
pub open spec fn session_of(filename: Seq<char>, rs: Seq<JsonlRecord>, file_size: u64, s: Session) -> bool {
    let is_agent = "agent-"@.is_prefix_of(filename);
    let first_session = if rs.len() > 0 { opt_view(rs[0].session_id) } else { None };
    &&& s.is_agent == is_agent
    &&& s.session_id@ == (if is_agent {
        match first_session {
            Some(id) => id,
            None => Seq::empty(),
        }
    } else {
        trim_suffix_all(filename, ".jsonl"@)
    })
    &&& opt_view(s.agent_id) == (if is_agent {
        Some(trim_suffix_all(trim_prefix_all(filename, "agent-"@), ".jsonl"@))
    } else {
        None
    })
    &&& opt_view(s.parent_session_id) == first_session
    &&& metadata_of(rs, file_size, s.metadata)
    &&& s.messages@.len() == with_uuid(rs).len()
    &&& forall|i: int| 0 <= i < s.messages@.len() ==> message_of(with_uuid(rs)[i], #[trigger] s.messages@[i])
    &&& s.child_agents@.len() == 0
}

} // verus!
