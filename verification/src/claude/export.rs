//! Exporting sessions: the thread structure of a session, its Markdown
//! rendering, and the text helpers of the HTML rendering.
use vstd::prelude::*;

use crate::claude::analyzer::{MessageFlowNode, SessionStatistics};
use crate::claude::models::{Message, MessageContent, MessageRole, MessageType, Session, SessionMetadata, ToolResult, ToolUse};
use crate::foreign::{format_rfc3339, json_pretty, pretty_json, rfc3339_text, Timestamp};
use crate::text::{
    char_width, chars_of, contains_seq, occurs_at, clone_opt, clone_strings, decimal, index_of_char, lemma_utf8_len_append, opt_view, owned,
    push_char, push_decimal, push_signed_decimal, push_str, signed_decimal, string_of_range, utf8_len, utf8_width, views,
};

verus! {

/// Exports sessions.
pub struct SessionExporter {}

/// A session as a thread.
pub struct ThreadData {
    pub thread_id: String,
    pub title: String,
    pub created_at: Option<Timestamp>,
    pub updated_at: Option<Timestamp>,
    pub status: String,
    pub metadata: ThreadMetadata,
    pub messages: Vec<ThreadMessage>,
    pub child_agents: Vec<String>,
    pub statistics: SessionStatistics,
}

/// What a thread records of its session.
pub struct ThreadMetadata {
    pub cwd: Option<String>,
    pub git_branch: Option<String>,
    pub version: Option<String>,
    pub duration_seconds: Option<i64>,
    pub message_count: usize,
    pub tool_call_count: usize,
    pub is_agent: bool,
    pub parent_session_id: Option<String>,
}

/// A message of a thread.
pub struct ThreadMessage {
    pub uuid: String,
    pub parent_uuid: Option<String>,
    pub role: Option<MessageRole>,
    pub timestamp: Option<Timestamp>,
    pub content: Option<String>,
    pub thinking: Option<String>,
    pub tool_uses: Vec<ToolUse>,
    pub message_type: MessageType,
}

impl Default for SessionExporter {
    /// The exporter.
    fn default() -> (r: SessionExporter)
        ensures
            r == (SessionExporter {}),
    {
        SessionExporter::new()
    }
}

/// The first line of `t`: up to its first newline, without a carriage
/// return just before it (`str::lines`).
pub open spec fn first_line(t: Seq<char>) -> Seq<char> {
    match index_of_char(t, '\n') {
        Some(i) => {
            let l = t.take(i);
            if l.len() > 0 && l.last() == '\r' {
                l.drop_last()
            } else {
                l
            }
        },
        None => t,
    }
}

/// At most the first `n` characters of `s`.
pub open spec fn take_at_most(s: Seq<char>, n: int) -> Seq<char> {
    if s.len() > n {
        s.take(n)
    } else {
        s
    }
}

/// The first 8 bytes of `id` (all of it when shorter), as `&id[..8]` cuts
/// a session id.
pub open spec fn short_id(id: Seq<char>) -> Seq<char> {
    if utf8_len(id) >= 8 {
        take_bytes(id, 8)
    } else {
        id
    }
}

/// Cutting `id` after 8 bytes falls on a character boundary, when `id` has
/// that many.
pub open spec fn short_id_ok(id: Seq<char>) -> bool {
    utf8_len(id) >= 8 ==> utf8_len(take_bytes(id, 8)) == 8
}

/// The title that the messages give: the first line (at most 100
/// characters) of the text of the first message by the user whose text has
/// a non-empty first line.
pub open spec fn title_from_messages(ms: Seq<Message>) -> Option<Seq<char>>
    decreases ms.len(),
{
    if ms.len() == 0 {
        None
    } else {
        let m = ms[0];
        let found = m.role == Some(MessageRole::User) && m.content.text is Some && first_line(
            opt_view(m.content.text)->0,
        ).len() > 0;
        if found {
            Some(take_at_most(first_line(opt_view(m.content.text)->0), 100))
        } else {
            title_from_messages(ms.drop_first())
        }
    }
}

/// The longest prefix of `s` whose UTF-8 form fits in `n` bytes.
pub open spec fn take_bytes(s: Seq<char>, n: int) -> Seq<char>
    decreases s.len(),
{
    if s.len() == 0 || utf8_width(s[0]) > n {
        Seq::empty()
    } else {
        seq![s[0]] + take_bytes(s.drop_first(), n - utf8_width(s[0]))
    }
}

/// The title of a session: the one its messages give, else `Session `
/// followed by the first 8 bytes of its id (all of it when shorter).
pub open spec fn session_title(s: Session) -> Seq<char> {
    match title_from_messages(s.messages@) {
        Some(t) => t,
        None => "Session "@ + short_id(s.session_id@),
    }
}

/// Taking the first 8 bytes of the id of `s` cuts it at a character
/// boundary, whenever the title comes from the id.
pub open spec fn title_cut_ok(s: Session) -> bool {
    title_from_messages(s.messages@) is None ==> short_id_ok(s.session_id@)
}

/// A duration in seconds for people: `{s}s` under a minute, `{m}m {s}s`
/// under an hour, `{h}h {m}m` from an hour on.
pub open spec fn duration_text(seconds: int) -> Seq<char> {
    if seconds < 60 {
        signed_decimal(seconds) + "s"@
    } else if seconds < 3600 {
        decimal((seconds / 60) as nat) + "m "@ + decimal((seconds % 60) as nat) + "s"@
    } else {
        decimal((seconds / 3600) as nat) + "h "@ + decimal(((seconds % 3600) / 60) as nat) + "m"@
    }
}

/// The HTML escape of one character.
pub open spec fn escape_char(c: char) -> Seq<char> {
    if c == '&' {
        "&amp;"@
    } else if c == '<' {
        "&lt;"@
    } else if c == '>' {
        "&gt;"@
    } else if c == '"' {
        "&quot;"@
    } else if c == '\'' {
        "&#x27;"@
    } else {
        seq![c]
    }
}

/// `s` with `&`, `<`, `>`, `"` and `'` written as HTML entities.
pub open spec fn escape_html_spec(s: Seq<char>) -> Seq<char>
    decreases s.len(),
{
    if s.len() == 0 {
        Seq::empty()
    } else {
        escape_html_spec(s.drop_last()) + escape_char(s.last())
    }
}

/// `t` is the thread message of `m`.
pub open spec fn thread_message_of(m: Message, t: ThreadMessage) -> bool {
    &&& t.uuid@ == m.uuid@
    &&& opt_view(t.parent_uuid) == opt_view(m.parent_uuid)
    &&& t.role == m.role
    &&& t.timestamp == m.timestamp
    &&& opt_view(t.content) == opt_view(m.content.text)
    &&& opt_view(t.thinking) == opt_view(m.content.thinking)
    &&& t.tool_uses@.len() == m.tool_uses@.len()
    &&& forall|i: int| 0 <= i < t.tool_uses@.len() ==> same_tool_use(#[trigger] t.tool_uses@[i], m.tool_uses@[i])
    &&& t.message_type == m.message_type
}

/// Two tool calls with the same values.
pub open spec fn same_tool_use(a: ToolUse, b: ToolUse) -> bool {
    &&& a.tool_id@ == b.tool_id@
    &&& a.tool_name@ == b.tool_name@
    &&& a.timestamp == b.timestamp
    &&& a.input@ == b.input@
    &&& match (a.output, b.output) {
        (Some(x), Some(y)) => same_tool_result(x, y),
        (None, None) => true,
        _ => false,
    }
}

/// Two tool outcomes with the same values.
pub open spec fn same_tool_result(a: ToolResult, b: ToolResult) -> bool {
    &&& a.success == b.success
    &&& a.content@ == b.content@
    &&& opt_view(a.error) == opt_view(b.error)
    &&& a.execution_time_ms == b.execution_time_ms
}

/// Two statistics with the same values.
pub open spec fn same_statistics(a: SessionStatistics, b: SessionStatistics) -> bool {
    &&& a.total_messages == b.total_messages
    &&& a.tool_calls == b.tool_calls
    &&& crate::claude::analyzer::usage_view(a.tool_usage@) == crate::claude::analyzer::usage_view(b.tool_usage@)
    &&& a.message_flow@.len() == b.message_flow@.len()
    &&& forall|i: int| 0 <= i < a.message_flow@.len() ==> same_flow_node(#[trigger] a.message_flow@[i], b.message_flow@[i])
    &&& a.duration_seconds == b.duration_seconds
}

/// Two flow nodes with the same values.
pub open spec fn same_flow_node(a: MessageFlowNode, b: MessageFlowNode) -> bool {
    &&& a.uuid@ == b.uuid@
    &&& opt_view(a.parent_uuid) == opt_view(b.parent_uuid)
    &&& a.role == b.role
    &&& a.timestamp == b.timestamp
    &&& a.has_tools == b.has_tools
}

/// `td` is the thread of `session` with statistics `stats`: its id and
/// title, its first and last instants, `complete` when it has a last
/// instant and `in-progress` otherwise, its metadata, messages, children and
/// statistics.
pub open spec fn thread_of(session: Session, stats: SessionStatistics, td: ThreadData) -> bool {
    &&& td.thread_id@ == session.session_id@
    &&& td.title@ == session_title(session)
    &&& td.created_at == session.metadata.start_time
    &&& td.updated_at == session.metadata.end_time
    &&& td.status@ == (if session.metadata.end_time is Some { "complete"@ } else { "in-progress"@ })
    &&& opt_view(td.metadata.cwd) == opt_view(session.metadata.cwd)
    &&& opt_view(td.metadata.git_branch) == opt_view(session.metadata.git_branch)
    &&& opt_view(td.metadata.version) == opt_view(session.metadata.version)
    &&& td.metadata.duration_seconds == session.metadata.duration_seconds
    &&& td.metadata.message_count == stats.total_messages
    &&& td.metadata.tool_call_count == stats.tool_calls
    &&& td.metadata.is_agent == session.is_agent
    &&& opt_view(td.metadata.parent_session_id) == opt_view(session.parent_session_id)
    &&& td.messages@.len() == session.messages@.len()
    &&& forall|i: int| 0 <= i < td.messages@.len() ==> thread_message_of(session.messages@[i], #[trigger] td.messages@[i])
    &&& views(td.child_agents@) == views(session.child_agents@)
    &&& same_statistics(td.statistics, stats)
}

/// Stable insertion of entry `e` into a list sorted by decreasing count:
/// after every entry with a count at least as large.
pub open spec fn insert_by_count(s: Seq<(Seq<char>, nat)>, e: (Seq<char>, nat)) -> Seq<(Seq<char>, nat)>
    decreases s.len(),
{
    if s.len() == 0 {
        seq![e]
    } else if s.last().1 >= e.1 {
        s.push(e)
    } else {
        insert_by_count(s.drop_last(), e).push(s.last())
    }
}

/// The usage table sorted by decreasing count, ties in their order
/// (`slice::sort_by`, a stable sort).
pub open spec fn sort_by_count(u: Seq<(Seq<char>, nat)>) -> Seq<(Seq<char>, nat)>
    decreases u.len(),
{
    if u.len() == 0 {
        Seq::empty()
    } else {
        insert_by_count(sort_by_count(u.drop_last()), u.last())
    }
}

/// The Markdown line of one tool in the usage section.
pub open spec fn usage_line(e: (Seq<char>, nat)) -> Seq<char> {
    "- **"@ + e.0 + "**: "@ + decimal(e.1) + " calls\n"@
}

/// The Markdown lines of the usage entries `u`.
pub open spec fn usage_lines(u: Seq<(Seq<char>, nat)>) -> Seq<char>
    decreases u.len(),
{
    if u.len() == 0 {
        Seq::empty()
    } else {
        usage_lines(u.drop_last()) + usage_line(u.last())
    }
}

/// The Markdown lines of the spawned agents `ids`.
pub open spec fn agent_lines(ids: Seq<Seq<char>>) -> Seq<char>
    decreases ids.len(),
{
    if ids.len() == 0 {
        Seq::empty()
    } else {
        agent_lines(ids.drop_last()) + "- `"@ + ids.last() + "`\n"@
    }
}

/// The name of a role as written in a heading (its `Debug` form); `System`
/// without a role.
pub open spec fn role_word(r: Option<MessageRole>) -> Seq<char> {
    match r {
        Some(MessageRole::User) => "User"@,
        Some(MessageRole::Assistant) => "Assistant"@,
        Some(MessageRole::System) => "System"@,
        None => "System"@,
    }
}

/// The Markdown of the outcome of a tool call, when known.
pub open spec fn tool_output_markdown(t: ToolUse) -> Seq<char> {
    match t.output {
        Some(o) => "**Output:**\n```json\n"@ + json_pretty(o.content@) + "\n```\n\n"@,
        None => Seq::empty(),
    }
}

/// The Markdown of one tool call: its name, its input and, when known, its
/// outcome, as indented JSON.
pub open spec fn tool_markdown(t: ToolUse) -> Seq<char> {
    "#### Tool: `"@ + t.tool_name@ + "`\n\n"@ + "**Input:**\n```json\n"@ + json_pretty(t.input@) + "\n```\n\n"@
        + tool_output_markdown(t)
}

/// The Markdown of the tool calls `ts`.
pub open spec fn tools_markdown(ts: Seq<ToolUse>) -> Seq<char>
    decreases ts.len(),
{
    if ts.len() == 0 {
        Seq::empty()
    } else {
        tools_markdown(ts.drop_last()) + tool_markdown(ts.last())
    }
}

/// The instant of a message as written in its heading.
pub open spec fn time_text(t: Option<Timestamp>) -> Seq<char> {
    match t {
        Some(t) => rfc3339_text(t),
        None => "unknown"@,
    }
}

/// The reasoning of a message, folded away, when it has one.
pub open spec fn thinking_markdown(m: Message) -> Seq<char> {
    match m.content.thinking {
        Some(t) => "<details>\n<summary>Thinking</summary>\n\n"@ + "```\n"@ + t@ + "\n```\n</details>\n\n"@,
        None => Seq::empty(),
    }
}

/// The text of a message, when it has one.
pub open spec fn text_markdown(m: Message) -> Seq<char> {
    match m.content.text {
        Some(t) => t@ + "\n\n"@,
        None => Seq::empty(),
    }
}

/// The Markdown of one message: a heading with its role and instant, its
/// reasoning folded away, its text, its tool calls and a rule.
pub open spec fn message_markdown(m: Message) -> Seq<char> {
    "### "@ + role_word(m.role) + " - "@ + time_text(m.timestamp) + "\n\n"@ + thinking_markdown(m) + text_markdown(m)
        + tools_markdown(m.tool_uses@) + "---\n\n"@
}

/// The Markdown of a message is its heading (role and instant), then its
/// folded reasoning, then its text followed by a blank line when it has
/// text, then its tool calls, then a rule.
pub proof fn lemma_message_markdown_holds_text(m: Message)
    ensures
        m.content.text matches Some(t) ==> message_markdown(m) == "### "@ + role_word(m.role) + " - "@ + time_text(
            m.timestamp,
        ) + "\n\n"@ + thinking_markdown(m) + t@ + "\n\n"@ + tools_markdown(m.tool_uses@) + "---\n\n"@,
        m.content.text is None ==> message_markdown(m) == "### "@ + role_word(m.role) + " - "@ + time_text(
            m.timestamp,
        ) + "\n\n"@ + thinking_markdown(m) + tools_markdown(m.tool_uses@) + "---\n\n"@,
{
    match m.content.text {
        Some(t) => {
            let a = "### "@ + role_word(m.role) + " - "@ + time_text(m.timestamp) + "\n\n"@ + thinking_markdown(m);
            assert(a + (t@ + "\n\n"@) + tools_markdown(m.tool_uses@) + "---\n\n"@ =~= a + t@ + "\n\n"@
                + tools_markdown(m.tool_uses@) + "---\n\n"@);
        },
        None => {
            let a = "### "@ + role_word(m.role) + " - "@ + time_text(m.timestamp) + "\n\n"@ + thinking_markdown(m);
            assert(a + Seq::<char>::empty() =~= a);
        },
    }
}

proof fn lemma_contains_trans(a: Seq<char>, b: Seq<char>, c: Seq<char>)
    requires
        contains_seq(a, b),
        contains_seq(b, c),
    ensures
        contains_seq(a, c),
{
    let i = choose|i: int| occurs_at(a, b, i);
    let j = choose|j: int| occurs_at(b, c, j);
    assert(a.subrange(i + j, i + j + c.len()) =~= b.subrange(j, j + c.len()));
    assert(occurs_at(a, c, i + j));
}

proof fn lemma_contains_in_concat(x: Seq<char>, y: Seq<char>, n: Seq<char>)
    ensures
        contains_seq(x, n) ==> contains_seq(x + y, n),
        contains_seq(x + y, y),
{
    if contains_seq(x, n) {
        let i = choose|i: int| occurs_at(x, n, i);
        assert((x + y).subrange(i, i + n.len()) =~= x.subrange(i, i + n.len()));
        assert(occurs_at(x + y, n, i));
    }
    assert((x + y).subrange(x.len() as int, (x.len() + y.len()) as int) =~= y);
    assert(occurs_at(x + y, y, x.len() as int));
}

proof fn lemma_message_markdown_contains_text(m: Message)
    requires
        m.content.text is Some,
    ensures
        contains_seq(message_markdown(m), m.content.text->0@ + "\n\n"@),
{
    lemma_message_markdown_holds_text(m);
    let t = m.content.text->0@ + "\n\n"@;
    let a = "### "@ + role_word(m.role) + " - "@ + time_text(m.timestamp) + "\n\n"@ + thinking_markdown(m);
    let mm = message_markdown(m);
    assert(mm =~= a + t + (tools_markdown(m.tool_uses@) + "---\n\n"@));
    let lo: int = a.len() as int;
    let hi: int = (a.len() + t.len()) as int;
    assert(mm.subrange(lo, hi) =~= t);
    assert(occurs_at(mm, t, lo));
}

/// The Markdown of a conversation holds the Markdown of each of its
/// messages, and so the text of each message that has text, followed by a
/// blank line.
pub proof fn lemma_conversation_holds_every_text(ms: Seq<Message>)
    ensures
        forall|i: int| 0 <= i < ms.len() ==> contains_seq(messages_markdown(ms), #[trigger] message_markdown(ms[i])),
        forall|i: int|
            0 <= i < ms.len() && ms[i].content.text is Some ==> contains_seq(
                messages_markdown(ms),
                (#[trigger] ms[i]).content.text->0@ + "\n\n"@,
            ),
    decreases ms.len(),
{
    if ms.len() > 0 {
        let pre = ms.drop_last();
        lemma_conversation_holds_every_text(pre);
        let whole = messages_markdown(ms);
        let head = messages_markdown(pre);
        let last = message_markdown(ms.last());
        assert(whole == head + last);
        assert forall|i: int| 0 <= i < ms.len() implies contains_seq(whole, #[trigger] message_markdown(ms[i])) by {
            lemma_contains_in_concat(head, last, message_markdown(ms[i]));
            if i < pre.len() {
                assert(pre[i] == ms[i]);
            }
        }
        assert forall|i: int|
            0 <= i < ms.len() && ms[i].content.text is Some implies contains_seq(
                whole,
                (#[trigger] ms[i]).content.text->0@ + "\n\n"@,
            ) by {
            lemma_message_markdown_contains_text(ms[i]);
            assert(contains_seq(whole, message_markdown(ms[i])));
            lemma_contains_trans(whole, message_markdown(ms[i]), ms[i].content.text->0@ + "\n\n"@);
        }
    }
}

/// The Markdown of the messages `ms`.
pub open spec fn messages_markdown(ms: Seq<Message>) -> Seq<char>
    decreases ms.len(),
{
    if ms.len() == 0 {
        Seq::empty()
    } else {
        messages_markdown(ms.drop_last()) + message_markdown(ms.last())
    }
}

/// A metadata line `- **{label}**: {value}\n` for a value that may be absent.
pub open spec fn opt_line(label: Seq<char>, value: Option<Seq<char>>, quote: bool) -> Seq<char> {
    match value {
        Some(v) => if quote {
            "- **"@ + label + "**: `"@ + v + "`\n"@
        } else {
            "- **"@ + label + "**: "@ + v + "\n"@
        },
        None => Seq::empty(),
    }
}

/// The instant text of an optional instant.
pub open spec fn opt_time_text(t: Option<Timestamp>) -> Option<Seq<char>> {
    match t {
        Some(t) => Some(rfc3339_text(t)),
        None => None,
    }
}

/// The duration text of an optional number of seconds.
pub open spec fn opt_duration_text(d: Option<i64>) -> Option<Seq<char>> {
    match d {
        Some(d) => Some(signed_decimal(d as int) + " seconds"@),
        None => None,
    }
}

/// The usage section: the tools, busiest first; nothing without tools.
pub open spec fn usage_section(u: Seq<(Seq<char>, nat)>) -> Seq<char> {
    if u.len() == 0 {
        Seq::empty()
    } else {
        "### Tool Usage\n\n"@ + usage_lines(sort_by_count(u)) + "\n"@
    }
}

/// The section of spawned agents; nothing without them.
pub open spec fn agents_section(ids: Seq<Seq<char>>) -> Seq<char> {
    if ids.len() == 0 {
        Seq::empty()
    } else {
        "### Spawned Agents\n\n"@ + agent_lines(ids) + "\n"@
    }
}

/// The Markdown of a session: its title; its metadata; its tool usage,
/// busiest tool first; the agents it spawned; and its messages.
pub open spec fn session_markdown(s: Session, stats: SessionStatistics) -> Seq<char> {
    "# "@ + session_title(s) + "\n\n"@ + "## Session Metadata\n\n"@ + "- **Session ID**: `"@ + s.session_id@ + "`\n"@
        + opt_line("Agent ID"@, opt_view(s.agent_id), true) + opt_line("Working Directory"@, opt_view(s.metadata.cwd), true)
        + opt_line("Git Branch"@, opt_view(s.metadata.git_branch), true) + opt_line(
        "Started"@,
        opt_time_text(s.metadata.start_time),
        false,
    ) + opt_line("Ended"@, opt_time_text(s.metadata.end_time), false) + opt_line(
        "Duration"@,
        opt_duration_text(s.metadata.duration_seconds),
        false,
    ) + "- **Messages**: "@ + decimal(stats.total_messages as nat) + "\n"@ + "- **Tool Calls**: "@ + decimal(
        stats.tool_calls as nat,
    ) + "\n"@ + "\n"@ + usage_section(crate::claude::analyzer::usage_view(stats.tool_usage@)) + agents_section(
        views(s.child_agents@),
    ) + "## Conversation Flow\n\n"@ + messages_markdown(s.messages@)
}

fn copy_time(t: &Option<Timestamp>) -> (r: Option<Timestamp>)
    ensures
        r == *t,
{
    match t {
        Some(x) => Some(x.copy()),
        None => None,
    }
}

fn copy_tool_use(t: &ToolUse) -> (r: ToolUse)
    ensures
        same_tool_use(r, *t),
{
    ToolUse {
        tool_id: t.tool_id.clone(),
        tool_name: t.tool_name.clone(),
        timestamp: copy_time(&t.timestamp),
        input: t.input.clone(),
        output: match &t.output {
            Some(o) => Some(
                ToolResult {
                    success: o.success,
                    content: o.content.clone(),
                    error: clone_opt(&o.error),
                    execution_time_ms: o.execution_time_ms,
                },
            ),
            None => None,
        },
    }
}

fn copy_tool_uses(v: &Vec<ToolUse>) -> (r: Vec<ToolUse>)
    ensures
        r@.len() == v@.len(),
        forall|i: int| 0 <= i < r@.len() ==> same_tool_use(#[trigger] r@[i], v@[i]),
{
    let mut r: Vec<ToolUse> = Vec::new();
    let mut i: usize = 0;
    while i < v.len()
        invariant
            i <= v.len(),
            r@.len() == i,
            forall|k: int| 0 <= k < i ==> same_tool_use(#[trigger] r@[k], v@[k]),
        decreases v.len() - i,
    {
        r.push(copy_tool_use(&v[i]));
        i = i + 1;
    }
    r
}

fn copy_statistics(s: &SessionStatistics) -> (r: SessionStatistics)
    ensures
        same_statistics(r, *s),
{
    let mut usage: Vec<(String, usize)> = Vec::new();
    let mut i: usize = 0;
    while i < s.tool_usage.len()
        invariant
            i <= s.tool_usage.len(),
            usage@.len() == i,
            forall|k: int|
                0 <= k < i ==> (#[trigger] usage@[k]).0@ == s.tool_usage@[k].0@ && usage@[k].1 == s.tool_usage@[k].1,
        decreases s.tool_usage.len() - i,
    {
        let e = &s.tool_usage[i];
        usage.push((e.0.clone(), e.1));
        i = i + 1;
    }
    assert(crate::claude::analyzer::usage_view(usage@) =~= crate::claude::analyzer::usage_view(s.tool_usage@));
    let mut flow: Vec<MessageFlowNode> = Vec::new();
    let mut j: usize = 0;
    while j < s.message_flow.len()
        invariant
            j <= s.message_flow.len(),
            flow@.len() == j,
            forall|k: int| 0 <= k < j ==> same_flow_node(#[trigger] flow@[k], s.message_flow@[k]),
        decreases s.message_flow.len() - j,
    {
        let n = &s.message_flow[j];
        flow.push(
            MessageFlowNode {
                uuid: n.uuid.clone(),
                parent_uuid: clone_opt(&n.parent_uuid),
                role: n.role,
                timestamp: copy_time(&n.timestamp),
                has_tools: n.has_tools,
            },
        );
        j = j + 1;
    }
    SessionStatistics {
        total_messages: s.total_messages,
        tool_calls: s.tool_calls,
        tool_usage: usage,
        message_flow: flow,
        duration_seconds: s.duration_seconds,
    }
}

/// The characters of the first line of `t`.
pub fn first_line_text(t: &str) -> (r: Vec<char>)
    ensures
        r@ == first_line(t@),
{
    let v = chars_of(t);
    let mut i: usize = 0;
    while i < v.len() && v[i] != '\n'
        invariant
            i <= v.len(),
            v@ == t@,
            forall|k: int| 0 <= k < i ==> v@[k] != '\n',
        decreases v.len() - i,
    {
        i = i + 1;
    }
    proof {
        lemma_index_of_newline(v@, i as int);
    }
    let mut end = i;
    if i < v.len() && end > 0 && v[end - 1] == '\r' {
        end = end - 1;
    }
    let mut out: Vec<char> = Vec::new();
    let mut k: usize = 0;
    while k < end
        invariant
            k <= end <= v.len(),
            out@ == v@.take(k as int),
        decreases end - k,
    {
        out.push(v[k]);
        assert(out@ =~= v@.take(k + 1));
        k = k + 1;
    }
    proof {
        if i < v.len() {
            let l = v@.take(i as int);
            if l.len() > 0 && l.last() == '\r' {
                assert(out@ =~= l.drop_last());
            } else {
                assert(out@ =~= l);
            }
        } else {
            assert(out@ =~= v@);
        }
    }
    out
}

/// The first line of `t` is no longer than `t`.
pub proof fn lemma_first_line_len(t: Seq<char>)
    ensures
        first_line(t).len() <= t.len(),
{
    crate::text::lemma_index_of_char_pub(t, '\n');
}

proof fn lemma_index_of_newline(s: Seq<char>, i: int)
    requires
        0 <= i <= s.len(),
        forall|k: int| 0 <= k < i ==> s[k] != '\n',
        i < s.len() ==> s[i] == '\n',
    ensures
        index_of_char(s, '\n') == if i < s.len() {
            Some(i)
        } else {
            None::<int>
        },
    decreases i,
{
    if i > 0 {
        assert forall|k: int| 0 <= k < i - 1 implies s.drop_first()[k] != '\n' by {
            assert(s.drop_first()[k] == s[k + 1]);
        }
        lemma_index_of_newline(s.drop_first(), i - 1);
    } else if s.len() > 0 {
    }
}

proof fn lemma_take_bytes_len(s: Seq<char>, n: int)
    ensures
        take_bytes(s, n).len() <= s.len(),
        take_bytes(s, n) == s.take(take_bytes(s, n).len() as int),
    decreases s.len(),
{
    if s.len() == 0 || utf8_width(s[0]) > n {
    } else {
        lemma_take_bytes_len(s.drop_first(), n - utf8_width(s[0]));
        let t = take_bytes(s.drop_first(), n - utf8_width(s[0]));
        assert(seq![s[0]] + t =~= s.take(t.len() as int + 1));
    }
}

/// The characters of `id`, and how many of them (`k`, taking `bytes`
/// bytes) fit in its first 8 bytes.
fn id_cut(id: &str) -> (r: (Vec<char>, usize, usize))
    ensures
        r.0@ == id@,
        r.1 <= r.0@.len(),
        r.2 <= 8,
        take_bytes(id@, 8) == id@.take(r.1 as int),
        utf8_len(id@.take(r.1 as int)) == r.2,
        r.1 == r.0@.len() ==> utf8_len(id@) == r.2,
        r.1 < r.0@.len() ==> utf8_len(id@) > 8,
{
    let ids = chars_of(id);
    let mut bytes: usize = 0;
    let mut k: usize = 0;
    assert(ids@.skip(0) =~= ids@);
    assert(ids@.take(0) =~= Seq::<char>::empty());
    while k < ids.len() && char_width(ids[k]) <= 8 - bytes
        invariant
            k <= ids.len(),
            ids@ == id@,
            bytes <= 8,
            utf8_len(ids@) == bytes + utf8_len(ids@.skip(k as int)),
            utf8_len(ids@.take(k as int)) == bytes,
            take_bytes(ids@, 8) == ids@.take(k as int) + take_bytes(ids@.skip(k as int), 8 - bytes),
        decreases ids.len() - k,
    {
        let c = ids[k];
        let w = char_width(c);
        proof {
            let rest = ids@.skip(k as int);
            assert(rest[0] == c);
            assert(rest.drop_first() =~= ids@.skip(k + 1));
            assert(ids@.take(k as int) + (seq![c] + take_bytes(ids@.skip(k + 1), 8 - bytes - w)) =~= ids@.take(k + 1)
                + take_bytes(ids@.skip(k + 1), 8 - bytes - w));
            lemma_utf8_len_append(ids@.take(k as int), seq![c]);
            assert(ids@.take(k as int) + seq![c] =~= ids@.take(k + 1));
            assert(utf8_len(seq![c]) == w) by {
                assert(seq![c].drop_first() =~= Seq::<char>::empty());
                assert(utf8_len(Seq::<char>::empty()) == 0);
                assert(seq![c][0] == c);
            }
            lemma_utf8_len_append(seq![c], ids@.skip(k + 1));
            assert(seq![c] + ids@.skip(k + 1) =~= ids@.skip(k as int));
        }
        bytes = bytes + w;
        k = k + 1;
    }
    proof {
        lemma_utf8_len_append(ids@.skip(k as int), Seq::<char>::empty());
        if k == ids.len() {
            assert(ids@.skip(k as int) =~= Seq::<char>::empty());
            assert(ids@.take(k as int) =~= ids@);
            assert(take_bytes(ids@, 8) =~= ids@);
        } else {
            let rest = ids@.skip(k as int);
            assert(rest[0] == ids@[k as int]);
            assert(take_bytes(rest, 8 - bytes) =~= Seq::<char>::empty());
            assert(take_bytes(ids@, 8) =~= ids@.take(k as int));
            lemma_utf8_len_append(seq![rest[0]], rest.drop_first());
            assert(seq![rest[0]] + rest.drop_first() =~= rest);
            assert(utf8_len(seq![rest[0]]) == utf8_width(rest[0])) by {
                assert(seq![rest[0]].drop_first() =~= Seq::<char>::empty());
                assert(utf8_len(Seq::<char>::empty()) == 0);
            }
            lemma_utf8_len_append(rest.drop_first(), Seq::<char>::empty());
        }
    }
    (ids, k, bytes)
}

/// Whether cutting `id` after 8 bytes falls on a character boundary (or
/// `id` is shorter).
pub fn short_id_is_ok(id: &str) -> (r: bool)
    ensures
        r == short_id_ok(id@),
{
    let (ids, k, bytes) = id_cut(id);
    k == ids.len() || bytes == 8
}

/// Whether the title of `session` can be made: it comes from a message, or
/// its id can be cut after 8 bytes.
pub fn title_cut_is_ok(session: &Session) -> (r: bool)
    ensures
        r == title_cut_ok(*session),
{
    let msgs = &session.messages;
    let mut i: usize = 0;
    assert(msgs@.skip(0) =~= msgs@);
    while i < msgs.len()
        invariant
            i <= msgs.len(),
            msgs@ == session.messages@,
            title_from_messages(msgs@) == title_from_messages(msgs@.skip(i as int)),
        decreases msgs.len() - i,
    {
        let m = &msgs[i];
        proof {
            assert(msgs@.skip(i as int)[0] == msgs@[i as int]);
            assert(msgs@.skip(i as int).drop_first() =~= msgs@.skip(i + 1));
        }
        let is_user = match m.role {
            Some(MessageRole::User) => true,
            _ => false,
        };
        if is_user {
            if let Some(text) = &m.content.text {
                assert(opt_view(m.content.text)->0 == text@);
                let line = first_line_text(text.as_str());
                if line.len() > 0 {
                    assert(title_from_messages(msgs@.skip(i as int)) is Some);
                    return true;
                }
            }
        }
        i = i + 1;
    }
    assert(msgs@.skip(msgs@.len() as int).len() == 0);
    short_id_is_ok(session.session_id.as_str())
}

/// The first 8 bytes of `id` (all of it when shorter).
pub fn short_id_text(id: &str) -> (r: String)
    requires
        short_id_ok(id@),
    ensures
        r@ == short_id(id@),
{
    let (ids, k, bytes) = id_cut(id);
    if bytes >= 8 || k < ids.len() {
        let head = string_of_range(&ids, 0, k);
        assert(ids@.subrange(0, k as int) =~= ids@.take(k as int));
        head
    } else {
        proof {
            assert(ids@.take(k as int) =~= ids@);
        }
        owned(id)
    }
}

impl SessionExporter {
    /// The exporter.
    pub fn new() -> (r: SessionExporter)
        ensures
            r == (SessionExporter {}),
    {
        SessionExporter {}
    }

    /// A duration in seconds for people.
    pub fn format_duration(&self, seconds: i64) -> (r: String)
        ensures
            r@ == duration_text(seconds as int),
    {
        let mut r = String::new();
        if seconds < 60 {
            push_signed_decimal(&mut r, seconds);
            push_str(&mut r, "s");
        } else if seconds < 3600 {
            push_decimal(&mut r, (seconds / 60) as u64);
            push_str(&mut r, "m ");
            push_decimal(&mut r, (seconds % 60) as u64);
            push_str(&mut r, "s");
        } else {
            push_decimal(&mut r, (seconds / 3600) as u64);
            push_str(&mut r, "h ");
            push_decimal(&mut r, ((seconds % 3600) / 60) as u64);
            push_str(&mut r, "m");
        }
        r
    }

    /// `text` with its HTML-special characters escaped.
    pub fn escape_html(&self, text: &str) -> (r: String)
        ensures
            r@ == escape_html_spec(text@),
    {
        let v = chars_of(text);
        let mut r = String::new();
        let mut i: usize = 0;
        while i < v.len()
            invariant
                i <= v.len(),
                v@ == text@,
                r@ == escape_html_spec(v@.take(i as int)),
            decreases v.len() - i,
        {
            let c = v[i];
            proof {
                let t1 = v@.take(i + 1);
                assert(t1.drop_last() =~= v@.take(i as int));
                assert(t1.last() == c);
            }
            if c == '&' {
                push_str(&mut r, "&amp;");
            } else if c == '<' {
                push_str(&mut r, "&lt;");
            } else if c == '>' {
                push_str(&mut r, "&gt;");
            } else if c == '"' {
                push_str(&mut r, "&quot;");
            } else if c == '\'' {
                push_str(&mut r, "&#x27;");
            } else {
                push_char(&mut r, c);
                assert(r@ =~= escape_html_spec(v@.take(i as int)) + seq![c]);
            }
            i = i + 1;
        }
        assert(v@.take(v@.len() as int) =~= v@);
        r
    }

    /// The title of `session`.
    pub fn infer_title(&self, session: &Session) -> (r: String)
        requires
            title_cut_ok(*session),
        ensures
            r@ == session_title(*session),
    {
        let msgs = &session.messages;
        let mut i: usize = 0;
        assert(msgs@.skip(0) =~= msgs@);
        while i < msgs.len()
            invariant
                i <= msgs.len(),
                msgs@ == session.messages@,
                title_from_messages(msgs@) == title_from_messages(msgs@.skip(i as int)),
            decreases msgs.len() - i,
        {
            let m = &msgs[i];
            proof {
                assert(msgs@.skip(i as int)[0] == msgs@[i as int]);
                assert(msgs@.skip(i as int).drop_first() =~= msgs@.skip(i + 1));
            }
            let is_user = match m.role {
                Some(MessageRole::User) => true,
                _ => false,
            };
            assert(is_user == (m.role == Some(MessageRole::User)));
            if is_user {
                if let Some(text) = &m.content.text {
                    assert(opt_view(m.content.text)->0 == text@);
                    let line = first_line_text(text.as_str());
                    if line.len() > 0 {
                        let n = if line.len() > 100 {
                            100
                        } else {
                            line.len()
                        };
                        let t = string_of_range(&line, 0, n);
                        proof {
                            if line@.len() > 100 {
                                assert(line@.subrange(0, 100) =~= line@.take(100));
                            } else {
                                assert(line@.subrange(0, line@.len() as int) =~= line@);
                            }
                        }
                        assert(line@.len() > 0);
                        assert(first_line(opt_view(m.content.text)->0).len() > 0);
                        assert(msgs@.skip(i as int)[0] == *m);
                        assert(title_from_messages(msgs@.skip(i as int)) == Some(t@));
                        return t;
                    }
                }
            }
            i = i + 1;
        }
        assert(msgs@.skip(msgs@.len() as int).len() == 0);
        let head = short_id_text(session.session_id.as_str());
        let mut r = owned("Session ");
        push_str(&mut r, head.as_str());
        r
    }

    /// The thread message of `message`.
    pub fn convert_message(&self, message: &Message) -> (r: ThreadMessage)
        ensures
            thread_message_of(*message, r),
    {
        ThreadMessage {
            uuid: message.uuid.clone(),
            parent_uuid: clone_opt(&message.parent_uuid),
            role: message.role,
            timestamp: copy_time(&message.timestamp),
            content: clone_opt(&message.content.text),
            thinking: clone_opt(&message.content.thinking),
            tool_uses: copy_tool_uses(&message.tool_uses),
            message_type: message.message_type,
        }
    }

    /// The thread of `session` with statistics `stats`.
    pub fn build_thread_data(&self, session: &Session, stats: &SessionStatistics) -> (r: ThreadData)
        requires
            title_cut_ok(*session),
        ensures
            thread_of(*session, *stats, r),
    {
        let title = self.infer_title(session);
        let mut messages: Vec<ThreadMessage> = Vec::new();
        let mut i: usize = 0;
        while i < session.messages.len()
            invariant
                i <= session.messages.len(),
                messages@.len() == i,
                forall|k: int| 0 <= k < i ==> thread_message_of(session.messages@[k], #[trigger] messages@[k]),
            decreases session.messages.len() - i,
        {
            messages.push(self.convert_message(&session.messages[i]));
            i = i + 1;
        }
        let status = if session.metadata.end_time.is_some() {
            owned("complete")
        } else {
            owned("in-progress")
        };
        ThreadData {
            thread_id: session.session_id.clone(),
            title,
            created_at: copy_time(&session.metadata.start_time),
            updated_at: copy_time(&session.metadata.end_time),
            status,
            metadata: ThreadMetadata {
                cwd: clone_opt(&session.metadata.cwd),
                git_branch: clone_opt(&session.metadata.git_branch),
                version: clone_opt(&session.metadata.version),
                duration_seconds: session.metadata.duration_seconds,
                message_count: stats.total_messages,
                tool_call_count: stats.tool_calls,
                is_agent: session.is_agent,
                parent_session_id: clone_opt(&session.parent_session_id),
            },
            messages,
            child_agents: clone_strings(&session.child_agents),
            statistics: copy_statistics(stats),
        }
    }
}

/// Where stable insertion by decreasing count puts an entry with count `c`:
/// after the last entry whose count is at least `c`.
pub open spec fn count_slot(s: Seq<(Seq<char>, nat)>, c: nat) -> int
    decreases s.len(),
{
    if s.len() == 0 {
        0
    } else if s.last().1 >= c {
        s.len() as int
    } else {
        count_slot(s.drop_last(), c)
    }
}

proof fn lemma_insert_by_count(s: Seq<(Seq<char>, nat)>, e: (Seq<char>, nat))
    ensures
        0 <= count_slot(s, e.1) <= s.len(),
        insert_by_count(s, e) == s.take(count_slot(s, e.1)).push(e) + s.skip(count_slot(s, e.1)),
    decreases s.len(),
{
    if s.len() == 0 {
        assert(s.take(0).push(e) + s.skip(0) =~= seq![e]);
    } else if s.last().1 >= e.1 {
        assert(s.take(s.len() as int).push(e) + s.skip(s.len() as int) =~= s.push(e));
    } else {
        lemma_insert_by_count(s.drop_last(), e);
        let j = count_slot(s.drop_last(), e.1);
        assert(s.drop_last().take(j) =~= s.take(j));
        assert((s.drop_last().take(j).push(e) + s.drop_last().skip(j)).push(s.last()) =~= s.take(j).push(e) + s.skip(j));
    }
}

/// Inserts `e` after the last entry of `v` whose count is at least its own.
fn insert_entry(v: &mut Vec<(String, usize)>, e: (String, usize))
    ensures
        crate::claude::analyzer::usage_view(final(v)@) == insert_by_count(
            crate::claude::analyzer::usage_view(old(v)@),
            (e.0@, e.1 as nat),
        ),
{
    let ghost u = crate::claude::analyzer::usage_view(v@);
    let mut j = v.len();
    assert(u.take(j as int) =~= u);
    while j > 0 && v[j - 1].1 < e.1
        invariant
            j <= v.len(),
            v@ == old(v)@,
            u == crate::claude::analyzer::usage_view(v@),
            count_slot(u, e.1 as nat) == count_slot(u.take(j as int), e.1 as nat),
        decreases j,
    {
        assert(u.take(j as int).drop_last() =~= u.take(j - 1));
        j = j - 1;
    }
    proof {
        if j > 0 {
            assert(u.take(j as int).last() == u[j - 1]);
        }
        lemma_insert_by_count(u, (e.0@, e.1 as nat));
    }
    let ghost ev = (e.0@, e.1 as nat);
    v.insert(j, e);
    assert(crate::claude::analyzer::usage_view(v@) =~= u.take(j as int).push(ev) + u.skip(j as int));
}

/// The usage table sorted by decreasing count, ties kept in order.
pub fn sort_usage(u: &Vec<(String, usize)>) -> (r: Vec<(String, usize)>)
    ensures
        crate::claude::analyzer::usage_view(r@) == sort_by_count(crate::claude::analyzer::usage_view(u@)),
{
    let ghost uv = crate::claude::analyzer::usage_view(u@);
    let mut out: Vec<(String, usize)> = Vec::new();
    let mut i: usize = 0;
    assert(uv.take(0) =~= Seq::<(Seq<char>, nat)>::empty());
    while i < u.len()
        invariant
            i <= u.len(),
            uv == crate::claude::analyzer::usage_view(u@),
            crate::claude::analyzer::usage_view(out@) == sort_by_count(uv.take(i as int)),
        decreases u.len() - i,
    {
        let e = (u[i].0.clone(), u[i].1);
        proof {
            let t1 = uv.take(i + 1);
            assert(t1.drop_last() =~= uv.take(i as int));
            assert(t1.last() == uv[i as int]);
        }
        insert_entry(&mut out, e);
        i = i + 1;
    }
    assert(uv.take(uv.len() as int) =~= uv);
    out
}

/// The Markdown of tool call `t`.
fn tool_markdown_of(t: &ToolUse) -> (r: String)
    ensures
        r@ == tool_markdown(*t),
{
    let output = match &t.output {
        Some(o) => {
            let mut p = owned("**Output:**\n```json\n");
            let text = pretty_json(o.content.as_str());
            push_str(&mut p, text.as_str());
            push_str(&mut p, "\n```\n\n");
            p
        },
        None => String::new(),
    };
    let mut md = owned("#### Tool: `");
    push_str(&mut md, t.tool_name.as_str());
    push_str(&mut md, "`\n\n");
    push_str(&mut md, "**Input:**\n```json\n");
    let input = pretty_json(t.input.as_str());
    push_str(&mut md, input.as_str());
    push_str(&mut md, "\n```\n\n");
    push_str(&mut md, output.as_str());
    md
}

/// The Markdown line `- **{label}**: {value}`, the value quoted or not.
fn opt_line_of(label: &str, value: Option<&str>, quote: bool) -> (r: String)
    ensures
        r@ == opt_line(
            label@,
            match value {
                Some(v) => Some(v@),
                None => None,
            },
            quote,
        ),
{
    match value {
        Some(v) => {
            let mut md = owned("- **");
            push_str(&mut md, label);
            if quote {
                push_str(&mut md, "**: `");
                push_str(&mut md, v);
                push_str(&mut md, "`\n");
            } else {
                push_str(&mut md, "**: ");
                push_str(&mut md, v);
                push_str(&mut md, "\n");
            }
            md
        },
        None => String::new(),
    }
}

/// The string slice of an optional string.
fn opt_str(o: &Option<String>) -> (r: Option<&str>)
    ensures
        match r {
            Some(s) => opt_view(*o) == Some(s@),
            None => o is None,
        },
{
    match o {
        Some(s) => Some(s.as_str()),
        None => None,
    }
}

/// The Markdown of the tool calls `ts`.
fn tools_markdown_of(ts: &Vec<ToolUse>) -> (r: String)
    ensures
        r@ == tools_markdown(ts@),
{
    let mut md = String::new();
    let mut i: usize = 0;
    assert(ts@.take(0) =~= Seq::<ToolUse>::empty());
    while i < ts.len()
        invariant
            i <= ts.len(),
            md@ == tools_markdown(ts@.take(i as int)),
        decreases ts.len() - i,
    {
        proof {
            let t1 = ts@.take(i + 1);
            assert(t1.drop_last() =~= ts@.take(i as int));
            assert(t1.last() == ts@[i as int]);
        }
        let piece = tool_markdown_of(&ts[i]);
        push_str(&mut md, piece.as_str());
        i = i + 1;
    }
    assert(ts@.take(ts@.len() as int) =~= ts@);
    md
}

/// The Markdown of message `m`.
fn message_markdown_of(m: &Message) -> (r: String)
    ensures
        r@ == message_markdown(*m),
{
    let role = match m.role {
        Some(MessageRole::User) => "User",
        Some(MessageRole::Assistant) => "Assistant",
        Some(MessageRole::System) => "System",
        None => "System",
    };
    let time = match &m.timestamp {
        Some(t) => format_rfc3339(t),
        None => owned("unknown"),
    };
    let thinking = match &m.content.thinking {
        Some(t) => {
            let mut p = owned("<details>\n<summary>Thinking</summary>\n\n");
            push_str(&mut p, "```\n");
            push_str(&mut p, t.as_str());
            push_str(&mut p, "\n```\n</details>\n\n");
            p
        },
        None => String::new(),
    };
    let text = match &m.content.text {
        Some(t) => {
            let mut p = owned(t.as_str());
            push_str(&mut p, "\n\n");
            p
        },
        None => String::new(),
    };
    let tools = tools_markdown_of(&m.tool_uses);
    let mut md = owned("### ");
    push_str(&mut md, role);
    push_str(&mut md, " - ");
    push_str(&mut md, time.as_str());
    push_str(&mut md, "\n\n");
    push_str(&mut md, thinking.as_str());
    push_str(&mut md, text.as_str());
    push_str(&mut md, tools.as_str());
    push_str(&mut md, "---\n\n");
    md
}

/// The usage section of a table.
fn usage_section_of(u: &Vec<(String, usize)>) -> (r: String)
    ensures
        r@ == usage_section(crate::claude::analyzer::usage_view(u@)),
{
    if u.len() == 0 {
        return String::new();
    }
    let sorted = sort_usage(u);
    let ghost su = sort_by_count(crate::claude::analyzer::usage_view(u@));
    let mut lines = String::new();
    let mut i: usize = 0;
    assert(su.take(0) =~= Seq::<(Seq<char>, nat)>::empty());
    while i < sorted.len()
        invariant
            i <= sorted.len(),
            crate::claude::analyzer::usage_view(sorted@) == su,
            lines@ == usage_lines(su.take(i as int)),
        decreases sorted.len() - i,
    {
        proof {
            let t1 = su.take(i + 1);
            assert(t1.drop_last() =~= su.take(i as int));
            assert(t1.last() == su[i as int]);
        }
        let mut line = owned("- **");
        push_str(&mut line, sorted[i].0.as_str());
        push_str(&mut line, "**: ");
        push_decimal(&mut line, sorted[i].1 as u64);
        push_str(&mut line, " calls\n");
        push_str(&mut lines, line.as_str());
        i = i + 1;
    }
    assert(su.take(su.len() as int) =~= su);
    let mut md = owned("### Tool Usage\n\n");
    push_str(&mut md, lines.as_str());
    push_str(&mut md, "\n");
    md
}

/// The section of spawned agents `ids`.
fn agents_section_of(ids: &Vec<String>) -> (r: String)
    ensures
        r@ == agents_section(views(ids@)),
{
    if ids.len() == 0 {
        return String::new();
    }
    let ghost v = views(ids@);
    let mut lines = String::new();
    let mut i: usize = 0;
    assert(v.take(0) =~= Seq::<Seq<char>>::empty());
    while i < ids.len()
        invariant
            i <= ids.len(),
            v == views(ids@),
            lines@ == agent_lines(v.take(i as int)),
        decreases ids.len() - i,
    {
        proof {
            let t1 = v.take(i + 1);
            assert(t1.drop_last() =~= v.take(i as int));
            assert(t1.last() == ids@[i as int]@);
        }
        let mut line = owned("- `");
        push_str(&mut line, ids[i].as_str());
        push_str(&mut line, "`\n");
        push_str(&mut lines, line.as_str());
        i = i + 1;
    }
    assert(v.take(v.len() as int) =~= v);
    let mut md = owned("### Spawned Agents\n\n");
    push_str(&mut md, lines.as_str());
    push_str(&mut md, "\n");
    md
}

/// The Markdown of the messages `ms`.
fn messages_markdown_of(ms: &Vec<Message>) -> (r: String)
    ensures
        r@ == messages_markdown(ms@),
{
    let mut md = String::new();
    let mut i: usize = 0;
    assert(ms@.take(0) =~= Seq::<Message>::empty());
    while i < ms.len()
        invariant
            i <= ms.len(),
            md@ == messages_markdown(ms@.take(i as int)),
        decreases ms.len() - i,
    {
        proof {
            let t1 = ms@.take(i + 1);
            assert(t1.drop_last() =~= ms@.take(i as int));
            assert(t1.last() == ms@[i as int]);
        }
        let piece = message_markdown_of(&ms[i]);
        push_str(&mut md, piece.as_str());
        i = i + 1;
    }
    assert(ms@.take(ms@.len() as int) =~= ms@);
    md
}

impl SessionExporter {
    /// Appends the Markdown of `message`.
    pub fn write_message_markdown(&self, md: &mut String, message: &Message)
        ensures
            final(md)@ == old(md)@ + message_markdown(*message),
    {
        let piece = message_markdown_of(message);
        push_str(md, piece.as_str());
    }

    /// The Markdown of `session` with statistics `stats`.
    pub fn build_markdown(&self, session: &Session, stats: &SessionStatistics) -> (r: String)
        requires
            title_cut_ok(*session),
        ensures
            r@ == session_markdown(*session, *stats),
    {
        let title = self.infer_title(session);
        let start = match &session.metadata.start_time {
            Some(t) => Some(format_rfc3339(t)),
            None => None,
        };
        let end = match &session.metadata.end_time {
            Some(t) => Some(format_rfc3339(t)),
            None => None,
        };
        let duration = match session.metadata.duration_seconds {
            Some(d) => {
                let mut t = String::new();
                push_signed_decimal(&mut t, d);
                push_str(&mut t, " seconds");
                Some(t)
            },
            None => None,
        };
        let agent_line = opt_line_of("Agent ID", opt_str(&session.agent_id), true);
        let cwd_line = opt_line_of("Working Directory", opt_str(&session.metadata.cwd), true);
        let branch_line = opt_line_of("Git Branch", opt_str(&session.metadata.git_branch), true);
        let start_line = opt_line_of("Started", opt_str(&start), false);
        let end_line = opt_line_of("Ended", opt_str(&end), false);
        let duration_line = opt_line_of("Duration", opt_str(&duration), false);
        let usage = usage_section_of(&stats.tool_usage);
        let agents = agents_section_of(&session.child_agents);
        let messages = messages_markdown_of(&session.messages);
        let mut md = owned("# ");
        push_str(&mut md, title.as_str());
        push_str(&mut md, "\n\n");
        push_str(&mut md, "## Session Metadata\n\n");
        push_str(&mut md, "- **Session ID**: `");
        push_str(&mut md, session.session_id.as_str());
        push_str(&mut md, "`\n");
        push_str(&mut md, agent_line.as_str());
        push_str(&mut md, cwd_line.as_str());
        push_str(&mut md, branch_line.as_str());
        push_str(&mut md, start_line.as_str());
        push_str(&mut md, end_line.as_str());
        push_str(&mut md, duration_line.as_str());
        push_str(&mut md, "- **Messages**: ");
        push_decimal(&mut md, stats.total_messages as u64);
        push_str(&mut md, "\n");
        push_str(&mut md, "- **Tool Calls**: ");
        push_decimal(&mut md, stats.tool_calls as u64);
        push_str(&mut md, "\n");
        push_str(&mut md, "\n");
        push_str(&mut md, usage.as_str());
        push_str(&mut md, agents.as_str());
        push_str(&mut md, "## Conversation Flow\n\n");
        push_str(&mut md, messages.as_str());
        md
    }

    /// The Markdown of `session` with statistics `stats`, as a string.
    pub fn export_markdown_string(&self, session: &Session, stats: &SessionStatistics) -> (r: String)
        requires
            title_cut_ok(*session),
        ensures
            r@ == session_markdown(*session, *stats),
    {
        self.build_markdown(session, stats)
    }
}

/// Escaped text holds no markup characters: no `<`, `>`, `"` or `'`.
pub proof fn lemma_escaped_has_no_markup(s: Seq<char>)
    ensures
        forall|i: int|
            0 <= i < escape_html_spec(s).len() ==> {
                let c = #[trigger] escape_html_spec(s)[i];
                c != '<' && c != '>' && c != '"' && c != '\''
            },
    decreases s.len(),
{
    reveal_strlit("&amp;");
    reveal_strlit("&lt;");
    reveal_strlit("&gt;");
    reveal_strlit("&quot;");
    reveal_strlit("&#x27;");
    if s.len() > 0 {
        lemma_escaped_has_no_markup(s.drop_last());
        let p = escape_html_spec(s.drop_last());
        let e = escape_char(s.last());
        assert(escape_html_spec(s) == p + e);
        assert forall|i: int| 0 <= i < (p + e).len() implies {
            let c = #[trigger] (p + e)[i];
            c != '<' && c != '>' && c != '"' && c != '\''
        } by {
            if i < p.len() {
                assert((p + e)[i] == p[i]);
            } else {
                assert((p + e)[i] == e[i - p.len()]);
            }
        }
    }
}

/// Sorting the usage table keeps exactly its entries, each as often as it
/// occurs, and orders them by decreasing count.
pub proof fn lemma_sort_by_count(u: Seq<(Seq<char>, nat)>)
    ensures
        sort_by_count(u).len() == u.len(),
        sort_by_count(u).to_multiset() == u.to_multiset(),
        forall|i: int, j: int|
            0 <= i < j < sort_by_count(u).len() ==> (#[trigger] sort_by_count(u)[i]).1 >= (#[trigger] sort_by_count(u)[j]).1,
    decreases u.len(),
{
    if u.len() > 0 {
        lemma_sort_by_count(u.drop_last());
        lemma_insert_keeps_order(sort_by_count(u.drop_last()), u.last());
        lemma_insert_by_count_multiset(sort_by_count(u.drop_last()), u.last());
        vstd::seq_lib::to_multiset_build(u.drop_last(), u.last());
        assert(u.drop_last().push(u.last()) =~= u);
        assert(sort_by_count(u).to_multiset() == sort_by_count(u.drop_last()).to_multiset().insert(u.last()));
    } else {
        assert(sort_by_count(u) =~= u);
    }
}

/// Inserting an entry adds exactly that entry.
proof fn lemma_insert_by_count_multiset(s: Seq<(Seq<char>, nat)>, e: (Seq<char>, nat))
    ensures
        insert_by_count(s, e).to_multiset() == s.to_multiset().insert(e),
    decreases s.len(),
{
    broadcast use vstd::multiset::group_multiset_axioms;
    if s.len() == 0 {
        vstd::seq_lib::to_multiset_build(s, e);
        assert(s.push(e) =~= seq![e]);
    } else if s.last().1 >= e.1 {
        vstd::seq_lib::to_multiset_build(s, e);
    } else {
        lemma_insert_by_count_multiset(s.drop_last(), e);
        vstd::seq_lib::to_multiset_build(insert_by_count(s.drop_last(), e), s.last());
        vstd::seq_lib::to_multiset_build(s.drop_last(), s.last());
        assert(s.drop_last().push(s.last()) =~= s);
        assert(s.drop_last().to_multiset().insert(e).insert(s.last()) =~= s.drop_last().to_multiset().insert(
            s.last(),
        ).insert(e));
    }
}

proof fn lemma_insert_keeps_order(s: Seq<(Seq<char>, nat)>, e: (Seq<char>, nat))
    requires
        forall|i: int, j: int| 0 <= i < j < s.len() ==> (#[trigger] s[i]).1 >= (#[trigger] s[j]).1,
    ensures
        insert_by_count(s, e).len() == s.len() + 1,
        forall|i: int, j: int|
            0 <= i < j < insert_by_count(s, e).len() ==> (#[trigger] insert_by_count(s, e)[i]).1 >= (#[trigger] insert_by_count(
                s,
                e,
            )[j]).1,
    decreases s.len(),
{
    lemma_insert_by_count(s, e);
    let k = count_slot(s, e.1);
    let r = insert_by_count(s, e);
    lemma_count_slot(s, e.1);
    assert(r == s.take(k).push(e) + s.skip(k));
    assert forall|i: int, j: int| 0 <= i < j < r.len() implies (#[trigger] r[i]).1 >= (#[trigger] r[j]).1 by {
        let ri = if i < k { s[i] } else if i == k { e } else { s[i - 1] };
        let rj = if j < k { s[j] } else if j == k { e } else { s[j - 1] };
        assert(r[i] == ri);
        assert(r[j] == rj);
    }
}

proof fn lemma_count_slot(s: Seq<(Seq<char>, nat)>, c: nat)
    requires
        forall|i: int, j: int| 0 <= i < j < s.len() ==> (#[trigger] s[i]).1 >= (#[trigger] s[j]).1,
    ensures
        0 <= count_slot(s, c) <= s.len(),
        forall|i: int| 0 <= i < count_slot(s, c) ==> (#[trigger] s[i]).1 >= c,
        forall|i: int| count_slot(s, c) <= i < s.len() ==> (#[trigger] s[i]).1 < c,
    decreases s.len(),
{
    if s.len() > 0 {
        if s.last().1 >= c {
            assert forall|i: int| 0 <= i < s.len() implies (#[trigger] s[i]).1 >= c by {
                if i < s.len() - 1 {
                    assert(s[i].1 >= s[s.len() - 1].1);
                }
            }
        } else {
            lemma_count_slot(s.drop_last(), c);
            assert forall|i: int| 0 <= i < count_slot(s, c) implies (#[trigger] s[i]).1 >= c by {
                assert(s[i] == s.drop_last()[i]);
            }
            assert forall|i: int| count_slot(s, c) <= i < s.len() implies (#[trigger] s[i]).1 < c by {
                if i < s.len() - 1 {
                    assert(s[i] == s.drop_last()[i]);
                }
            }
        }
    }
}


/// `m` is the message rebuilt from thread message `t`: the thread's values,
/// on the main chain, with a JSON `null` as its raw content.
pub open spec fn message_of_thread(t: ThreadMessage, m: Message) -> bool {
    &&& m.uuid@ == t.uuid@
    &&& opt_view(m.parent_uuid) == opt_view(t.parent_uuid)
    &&& !m.is_sidechain
    &&& m.message_type == t.message_type
    &&& m.role == t.role
    &&& m.timestamp == t.timestamp
    &&& opt_view(m.content.text) == opt_view(t.content)
    &&& opt_view(m.content.thinking) == opt_view(t.thinking)
    &&& m.content.raw_content@ == "null"@
    &&& m.tool_uses@.len() == t.tool_uses@.len()
    &&& forall|i: int| 0 <= i < m.tool_uses@.len() ==> same_tool_use(#[trigger] m.tool_uses@[i], t.tool_uses@[i])
}

/// `s` is the session rebuilt from thread `td`: the thread's id, agent flag,
/// parent, children and messages, its first and last instants as the
/// session's, the recorded counts and duration, no agent id and no file
/// size.
pub open spec fn session_of_thread(td: ThreadData, s: Session) -> bool {
    &&& s.session_id@ == td.thread_id@
    &&& s.is_agent == td.metadata.is_agent
    &&& s.agent_id is None
    &&& opt_view(s.parent_session_id) == opt_view(td.metadata.parent_session_id)
    &&& views(s.child_agents@) == views(td.child_agents@)
    &&& opt_view(s.metadata.cwd) == opt_view(td.metadata.cwd)
    &&& opt_view(s.metadata.version) == opt_view(td.metadata.version)
    &&& opt_view(s.metadata.git_branch) == opt_view(td.metadata.git_branch)
    &&& s.metadata.start_time == td.created_at
    &&& s.metadata.end_time == td.updated_at
    &&& s.metadata.duration_seconds == td.metadata.duration_seconds
    &&& s.metadata.message_count == td.metadata.message_count
    &&& s.metadata.tool_call_count == td.metadata.tool_call_count
    &&& s.metadata.file_size_bytes == 0
    &&& s.messages@.len() == td.messages@.len()
    &&& forall|i: int| 0 <= i < s.messages@.len() ==> message_of_thread(td.messages@[i], #[trigger] s.messages@[i])
}

/// The message rebuilt from thread message `t`.
fn message_from_thread(t: &ThreadMessage) -> (r: Message)
    ensures
        message_of_thread(*t, r),
{
    let raw = owned("null");
    proof {
        reveal_strlit("null");
    }
    let tools = copy_tool_uses(&t.tool_uses);
    Message {
        uuid: t.uuid.clone(),
        parent_uuid: clone_opt(&t.parent_uuid),
        is_sidechain: false,
        message_type: t.message_type,
        role: t.role,
        timestamp: copy_time(&t.timestamp),
        content: MessageContent { text: clone_opt(&t.content), thinking: clone_opt(&t.thinking), raw_content: raw },
        tool_uses: tools,
    }
}

/// The session that thread `thread` was exported from, as far as the thread
/// records it, for exporting it again in another form.
pub fn thread_data_to_session(thread: &ThreadData) -> (r: Session)
    ensures
        session_of_thread(*thread, r),
{
    let mut messages: Vec<Message> = Vec::new();
    let mut i: usize = 0;
    while i < thread.messages.len()
        invariant
            i <= thread.messages.len(),
            messages@.len() == i,
            forall|k: int| 0 <= k < i ==> message_of_thread(thread.messages@[k], #[trigger] messages@[k]),
        decreases thread.messages.len() - i,
    {
        messages.push(message_from_thread(&thread.messages[i]));
        i = i + 1;
    }
    let md = &thread.metadata;
    let metadata = SessionMetadata {
        cwd: clone_opt(&md.cwd),
        version: clone_opt(&md.version),
        git_branch: clone_opt(&md.git_branch),
        start_time: copy_time(&thread.created_at),
        end_time: copy_time(&thread.updated_at),
        duration_seconds: md.duration_seconds,
        message_count: md.message_count,
        tool_call_count: md.tool_call_count,
        file_size_bytes: 0,
    };
    Session {
        session_id: thread.thread_id.clone(),
        is_agent: md.is_agent,
        agent_id: None,
        parent_session_id: clone_opt(&md.parent_session_id),
        metadata,
        messages,
        child_agents: clone_strings(&thread.child_agents),
    }
}

/// Exporting a session as a thread and rebuilding a session from that thread
/// gives back the session's id, agent flag, parent, children, metadata and
/// messages (each with its id, parent, kind, role, time, text, thinking and
/// tool calls); only what a thread does not record is lost: the agent id,
/// the file size, the side-chain flags and the raw message bodies. The
/// counts are those of the statistics the thread was made with.
pub proof fn lemma_thread_round_trip(session: Session, stats: SessionStatistics, td: ThreadData, back: Session)
    requires
        thread_of(session, stats, td),
        session_of_thread(td, back),
    ensures
        back.session_id@ == session.session_id@,
        back.is_agent == session.is_agent,
        opt_view(back.parent_session_id) == opt_view(session.parent_session_id),
        views(back.child_agents@) == views(session.child_agents@),
        opt_view(back.metadata.cwd) == opt_view(session.metadata.cwd),
        opt_view(back.metadata.version) == opt_view(session.metadata.version),
        opt_view(back.metadata.git_branch) == opt_view(session.metadata.git_branch),
        back.metadata.start_time == session.metadata.start_time,
        back.metadata.end_time == session.metadata.end_time,
        back.metadata.duration_seconds == session.metadata.duration_seconds,
        back.metadata.message_count == stats.total_messages,
        back.metadata.tool_call_count == stats.tool_calls,
        back.messages@.len() == session.messages@.len(),
        forall|i: int|
            0 <= i < back.messages@.len() ==> {
                let m = #[trigger] back.messages@[i];
                let o = session.messages@[i];
                &&& m.uuid@ == o.uuid@
                &&& opt_view(m.parent_uuid) == opt_view(o.parent_uuid)
                &&& m.message_type == o.message_type
                &&& m.role == o.role
                &&& m.timestamp == o.timestamp
                &&& opt_view(m.content.text) == opt_view(o.content.text)
                &&& opt_view(m.content.thinking) == opt_view(o.content.thinking)
                &&& m.tool_uses@.len() == o.tool_uses@.len()
                &&& forall|j: int| 0 <= j < m.tool_uses@.len() ==> same_tool_use(#[trigger] m.tool_uses@[j], o.tool_uses@[j])
            },
{
    assert forall|i: int| 0 <= i < back.messages@.len() implies {
        let m = #[trigger] back.messages@[i];
        let o = session.messages@[i];
        &&& m.uuid@ == o.uuid@
        &&& opt_view(m.parent_uuid) == opt_view(o.parent_uuid)
        &&& m.message_type == o.message_type
        &&& m.role == o.role
        &&& m.timestamp == o.timestamp
        &&& opt_view(m.content.text) == opt_view(o.content.text)
        &&& opt_view(m.content.thinking) == opt_view(o.content.thinking)
        &&& m.tool_uses@.len() == o.tool_uses@.len()
        &&& forall|j: int| 0 <= j < m.tool_uses@.len() ==> same_tool_use(#[trigger] m.tool_uses@[j], o.tool_uses@[j])
    } by {
        let t = td.messages@[i];
        assert(thread_message_of(session.messages@[i], t));
        assert(message_of_thread(t, back.messages@[i]));
        assert forall|j: int| 0 <= j < back.messages@[i].tool_uses@.len() implies same_tool_use(
            #[trigger] back.messages@[i].tool_uses@[j],
            session.messages@[i].tool_uses@[j],
        ) by {
            assert(same_tool_use(back.messages@[i].tool_uses@[j], t.tool_uses@[j]));
            assert(same_tool_use(t.tool_uses@[j], session.messages@[i].tool_uses@[j]));
        }
    }
}

} // verus!
