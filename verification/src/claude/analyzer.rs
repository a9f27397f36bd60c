//! What is computed of sessions: which agents each main session spawned,
//! how often each tool was called, and the flow of messages.
use vstd::prelude::*;

use crate::claude::models::{Message, MessageRole, Session};
use crate::claude::parser::SessionParser;
use crate::foreign::Timestamp;
use crate::text::{clone_opt, opt_view, str_eq, views};

verus! {

/// Analyzes the sessions of one project.
pub struct SessionAnalyzer {
    parser: SessionParser,
}

/// The main sessions of a directory and the agents they spawned.
pub struct SessionHierarchy {
    pub sessions: Vec<Session>,
    pub agents: Vec<Session>,
}

/// What is computed of one session. Each tool appears once in
/// `tool_usage`, with the number of its calls, tools in the order of their
/// first call.
pub struct SessionStatistics {
    pub total_messages: usize,
    pub tool_calls: usize,
    pub tool_usage: Vec<(String, usize)>,
    pub message_flow: Vec<MessageFlowNode>,
    pub duration_seconds: Option<i64>,
}

/// A message in the flow of a session.
pub struct MessageFlowNode {
    pub uuid: String,
    pub parent_uuid: Option<String>,
    pub role: Option<MessageRole>,
    pub timestamp: Option<Timestamp>,
    pub has_tools: bool,
}

/// The names of the tools called in `msgs`, call by call, in order.
pub open spec fn tool_names(msgs: Seq<Message>) -> Seq<Seq<char>>
    decreases msgs.len(),
{
    if msgs.len() == 0 {
        Seq::empty()
    } else {
        tool_names(msgs.drop_last()) + msgs.last().tool_uses@.map_values(|t: crate::claude::models::ToolUse| t.tool_name@)
    }
}

/// The position, from `i` on, of the entry for `name`.
pub open spec fn usage_position(u: Seq<(Seq<char>, nat)>, name: Seq<char>, i: int) -> Option<int>
    decreases u.len() - i,
{
    if i < 0 || i >= u.len() {
        None
    } else if u[i].0 == name {
        Some(i)
    } else {
        usage_position(u, name, i + 1)
    }
}

/// One more call of `name`.
pub open spec fn usage_add(u: Seq<(Seq<char>, nat)>, name: Seq<char>) -> Seq<(Seq<char>, nat)> {
    match usage_position(u, name, 0) {
        Some(k) => u.update(k, (name, u[k].1 + 1)),
        None => u.push((name, 1)),
    }
}

/// The calls of each tool among `names`, tools in the order of their first
/// call.
pub open spec fn usage_of(names: Seq<Seq<char>>) -> Seq<(Seq<char>, nat)>
    decreases names.len(),
{
    if names.len() == 0 {
        Seq::empty()
    } else {
        usage_add(usage_of(names.drop_last()), names.last())
    }
}

/// A usage table as plain values.
pub open spec fn usage_view(v: Seq<(String, usize)>) -> Seq<(Seq<char>, nat)> {
    v.map_values(|e: (String, usize)| (e.0@, e.1 as nat))
}

/// `n` is the flow node of message `m`.
pub open spec fn flow_node_of(m: Message, n: MessageFlowNode) -> bool {
    &&& n.uuid@ == m.uuid@
    &&& opt_view(n.parent_uuid) == opt_view(m.parent_uuid)
    &&& n.role == m.role
    &&& n.timestamp == m.timestamp
    &&& n.has_tools == (m.tool_uses@.len() > 0)
}

/// The position, from `i` on, of the session with key `key`, sessions
/// keyed by their id when `by_agent` is false, by their agent id otherwise.
pub open spec fn key_position(list: Seq<Session>, key: Seq<char>, by_agent: bool, i: int) -> Option<int>
    decreases list.len() - i,
{
    if i < 0 || i >= list.len() {
        None
    } else if (if by_agent { agent_key(list[i]) } else { main_key(list[i]) }) == key {
        Some(i)
    } else {
        key_position(list, key, by_agent, i + 1)
    }
}

/// `s` stored under its key: replacing the session with that key, or added
/// at the end.
pub open spec fn insert_by_key(list: Seq<Session>, s: Session, by_agent: bool) -> Seq<Session> {
    match key_position(list, if by_agent { agent_key(s) } else { main_key(s) }, by_agent, 0) {
        Some(k) => list.update(k, s),
        None => list.push(s),
    }
}

/// The key of a main session: its id.
pub open spec fn main_key(s: Session) -> Seq<char> {
    s.session_id@
}

/// The key of an agent: its agent id.
pub open spec fn agent_key(s: Session) -> Seq<char> {
    opt_view(s.agent_id)->0
}

/// The main sessions among `parsed`, one per id (a later one replacing an
/// earlier), in the order their ids were first seen.
pub open spec fn main_sessions(parsed: Seq<Session>) -> Seq<Session>
    decreases parsed.len(),
{
    if parsed.len() == 0 {
        Seq::empty()
    } else {
        let acc = main_sessions(parsed.drop_last());
        let s = parsed.last();
        if !s.is_agent {
            insert_by_key(acc, s, false)
        } else {
            acc
        }
    }
}

/// The agents among `parsed` that have an agent id, one per id (a later one
/// replacing an earlier), in the order their ids were first seen.
pub open spec fn agent_sessions(parsed: Seq<Session>) -> Seq<Session>
    decreases parsed.len(),
{
    if parsed.len() == 0 {
        Seq::empty()
    } else {
        let acc = agent_sessions(parsed.drop_last());
        let s = parsed.last();
        if s.is_agent && s.agent_id is Some {
            insert_by_key(acc, s, true)
        } else {
            acc
        }
    }
}

/// The ids of the agents whose parent session is `id`, in order.
pub open spec fn children_of(agents: Seq<Session>, id: Seq<char>) -> Seq<Seq<char>>
    decreases agents.len(),
{
    if agents.len() == 0 {
        Seq::empty()
    } else {
        let p = children_of(agents.drop_last(), id);
        let a = agents.last();
        if opt_view(a.parent_session_id) == Some(id) {
            p.push(agent_key(a))
        } else {
            p
        }
    }
}

/// `s` is session `m` with the agents of `agents` that it spawned added to
/// its children.
pub open spec fn with_children(m: Session, agents: Seq<Session>, s: Session) -> bool {
    &&& s.session_id == m.session_id
    &&& s.is_agent == m.is_agent
    &&& s.agent_id == m.agent_id
    &&& s.parent_session_id == m.parent_session_id
    &&& s.metadata == m.metadata
    &&& s.messages == m.messages
    &&& views(s.child_agents@) == views(m.child_agents@) + children_of(agents, m.session_id@)
}

/// The position of the session with key `key` in `list`.
fn find_by_key(list: &Vec<Session>, key: &str, by_agent: bool) -> (r: Option<usize>)
    requires
        by_agent ==> forall|i: int| 0 <= i < list@.len() ==> (#[trigger] list@[i]).agent_id is Some,
    ensures
        r matches Some(k) ==> k < list@.len(),
        match r {
            Some(k) => key_position(list@, key@, by_agent, 0) == Some(k as int),
            None => key_position(list@, key@, by_agent, 0) is None,
        },
{
    let mut i: usize = 0;
    while i < list.len()
        invariant
            i <= list.len(),
            by_agent ==> forall|j: int| 0 <= j < list@.len() ==> (#[trigger] list@[j]).agent_id is Some,
            key_position(list@, key@, by_agent, 0) == key_position(list@, key@, by_agent, i as int),
        decreases list.len() - i,
    {
        let k: &str = if by_agent {
            match &list[i].agent_id {
                Some(a) => a.as_str(),
                None => "",
            }
        } else {
            list[i].session_id.as_str()
        };
        assert(k@ == (if by_agent { agent_key(list@[i as int]) } else { main_key(list@[i as int]) }));
        if str_eq(k, key) {
            return Some(i);
        }
        i = i + 1;
    }
    None
}

impl SessionAnalyzer {
    /// The parser this analyzer reads sessions with.
    pub closed spec fn parser_spec(&self) -> SessionParser {
        self.parser
    }

    /// An analyzer for the sessions of project directory `project_dir`.
    pub fn new(project_dir: String) -> (r: SessionAnalyzer)
        ensures
            r.parser_spec().project_dir_spec() == project_dir@,
    {
        SessionAnalyzer { parser: SessionParser::new(project_dir) }
    }

    /// The parser this analyzer reads sessions with.
    pub fn parser(&self) -> (r: &SessionParser)
        ensures
            *r == self.parser_spec(),
    {
        &self.parser
    }

    /// Sorts the sessions parsed from one directory, in the order of their
    /// files: the main sessions and the agents, each one per id, with every
    /// main session given, as children, the agents that name it as their
    /// parent.
    pub fn build_hierarchy(&self, parsed: Vec<Session>) -> (h: SessionHierarchy)
        ensures
            h.agents@ == agent_sessions(parsed@),
            h.sessions@.len() == main_sessions(parsed@).len(),
            forall|i: int|
                0 <= i < h.sessions@.len() ==> with_children(
                    main_sessions(parsed@)[i],
                    agent_sessions(parsed@),
                    #[trigger] h.sessions@[i],
                ),
    {
        let ghost all = parsed@;
        let mut rest = parsed;
        let mut mains: Vec<Session> = Vec::new();
        let mut agents: Vec<Session> = Vec::new();
        let ghost mut n: int = 0;
        assert(rest@ =~= all.skip(0));
        assert(all.take(0) =~= Seq::<Session>::empty());
        while rest.len() > 0
            invariant
                0 <= n <= all.len(),
                rest@.len() + n == all.len(),
                rest@ == all.skip(n),
                mains@ == main_sessions(all.take(n)),
                agents@ == agent_sessions(all.take(n)),
                forall|i: int| 0 <= i < agents@.len() ==> (#[trigger] agents@[i]).agent_id is Some,
            decreases rest.len(),
        {
            assert(rest@[0] == all[n]);
            let s = rest.remove(0);
            proof {
                let t1 = all.take(n + 1);
                assert(t1.drop_last() =~= all.take(n));
                assert(t1.last() == all[n]);
                assert(all.skip(n + 1) =~= all.skip(n).drop_first());
            }
            if !s.is_agent {
                match find_by_key(&mains, s.session_id.as_str(), false) {
                    Some(k) => {
                        mains.set(k, s);
                    },
                    None => {
                        mains.push(s);
                    },
                }
            } else if s.agent_id.is_some() {
                let key = match &s.agent_id {
                    Some(a) => a.clone(),
                    None => String::new(),
                };
                match find_by_key(&agents, key.as_str(), true) {
                    Some(k) => {
                        agents.set(k, s);
                    },
                    None => {
                        agents.push(s);
                    },
                }
            }
            proof {
                n = n + 1;
            }
        }
        assert(all.take(all.len() as int) =~= all);
        let ghost ms = mains@;
        let mut linked: Vec<Session> = Vec::new();
        while mains.len() > 0
            invariant
                linked@.len() <= ms.len(),
                mains@.len() + linked@.len() == ms.len(),
                mains@ == ms.skip(linked@.len() as int),
                ms == main_sessions(all),
                agents@ == agent_sessions(all),
                forall|i: int| 0 <= i < agents@.len() ==> (#[trigger] agents@[i]).agent_id is Some,
                forall|k: int| 0 <= k < linked@.len() ==> with_children(ms[k], agents@, #[trigger] linked@[k]),
            decreases mains.len(),
        {
            let ghost i = linked@.len() as int;
            assert(mains@[0] == ms[i]);
            let mut s = mains.remove(0);
            let ghost s0 = s;
            let ghost before = views(s.child_agents@);
            let mut j: usize = 0;
            assert(agents@.take(0) =~= Seq::<Session>::empty());
            assert(before + children_of(Seq::<Session>::empty(), s.session_id@) =~= before);
            while j < agents.len()
                invariant
                    j <= agents.len(),
                    forall|i: int| 0 <= i < agents@.len() ==> (#[trigger] agents@[i]).agent_id is Some,
                    s.session_id == s0.session_id,
                    s.is_agent == s0.is_agent,
                    s.agent_id == s0.agent_id,
                    s.parent_session_id == s0.parent_session_id,
                    s.metadata == s0.metadata,
                    s.messages == s0.messages,
                    before == views(s0.child_agents@),
                    views(s.child_agents@) == before + children_of(agents@.take(j as int), s.session_id@),
                decreases agents.len() - j,
            {
                let a = &agents[j];
                let ghost t1 = agents@.take(j + 1);
                proof {
                    assert(t1.drop_last() =~= agents@.take(j as int));
                    assert(t1.last() == agents@[j as int]);
                }
                let child = match &a.parent_session_id {
                    Some(p) => str_eq(p.as_str(), s.session_id.as_str()),
                    None => false,
                };
                assert(child == (opt_view(a.parent_session_id) == Some(s.session_id@)));
                if child {
                    let id = match &a.agent_id {
                        Some(x) => x.clone(),
                        None => String::new(),
                    };
                    assert(id@ == agent_key(*a));
                    let ghost old_children = s.child_agents@;
                    s.child_agents.push(id);
                    assert(views(s.child_agents@) =~= views(old_children).push(id@));
                }
                j = j + 1;
            }
            assert(agents@.take(agents@.len() as int) =~= agents@);
            assert(with_children(ms[i], agents@, s));
            linked.push(s);
            proof {
                assert(ms.skip(i + 1) =~= ms.skip(i).drop_first());
            }
        }
        SessionHierarchy { sessions: linked, agents }
    }

    /// How often each tool was called in `session`, tools in the order of
    /// their first call.
    pub fn compute_tool_usage(&self, session: &Session) -> (r: Vec<(String, usize)>)
        requires
            tool_names(session.messages@).len() <= usize::MAX,
        ensures
            usage_view(r@) == usage_of(tool_names(session.messages@)),
    {
        let msgs = &session.messages;
        let ghost all = tool_names(msgs@);
        let mut usage: Vec<(String, usize)> = Vec::new();
        let ghost mut done: Seq<Seq<char>> = Seq::empty();
        let mut i: usize = 0;
        assert(msgs@.take(0) =~= Seq::<Message>::empty());
        while i < msgs.len()
            invariant
                i <= msgs.len(),
                all == tool_names(msgs@),
                all.len() <= usize::MAX,
                done == tool_names(msgs@.take(i as int)),
                done.is_prefix_of(all),
                usage_view(usage@) == usage_of(done),
                forall|k: int| 0 <= k < usage@.len() ==> (#[trigger] usage@[k]).1 <= done.len(),
            decreases msgs.len() - i,
        {
            let tools = &msgs[i].tool_uses;
            let ghost names_i = tools@.map_values(|t: crate::claude::models::ToolUse| t.tool_name@);
            proof {
                let t1 = msgs@.take(i + 1);
                assert(t1.drop_last() =~= msgs@.take(i as int));
                assert(t1.last() == msgs@[i as int]);
                lemma_tool_names_prefix(msgs@, i as int + 1);
            }
            let ghost base = done;
            let mut j: usize = 0;
            while j < tools.len()
                invariant
                    j <= tools.len(),
                    all.len() <= usize::MAX,
                    names_i == tools@.map_values(|t: crate::claude::models::ToolUse| t.tool_name@),
                    done == base + names_i.take(j as int),
                    (base + names_i).is_prefix_of(all),
                    usage_view(usage@) == usage_of(done),
                    forall|k: int| 0 <= k < usage@.len() ==> (#[trigger] usage@[k]).1 <= done.len(),
                decreases tools.len() - j,
            {
                let name = tools[j].tool_name.as_str();
                proof {
                    assert((base + names_i.take(j + 1)).drop_last() =~= base + names_i.take(j as int));
                    assert((base + names_i.take(j + 1)).last() == name@);
                    assert(done.len() < all.len()) by {
                        assert((base + names_i).len() <= all.len());
                    }
                }
                add_call(&mut usage, name, Ghost(done.len()));
                proof {
                    done = base + names_i.take(j + 1);
                }
                j = j + 1;
            }
            proof {
                assert(names_i.take(names_i.len() as int) =~= names_i);
            }
            i = i + 1;
        }
        assert(msgs@.take(msgs@.len() as int) =~= msgs@);
        usage
    }

    /// The flow node of each message, in order.
    pub fn build_message_flow(&self, session: &Session) -> (r: Vec<MessageFlowNode>)
        ensures
            r@.len() == session.messages@.len(),
            forall|i: int| 0 <= i < r@.len() ==> flow_node_of(session.messages@[i], #[trigger] r@[i]),
    {
        let mut flow: Vec<MessageFlowNode> = Vec::new();
        let mut i: usize = 0;
        while i < session.messages.len()
            invariant
                i <= session.messages.len(),
                flow@.len() == i,
                forall|k: int| 0 <= k < i ==> flow_node_of(session.messages@[k], #[trigger] flow@[k]),
            decreases session.messages.len() - i,
        {
            let m = &session.messages[i];
            flow.push(MessageFlowNode {
                uuid: m.uuid.clone(),
                parent_uuid: clone_opt(&m.parent_uuid),
                role: m.role,
                timestamp: match &m.timestamp {
                    Some(t) => Some(t.copy()),
                    None => None,
                },
                has_tools: m.tool_uses.len() > 0,
            });
            i = i + 1;
        }
        flow
    }

    /// The statistics of `session`: its number of messages, its recorded
    /// number of tool calls and duration, its tool usage and message flow.
    pub fn analyze_session(&self, session: &Session) -> (r: SessionStatistics)
        requires
            tool_names(session.messages@).len() <= usize::MAX,
        ensures
            r.total_messages == session.messages@.len(),
            r.tool_calls == session.metadata.tool_call_count,
            usage_view(r.tool_usage@) == usage_of(tool_names(session.messages@)),
            r.message_flow@.len() == session.messages@.len(),
            forall|i: int|
                0 <= i < r.message_flow@.len() ==> flow_node_of(session.messages@[i], #[trigger] r.message_flow@[i]),
            r.duration_seconds == session.metadata.duration_seconds,
    {
        let tool_usage = self.compute_tool_usage(session);
        let message_flow = self.build_message_flow(session);
        SessionStatistics {
            total_messages: session.messages.len(),
            tool_calls: session.metadata.tool_call_count,
            tool_usage,
            message_flow,
            duration_seconds: session.metadata.duration_seconds,
        }
    }
}

proof fn lemma_tool_names_prefix(msgs: Seq<Message>, i: int)
    requires
        0 <= i <= msgs.len(),
    ensures
        tool_names(msgs.take(i)).is_prefix_of(tool_names(msgs)),
    decreases msgs.len() - i,
{
    if i < msgs.len() {
        lemma_tool_names_prefix(msgs, i + 1);
        let t1 = msgs.take(i + 1);
        assert(t1.drop_last() =~= msgs.take(i));
        let a = tool_names(msgs.take(i));
        let b = tool_names(t1);
        assert(a.is_prefix_of(b)) by {
            assert(b == a + t1.last().tool_uses@.map_values(|t: crate::claude::models::ToolUse| t.tool_name@));
            assert forall|k: int| 0 <= k < a.len() implies a[k] == b[k] by {}
        }
        let c = tool_names(msgs);
        assert forall|k: int| 0 <= k < a.len() implies a[k] == c[k] by {
            assert(a[k] == b[k]);
            assert(b[k] == c[k]);
        }
    } else {
        assert(msgs.take(i) =~= msgs);
    }
}

/// Records one more call of `name` in `usage`.
fn add_call(usage: &mut Vec<(String, usize)>, name: &str, calls_so_far: Ghost<nat>)
    requires
        calls_so_far@ < usize::MAX,
        forall|k: int| 0 <= k < old(usage)@.len() ==> (#[trigger] old(usage)@[k]).1 <= calls_so_far@,
    ensures
        usage_view(final(usage)@) == usage_add(usage_view(old(usage)@), name@),
        forall|k: int| 0 <= k < final(usage)@.len() ==> (#[trigger] final(usage)@[k]).1 <= calls_so_far@ + 1,
{
    let ghost u0 = usage_view(usage@);
    let mut i: usize = 0;
    while i < usage.len()
        invariant
            i <= usage.len(),
            usage@ == old(usage)@,
            u0 == usage_view(usage@),
            usage_position(u0, name@, 0) == usage_position(u0, name@, i as int),
            calls_so_far@ < usize::MAX,
            forall|k: int| 0 <= k < usage@.len() ==> (#[trigger] usage@[k]).1 <= calls_so_far@,
        decreases usage.len() - i,
    {
        assert(u0[i as int].0 == usage@[i as int].0@);
        if str_eq(usage[i].0.as_str(), name) {
            let count = usage[i].1;
            let key = usage[i].0.clone();
            usage.set(i, (key, count + 1));
            assert(usage_view(usage@) =~= u0.update(i as int, (name@, u0[i as int].1 + 1)));
            return;
        }
        i = i + 1;
    }
    usage.push((crate::text::owned(name), 1));
    assert(usage_view(usage@) =~= u0.push((name@, 1)));
}

/// Being the name `k`.
pub open spec fn is_name(k: Seq<char>) -> spec_fn(Seq<char>) -> bool {
    |x: Seq<char>| x == k
}

/// How many of `names` are `k`.
pub open spec fn count_name(names: Seq<Seq<char>>, k: Seq<char>) -> nat {
    names.filter(is_name(k)).len()
}

/// Some entry of the table is for `k`.
pub open spec fn has_tool(u: Seq<(Seq<char>, nat)>, k: Seq<char>) -> bool {
    exists|j: int| 0 <= j < u.len() && (#[trigger] u[j]).0 == k
}

proof fn lemma_usage_position(u: Seq<(Seq<char>, nat)>, name: Seq<char>, i: int)
    requires
        0 <= i,
    ensures
        match usage_position(u, name, i) {
            Some(k) => i <= k < u.len() && u[k].0 == name,
            None => forall|m: int| i <= m < u.len() ==> (#[trigger] u[m]).0 != name,
        },
    decreases u.len() - i,
{
    if i < u.len() && u[i].0 != name {
        lemma_usage_position(u, name, i + 1);
    }
}

/// Every call is counted: the usage table holds each called tool once, with
/// exactly the number of its calls.
pub proof fn lemma_usage_counts(names: Seq<Seq<char>>)
    ensures
        forall|i: int, j: int|
            0 <= i < j < usage_of(names).len() ==> (#[trigger] usage_of(names)[i]).0 != (#[trigger] usage_of(names)[j]).0,
        forall|i: int|
            0 <= i < usage_of(names).len() ==> (#[trigger] usage_of(names)[i]).1 == count_name(names, usage_of(names)[i].0),
        forall|n: int| 0 <= n < names.len() ==> has_tool(usage_of(names), #[trigger] names[n]),
    decreases names.len(),
{
    if names.len() > 0 {
        let pre = names.drop_last();
        let x = names.last();
        lemma_usage_counts(pre);
        let u = usage_of(pre);
        let u2 = usage_of(names);
        assert(u2 == usage_add(u, x));
        lemma_usage_position(u, x, 0);
        assert forall|k: Seq<char>| #[trigger] count_name(names, k) == count_name(pre, k) + (if x == k {
            1nat
        } else {
            0nat
        }) by {
            reveal(Seq::filter);
            assert(names.filter(is_name(k)) == (if x == k {
                pre.filter(is_name(k)).push(x)
            } else {
                pre.filter(is_name(k))
            }));
        }
        match usage_position(u, x, 0) {
            Some(p) => {
                assert(u2 == u.update(p, (x, u[p].1 + 1)));
                assert forall|i: int, j: int| 0 <= i < j < u2.len() implies (#[trigger] u2[i]).0 != (#[trigger] u2[j]).0 by {
                    assert(u[i].0 != u[j].0);
                }
                assert forall|i: int| 0 <= i < u2.len() implies (#[trigger] u2[i]).1 == count_name(names, u2[i].0) by {
                    assert(count_name(names, u2[i].0) == count_name(pre, u2[i].0) + (if x == u2[i].0 { 1nat } else { 0nat }));
                    if i != p {
                        assert(u[i].0 != u[p].0);
                    }
                }
                assert forall|n: int| 0 <= n < names.len() implies has_tool(u2, #[trigger] names[n]) by {
                    if n < pre.len() {
                        assert(pre[n] == names[n]);
                        assert(has_tool(u, pre[n]));
                        let j = choose|j: int| 0 <= j < u.len() && (#[trigger] u[j]).0 == pre[n];
                        assert(u2[j].0 == names[n]);
                    } else {
                        assert(u2[p].0 == names[n]);
                    }
                }
            },
            None => {
                assert(u2 == u.push((x, 1nat)));
                assert forall|i: int, j: int| 0 <= i < j < u2.len() implies (#[trigger] u2[i]).0 != (#[trigger] u2[j]).0 by {
                    if j < u.len() {
                        assert(u[i].0 != u[j].0);
                    } else {
                        assert(u[i].0 != x);
                    }
                }
                assert forall|i: int| 0 <= i < u2.len() implies (#[trigger] u2[i]).1 == count_name(names, u2[i].0) by {
                    assert(count_name(names, u2[i].0) == count_name(pre, u2[i].0) + (if x == u2[i].0 { 1nat } else { 0nat }));
                    if i < u.len() {
                        assert(u[i].0 != x);
                    } else {
                        assert(count_name(pre, x) == 0) by {
                            if count_name(pre, x) > 0 {
                                let f = pre.filter(is_name(x));
                                assert(f.contains(f[0]));
                                pre.lemma_filter_contains_rev(is_name(x), f[0]);
                                pre.lemma_filter_pred(is_name(x), 0);
                                let n = choose|n: int| 0 <= n < pre.len() && pre[n] == f[0];
                                assert(has_tool(u, pre[n]));
                            }
                        }
                    }
                }
                assert forall|n: int| 0 <= n < names.len() implies has_tool(u2, #[trigger] names[n]) by {
                    if n < pre.len() {
                        assert(pre[n] == names[n]);
                        assert(has_tool(u, pre[n]));
                        let j = choose|j: int| 0 <= j < u.len() && (#[trigger] u[j]).0 == pre[n];
                        assert(u2[j].0 == names[n]);
                    } else {
                        assert(u2[u.len() as int].0 == names[n]);
                    }
                }
            },
        }
    }
}

} // verus!
