//! The Markdown report of the analysis of a directory of sessions.
use vstd::prelude::*;

use crate::claude::analyzer::{SessionAnalyzer, SessionHierarchy};
use crate::claude::models::Session;
use crate::claude::parser::opt_or;
use crate::text::{decimal, owned, push_decimal, push_str, views};

verus! {

/// The strings of `v` joined with a comma and a space between them.
pub open spec fn join_comma(v: Seq<Seq<char>>) -> Seq<char>
    decreases v.len(),
{
    if v.len() == 0 {
        Seq::empty()
    } else if v.len() == 1 {
        v[0]
    } else {
        join_comma(v.drop_last()) + ", "@ + v.last()
    }
}

/// `true` or `false`.
pub open spec fn bool_text(b: bool) -> Seq<char> {
    if b {
        "true"@
    } else {
        "false"@
    }
}

/// The report's section on main session `s`: its id, agent flag, numbers of
/// messages and tool calls, and its child agents when it has any.
pub open spec fn session_section(s: Session) -> Seq<char> {
    "### "@ + s.session_id@ + "\n\n- Is agent: "@ + bool_text(s.is_agent) + "\n- Messages: "@ + decimal(
        s.messages@.len(),
    ) + "\n- Tool calls: "@ + decimal(s.metadata.tool_call_count as nat) + "\n"@ + (if s.child_agents@.len() > 0 {
        "- Child agents: "@ + join_comma(views(s.child_agents@)) + "\n"@
    } else {
        Seq::empty()
    }) + "\n"@
}

/// The report's section on agent `a`: its id and parent (`unknown` when
/// missing) and its numbers of messages and tool calls.
pub open spec fn agent_section(a: Session) -> Seq<char> {
    "### "@ + opt_or(a.agent_id, "unknown"@) + "\n\n- Parent: "@ + opt_or(a.parent_session_id, "unknown"@)
        + "\n- Messages: "@ + decimal(a.messages@.len()) + "\n- Tool calls: "@ + decimal(
        a.metadata.tool_call_count as nat,
    ) + "\n\n"@
}

/// The sections of the main sessions `ss`, in order.
pub open spec fn session_sections(ss: Seq<Session>) -> Seq<char>
    decreases ss.len(),
{
    if ss.len() == 0 {
        Seq::empty()
    } else {
        session_sections(ss.drop_last()) + session_section(ss.last())
    }
}

/// The sections of the agents `ags`, in order.
pub open spec fn agent_sections(ags: Seq<Session>) -> Seq<char>
    decreases ags.len(),
{
    if ags.len() == 0 {
        Seq::empty()
    } else {
        agent_sections(ags.drop_last()) + agent_section(ags.last())
    }
}

/// The analysis report of main sessions `ss` and agents `ags`: a summary of
/// their numbers, then a section per main session and one per agent.
pub open spec fn analysis_markdown_spec(ss: Seq<Session>, ags: Seq<Session>) -> Seq<char> {
    "# Session Analysis\n\n## Summary\n\n- Main sessions: "@ + decimal(ss.len()) + "\n- Total sessions: "@ + decimal(
        ss.len() + ags.len(),
    ) + "\n- Agent sessions: "@ + decimal(ags.len()) + "\n\n## Sessions\n\n"@ + session_sections(ss)
        + "## Agents\n\n"@ + agent_sections(ags)
}

/// The strings of `v` joined with a comma and a space.
fn join_with_commas(v: &Vec<String>) -> (r: String)
    ensures
        r@ == join_comma(views(v@)),
{
    let mut r = String::new();
    let mut i: usize = 0;
    while i < v.len()
        invariant
            i <= v.len(),
            r@ == join_comma(views(v@).take(i as int)),
        decreases v.len() - i,
    {
        let ghost t = views(v@).take(i + 1);
        assert(t.drop_last() =~= views(v@).take(i as int));
        assert(t.last() == v@[i as int]@);
        if i > 0 {
            push_str(&mut r, ", ");
        } else {
            assert(views(v@).take(0) =~= Seq::<Seq<char>>::empty());
        }
        push_str(&mut r, v[i].as_str());
        i = i + 1;
    }
    assert(views(v@).take(v@.len() as int) =~= views(v@));
    r
}

/// Appends `o`, or `unknown` when it is missing.
fn push_or_unknown(r: &mut String, o: &Option<String>)
    ensures
        final(r)@ == old(r)@ + opt_or(*o, "unknown"@),
{
    match o {
        Some(x) => push_str(r, x.as_str()),
        None => push_str(r, "unknown"),
    }
}

/// Appends the section of main session `s`.
fn push_session_section(r: &mut String, s: &Session)
    ensures
        final(r)@ == old(r)@ + session_section(*s),
{
    push_str(r, "### ");
    push_str(r, s.session_id.as_str());
    push_str(r, "\n\n- Is agent: ");
    push_str(r, if s.is_agent { "true" } else { "false" });
    push_str(r, "\n- Messages: ");
    push_decimal(r, s.messages.len() as u64);
    push_str(r, "\n- Tool calls: ");
    push_decimal(r, s.metadata.tool_call_count as u64);
    push_str(r, "\n");
    if s.child_agents.len() > 0 {
        push_str(r, "- Child agents: ");
        let j = join_with_commas(&s.child_agents);
        push_str(r, j.as_str());
        push_str(r, "\n");
    }
    push_str(r, "\n");
    assert(r@ =~= old(r)@ + session_section(*s));
}

/// Appends the section of agent `a`.
fn push_agent_section(r: &mut String, a: &Session)
    ensures
        final(r)@ == old(r)@ + agent_section(*a),
{
    push_str(r, "### ");
    push_or_unknown(r, &a.agent_id);
    push_str(r, "\n\n- Parent: ");
    push_or_unknown(r, &a.parent_session_id);
    push_str(r, "\n- Messages: ");
    push_decimal(r, a.messages.len() as u64);
    push_str(r, "\n- Tool calls: ");
    push_decimal(r, a.metadata.tool_call_count as u64);
    push_str(r, "\n\n");
    assert(r@ =~= old(r)@ + agent_section(*a));
}

impl SessionAnalyzer {
    /// The Markdown report of the analysis `h` of a directory: the numbers of
    /// main sessions, of all sessions and of agents, then a section per main
    /// session and per agent.
    pub fn analysis_markdown(&self, h: &SessionHierarchy) -> (r: String)
        requires
            h.sessions@.len() + h.agents@.len() <= usize::MAX,
        ensures
            r@ == analysis_markdown_spec(h.sessions@, h.agents@),
    {
        let n = h.sessions.len();
        let m = h.agents.len();
        let mut r = owned("# Session Analysis\n\n## Summary\n\n- Main sessions: ");
        push_decimal(&mut r, n as u64);
        push_str(&mut r, "\n- Total sessions: ");
        push_decimal(&mut r, (n + m) as u64);
        push_str(&mut r, "\n- Agent sessions: ");
        push_decimal(&mut r, m as u64);
        push_str(&mut r, "\n\n## Sessions\n\n");
        let ghost head = r@;
        let mut i: usize = 0;
        assert(h.sessions@.take(0) =~= Seq::<Session>::empty());
        while i < n
            invariant
                i <= n,
                n == h.sessions@.len(),
                r@ == head + session_sections(h.sessions@.take(i as int)),
            decreases n - i,
        {
            let s = &h.sessions[i];
            proof {
                let t = h.sessions@.take(i + 1);
                assert(t.drop_last() =~= h.sessions@.take(i as int));
                assert(t.last() == h.sessions@[i as int]);
            }
            push_session_section(&mut r, s);
            assert(r@ =~= head + session_sections(h.sessions@.take(i + 1)));
            i = i + 1;
        }
        assert(h.sessions@.take(n as int) =~= h.sessions@);
        push_str(&mut r, "## Agents\n\n");
        let ghost head2 = r@;
        let mut k: usize = 0;
        assert(h.agents@.take(0) =~= Seq::<Session>::empty());
        while k < m
            invariant
                k <= m,
                m == h.agents@.len(),
                r@ == head2 + agent_sections(h.agents@.take(k as int)),
            decreases m - k,
        {
            let a = &h.agents[k];
            proof {
                let t = h.agents@.take(k + 1);
                assert(t.drop_last() =~= h.agents@.take(k as int));
                assert(t.last() == h.agents@[k as int]);
            }
            push_agent_section(&mut r, a);
            assert(r@ =~= head2 + agent_sections(h.agents@.take(k + 1)));
            k = k + 1;
        }
        assert(h.agents@.take(m as int) =~= h.agents@);
        r
    }
}

} // verus!
