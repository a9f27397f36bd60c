//! The kinds of nodes and edges of the knowledge graph, and their names.
use vstd::prelude::*;

use crate::text::str_eq;

verus! {

/// The kind of a node of the knowledge graph.
#[derive(Debug, Clone, Copy, PartialEq, Eq, Structural)]
pub enum NodeType {
    Idea,
    Feature,
    Task,
    Decision,
    Question,
    Assumption,
    Code,
    Test,
    Document,
    Research,
    Plan,
    Completion,
}

/// The kind of an edge of the knowledge graph.
#[derive(Debug, Clone, Copy, PartialEq, Eq, Structural)]
pub enum EdgeType {
    Inspires,
    Requires,
    Produces,
    Impacts,
    Blocks,
    Validates,
    Implements,
    Verifies,
    Describes,
    Informs,
    Enables,
    Completes,
}

/// The name of a node kind in storage and in the API (its `snake_case` form).
pub open spec fn node_type_name(t: NodeType) -> Seq<char> {
    match t {
        NodeType::Idea => "idea"@,
        NodeType::Feature => "feature"@,
        NodeType::Task => "task"@,
        NodeType::Decision => "decision"@,
        NodeType::Question => "question"@,
        NodeType::Assumption => "assumption"@,
        NodeType::Code => "code"@,
        NodeType::Test => "test"@,
        NodeType::Document => "document"@,
        NodeType::Research => "research"@,
        NodeType::Plan => "plan"@,
        NodeType::Completion => "completion"@,
    }
}

/// The name of `t`.
pub fn node_type_as_str(t: &NodeType) -> (r: &'static str)
    ensures
        r@ == node_type_name(*t),
{
    match t {
        NodeType::Idea => "idea",
        NodeType::Feature => "feature",
        NodeType::Task => "task",
        NodeType::Decision => "decision",
        NodeType::Question => "question",
        NodeType::Assumption => "assumption",
        NodeType::Code => "code",
        NodeType::Test => "test",
        NodeType::Document => "document",
        NodeType::Research => "research",
        NodeType::Plan => "plan",
        NodeType::Completion => "completion",
    }
}

/// The node kind named `name`, if any.
pub fn node_type_from_name(name: &str) -> (r: Option<NodeType>)
    ensures
        match r {
            Some(t) => node_type_name(t) == name@,
            None => forall|t: NodeType| node_type_name(t) != name@,
        },
{
    if str_eq(name, "idea") {
        return Some(NodeType::Idea);
    }
    if str_eq(name, "feature") {
        return Some(NodeType::Feature);
    }
    if str_eq(name, "task") {
        return Some(NodeType::Task);
    }
    if str_eq(name, "decision") {
        return Some(NodeType::Decision);
    }
    if str_eq(name, "question") {
        return Some(NodeType::Question);
    }
    if str_eq(name, "assumption") {
        return Some(NodeType::Assumption);
    }
    if str_eq(name, "code") {
        return Some(NodeType::Code);
    }
    if str_eq(name, "test") {
        return Some(NodeType::Test);
    }
    if str_eq(name, "document") {
        return Some(NodeType::Document);
    }
    if str_eq(name, "research") {
        return Some(NodeType::Research);
    }
    if str_eq(name, "plan") {
        return Some(NodeType::Plan);
    }
    if str_eq(name, "completion") {
        return Some(NodeType::Completion);
    }
    proof {
        assert forall|t: NodeType| node_type_name(t) != name@ by {
            match t {
                NodeType::Idea => {},
                NodeType::Feature => {},
                NodeType::Task => {},
                NodeType::Decision => {},
                NodeType::Question => {},
                NodeType::Assumption => {},
                NodeType::Code => {},
                NodeType::Test => {},
                NodeType::Document => {},
                NodeType::Research => {},
                NodeType::Plan => {},
                NodeType::Completion => {},
            }
        }
    }
    None
}

/// Names tell node kinds apart: no two share a name, so a name read back
/// gives the node kind it was written for.
pub proof fn lemma_node_type_names_distinct(a: NodeType, b: NodeType)
    requires
        node_type_name(a) == node_type_name(b),
    ensures
        a == b,
{
    reveal_strlit("idea");
    reveal_strlit("feature");
    reveal_strlit("task");
    reveal_strlit("decision");
    reveal_strlit("question");
    reveal_strlit("assumption");
    reveal_strlit("code");
    reveal_strlit("test");
    reveal_strlit("document");
    reveal_strlit("research");
    reveal_strlit("plan");
    reveal_strlit("completion");
    if a != b {
        let x = node_type_name(a);
        let y = node_type_name(b);
        assert(x.len() != y.len() || x[0] != y[0] || x[1] != y[1] || x[2] != y[2] || x[3] != y[3]);
    }
}

/// The name of a edge kind in storage and in the API (its `snake_case` form).
pub open spec fn edge_type_name(t: EdgeType) -> Seq<char> {
    match t {
        EdgeType::Inspires => "inspires"@,
        EdgeType::Requires => "requires"@,
        EdgeType::Produces => "produces"@,
        EdgeType::Impacts => "impacts"@,
        EdgeType::Blocks => "blocks"@,
        EdgeType::Validates => "validates"@,
        EdgeType::Implements => "implements"@,
        EdgeType::Verifies => "verifies"@,
        EdgeType::Describes => "describes"@,
        EdgeType::Informs => "informs"@,
        EdgeType::Enables => "enables"@,
        EdgeType::Completes => "completes"@,
    }
}

/// The name of `t`.
pub fn edge_type_as_str(t: &EdgeType) -> (r: &'static str)
    ensures
        r@ == edge_type_name(*t),
{
    match t {
        EdgeType::Inspires => "inspires",
        EdgeType::Requires => "requires",
        EdgeType::Produces => "produces",
        EdgeType::Impacts => "impacts",
        EdgeType::Blocks => "blocks",
        EdgeType::Validates => "validates",
        EdgeType::Implements => "implements",
        EdgeType::Verifies => "verifies",
        EdgeType::Describes => "describes",
        EdgeType::Informs => "informs",
        EdgeType::Enables => "enables",
        EdgeType::Completes => "completes",
    }
}

/// The edge kind named `name`, if any.
pub fn edge_type_from_name(name: &str) -> (r: Option<EdgeType>)
    ensures
        match r {
            Some(t) => edge_type_name(t) == name@,
            None => forall|t: EdgeType| edge_type_name(t) != name@,
        },
{
    if str_eq(name, "inspires") {
        return Some(EdgeType::Inspires);
    }
    if str_eq(name, "requires") {
        return Some(EdgeType::Requires);
    }
    if str_eq(name, "produces") {
        return Some(EdgeType::Produces);
    }
    if str_eq(name, "impacts") {
        return Some(EdgeType::Impacts);
    }
    if str_eq(name, "blocks") {
        return Some(EdgeType::Blocks);
    }
    if str_eq(name, "validates") {
        return Some(EdgeType::Validates);
    }
    if str_eq(name, "implements") {
        return Some(EdgeType::Implements);
    }
    if str_eq(name, "verifies") {
        return Some(EdgeType::Verifies);
    }
    if str_eq(name, "describes") {
        return Some(EdgeType::Describes);
    }
    if str_eq(name, "informs") {
        return Some(EdgeType::Informs);
    }
    if str_eq(name, "enables") {
        return Some(EdgeType::Enables);
    }
    if str_eq(name, "completes") {
        return Some(EdgeType::Completes);
    }
    proof {
        assert forall|t: EdgeType| edge_type_name(t) != name@ by {
            match t {
                EdgeType::Inspires => {},
                EdgeType::Requires => {},
                EdgeType::Produces => {},
                EdgeType::Impacts => {},
                EdgeType::Blocks => {},
                EdgeType::Validates => {},
                EdgeType::Implements => {},
                EdgeType::Verifies => {},
                EdgeType::Describes => {},
                EdgeType::Informs => {},
                EdgeType::Enables => {},
                EdgeType::Completes => {},
            }
        }
    }
    None
}

/// Names tell edge kinds apart: no two share a name, so a name read back
/// gives the edge kind it was written for.
pub proof fn lemma_edge_type_names_distinct(a: EdgeType, b: EdgeType)
    requires
        edge_type_name(a) == edge_type_name(b),
    ensures
        a == b,
{
    reveal_strlit("inspires");
    reveal_strlit("requires");
    reveal_strlit("produces");
    reveal_strlit("impacts");
    reveal_strlit("blocks");
    reveal_strlit("validates");
    reveal_strlit("implements");
    reveal_strlit("verifies");
    reveal_strlit("describes");
    reveal_strlit("informs");
    reveal_strlit("enables");
    reveal_strlit("completes");
    if a != b {
        let x = edge_type_name(a);
        let y = edge_type_name(b);
        assert(x.len() != y.len() || x[0] != y[0] || x[1] != y[1] || x[2] != y[2] || x[3] != y[3]);
    }
}

} // verus!
