//! The bodies exchanged with the background daemon's HTTP API.
use vstd::prelude::*;

use crate::graph::{EdgeType, NodeType};
use crate::text::owned;

verus! {

/// The daemon's answer to a health check.
pub struct HealthResponse {
    pub status: String,
    pub version: String,
}

/// A request to create a node.
pub struct CreateNodeRequest {
    pub node_type: NodeType,
    pub title: String,
    pub content: Option<String>,
}

/// A request to create an edge between two nodes, named by their ids.
pub struct CreateEdgeRequest {
    pub source_id: String,
    pub target_id: String,
    pub edge_type: EdgeType,
}

/// The health of a running daemon: `ok`, with the library's version.
pub fn health() -> (r: HealthResponse)
    ensures
        r.status@ == "ok"@,
        r.version@ == crate::VERSION@,
{
    HealthResponse { status: owned("ok"), version: owned(crate::VERSION) }
}

} // verus!
