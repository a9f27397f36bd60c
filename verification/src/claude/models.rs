//! The data of a parsed session. JSON documents that the library carries
//! without reading (tool inputs and outputs, raw message bodies) are held
//! as their JSON text.
use vstd::prelude::*;

use crate::foreign::Timestamp;

verus! {

/// A session: a main one, or an agent spawned from one.
pub struct Session {
    pub session_id: String,
    pub is_agent: bool,
    pub agent_id: Option<String>,
    pub parent_session_id: Option<String>,
    pub metadata: SessionMetadata,
    pub messages: Vec<Message>,
    pub child_agents: Vec<String>,
}

/// What is known of a session as a whole.
pub struct SessionMetadata {
    pub cwd: Option<String>,
    pub version: Option<String>,
    pub git_branch: Option<String>,
    pub start_time: Option<Timestamp>,
    pub end_time: Option<Timestamp>,
    pub duration_seconds: Option<i64>,
    pub message_count: usize,
    pub tool_call_count: usize,
    pub file_size_bytes: u64,
}

impl Default for SessionMetadata {
    /// Nothing known, and no messages, tool calls or bytes.
    fn default() -> (r: SessionMetadata)
        ensures
            r.cwd is None,
            r.version is None,
            r.git_branch is None,
            r.start_time is None,
            r.end_time is None,
            r.duration_seconds is None,
            r.message_count == 0,
            r.tool_call_count == 0,
            r.file_size_bytes == 0,
    {
        SessionMetadata {
            cwd: None,
            version: None,
            git_branch: None,
            start_time: None,
            end_time: None,
            duration_seconds: None,
            message_count: 0,
            tool_call_count: 0,
            file_size_bytes: 0,
        }
    }
}

/// One message of a session.
pub struct Message {
    pub uuid: String,
    pub parent_uuid: Option<String>,
    pub is_sidechain: bool,
    pub message_type: MessageType,
    pub role: Option<MessageRole>,
    pub timestamp: Option<Timestamp>,
    pub content: MessageContent,
    pub tool_uses: Vec<ToolUse>,
}

/// The kind of a record.
#[derive(Debug, Clone, Copy, PartialEq, Eq, Structural)]
pub enum MessageType {
    User,
    Assistant,
    System,
    Summary,
    FileHistorySnapshot,
}

impl Default for MessageType {
    /// A record of unknown kind is a system record.
    fn default() -> (r: MessageType)
        ensures
            r == MessageType::System,
    {
        MessageType::System
    }
}

/// Who wrote a message.
#[derive(Debug, Clone, Copy, PartialEq, Eq, Structural)]
pub enum MessageRole {
    User,
    Assistant,
    System,
}

/// The readable parts of a message: its text, its reasoning, and the JSON
/// text of the whole message body (`null` when there was none).
pub struct MessageContent {
    pub text: Option<String>,
    pub thinking: Option<String>,
    pub raw_content: String,
}

/// A call of a tool, with the JSON text of its input.
pub struct ToolUse {
    pub tool_id: String,
    pub tool_name: String,
    pub timestamp: Option<Timestamp>,
    pub input: String,
    pub output: Option<ToolResult>,
}

/// The outcome of a tool call, with the JSON text of its content.
pub struct ToolResult {
    pub success: bool,
    pub content: String,
    pub error: Option<String>,
    pub execution_time_ms: Option<u64>,
}

/// One line of a session file.
pub struct JsonlRecord {
    pub uuid: Option<String>,
    pub parent_uuid: Option<String>,
    pub is_sidechain: Option<bool>,
    pub message_type: Option<String>,
    pub session_id: Option<String>,
    pub agent_id: Option<String>,
    pub timestamp: Option<String>,
    pub message: Option<RecordMessage>,
    pub cwd: Option<String>,
    pub version: Option<String>,
    pub git_branch: Option<String>,
}

/// The message body of a record: its role, its content blocks when the
/// content is a list, and its JSON text.
pub struct RecordMessage {
    pub role: Option<String>,
    pub content: Option<Vec<ContentBlock>>,
    pub raw: String,
}

/// A content block of a message body: its kind, and the fields of it that
/// are read (the input as JSON text).
pub struct ContentBlock {
    pub block_type: Option<String>,
    pub text: Option<String>,
    pub thinking: Option<String>,
    pub id: Option<String>,
    pub name: Option<String>,
    pub input: Option<String>,
}

} // verus!
