use snps_core::claude::html::{HTML_HEAD, HTML_TAIL};
use snps_core::claude::analyzer::SessionHierarchy;
use snps_core::claude::export::{short_id_is_ok, title_cut_is_ok};
use snps_core::claude::analyzer::{SessionAnalyzer, SessionStatistics};
use snps_core::claude::export::{thread_data_to_session, SessionExporter};
use snps_core::claude::models::{
    ContentBlock, JsonlRecord, Message, MessageContent, MessageRole, MessageType, RecordMessage, Session,
    SessionMetadata, ToolUse,
};
use snps_core::claude::parser::SessionParser;
use snps_core::SynapseError;

fn none_record() -> JsonlRecord {
    JsonlRecord {
        uuid: None,
        parent_uuid: None,
        is_sidechain: None,
        message_type: None,
        session_id: None,
        agent_id: None,
        timestamp: None,
        message: None,
        cwd: None,
        version: None,
        git_branch: None,
    }
}

fn block(kind: &str) -> ContentBlock {
    ContentBlock { block_type: Some(kind.to_string()), text: None, thinking: None, id: None, name: None, input: None }
}

fn text_block(text: &str) -> ContentBlock {
    ContentBlock { text: Some(text.to_string()), ..block("text") }
}

fn message(role: &str, blocks: Vec<ContentBlock>) -> RecordMessage {
    RecordMessage { role: Some(role.to_string()), content: Some(blocks), raw: "{}".to_string() }
}

#[test]
fn test_message_type_default() {
    let mt = MessageType::default();
    assert_eq!(mt, MessageType::System);
}

#[test]
fn test_session_metadata_default() {
    let meta = SessionMetadata::default();
    assert!(meta.cwd.is_none());
    assert_eq!(meta.message_count, 0);
}

#[test]
fn test_parse_main_session() {
    let record = JsonlRecord {
        uuid: Some("test-uuid".to_string()),
        message_type: Some("user".to_string()),
        session_id: Some("test-session".to_string()),
        timestamp: Some("2025-12-12T20:00:00Z".to_string()),
        message: Some(message("user", vec![text_block("test")])),
        ..none_record()
    };
    let parser = SessionParser::new(String::new());
    let session = parser.build_session("/tmp/x/test-session.jsonl", vec![record], 10).unwrap();
    assert_eq!(session.session_id, "test-session");
    assert!(!session.is_agent);
    assert_eq!(session.messages.len(), 1);
}

#[test]
fn test_parse_agent_session() {
    let record = JsonlRecord {
        uuid: Some("agent-uuid".to_string()),
        is_sidechain: Some(true),
        message_type: Some("assistant".to_string()),
        session_id: Some("parent-session".to_string()),
        agent_id: Some("abc123".to_string()),
        timestamp: Some("2025-12-12T20:00:00Z".to_string()),
        message: Some(message("assistant", vec![text_block("test")])),
        ..none_record()
    };
    let parser = SessionParser::new(String::new());
    let session = parser.build_session("/tmp/x/agent-abc123.jsonl", vec![record], 10).unwrap();
    assert!(session.is_agent);
    assert_eq!(session.agent_id, Some("abc123".to_string()));
    assert_eq!(session.parent_session_id, Some("parent-session".to_string()));
}

#[test]
fn test_tool_use_extraction() {
    let tool = ContentBlock {
        id: Some("tool-1".to_string()),
        name: Some("Read".to_string()),
        input: Some("{\"file_path\":\"/test.txt\"}".to_string()),
        ..block("tool_use")
    };
    let record = JsonlRecord {
        uuid: Some("tool-msg".to_string()),
        message_type: Some("assistant".to_string()),
        timestamp: Some("2025-12-12T20:00:00Z".to_string()),
        message: Some(message("assistant", vec![tool])),
        ..none_record()
    };
    let parser = SessionParser::new(String::new());
    let session = parser.build_session("/tmp/x/session.jsonl", vec![record], 10).unwrap();
    assert_eq!(session.messages[0].tool_uses.len(), 1);
    assert_eq!(session.messages[0].tool_uses[0].tool_name, "Read");
    assert_eq!(session.messages[0].tool_uses[0].input, "{\"file_path\":\"/test.txt\"}");
    assert_eq!(session.metadata.tool_call_count, 1);
}

#[test]
fn parse_message_types() {
    let parser = SessionParser::new("p".to_string());
    assert_eq!(parser.project_dir(), "p");
    assert_eq!(parser.parse_message_type(Some("summary")), MessageType::Summary);
    assert_eq!(parser.parse_message_type(Some("file-history-snapshot")), MessageType::FileHistorySnapshot);
    assert_eq!(parser.parse_message_type(Some("weird")), MessageType::System);
    assert_eq!(parser.parse_message_type(None), MessageType::System);
}

#[test]
fn content_joins_texts_and_keeps_last_thinking() {
    let record = JsonlRecord {
        uuid: Some("u".to_string()),
        message: Some(message(
            "assistant",
            vec![
                text_block("one"),
                ContentBlock { thinking: Some("first".to_string()), ..block("thinking") },
                text_block("two"),
                ContentBlock { thinking: Some("second".to_string()), ..block("thinking") },
                block("tool_use"),
            ],
        )),
        ..none_record()
    };
    let parser = SessionParser::new(String::new());
    let (content, tools) = parser.extract_content_and_tools(&record);
    assert_eq!(content.text.as_deref(), Some("one\ntwo"));
    assert_eq!(content.thinking.as_deref(), Some("second"));
    assert_eq!(content.raw_content, "{}");
    assert_eq!(tools.len(), 1);
    assert_eq!(tools[0].tool_id, "");
    assert_eq!(tools[0].tool_name, "unknown");
    assert_eq!(tools[0].input, "null");
}

#[test]
fn metadata_spans_timestamps() {
    let first = JsonlRecord {
        uuid: Some("a".to_string()),
        timestamp: Some("2025-12-12T20:00:00Z".to_string()),
        cwd: Some("/work".to_string()),
        git_branch: Some("main".to_string()),
        ..none_record()
    };
    let middle = JsonlRecord { timestamp: Some("not a time".to_string()), ..none_record() };
    let last = JsonlRecord {
        uuid: Some("b".to_string()),
        timestamp: Some("2025-12-12T20:02:30.900Z".to_string()),
        ..none_record()
    };
    let parser = SessionParser::new(String::new());
    let session = parser.build_session("/x/s.jsonl", vec![first, middle, last], 77).unwrap();
    assert_eq!(session.metadata.duration_seconds, Some(150));
    assert_eq!(session.metadata.message_count, 3);
    assert_eq!(session.metadata.cwd.as_deref(), Some("/work"));
    assert_eq!(session.metadata.git_branch.as_deref(), Some("main"));
    assert_eq!(session.metadata.file_size_bytes, 77);
    assert_eq!(session.messages.len(), 2);
    assert_eq!(session.session_id, "s");
}

#[test]
fn session_without_file_name_fails() {
    let parser = SessionParser::new(String::new());
    let result = parser.build_session("/", vec![], 0);
    assert!(matches!(result, Err(SynapseError::Config(m)) if m == "Invalid filename"));
}

fn tool(id: &str, name: &str) -> ToolUse {
    ToolUse { tool_id: id.to_string(), tool_name: name.to_string(), timestamp: None, input: "null".to_string(), output: None }
}

fn msg(uuid: &str, parent: Option<&str>, role: MessageRole, text: Option<&str>, tools: Vec<ToolUse>) -> Message {
    Message {
        uuid: uuid.to_string(),
        parent_uuid: parent.map(|s| s.to_string()),
        is_sidechain: false,
        message_type: MessageType::Assistant,
        role: Some(role),
        timestamp: None,
        content: MessageContent { text: text.map(|s| s.to_string()), thinking: None, raw_content: "null".to_string() },
        tool_uses: tools,
    }
}

fn session(id: &str, messages: Vec<Message>) -> Session {
    Session {
        session_id: id.to_string(),
        is_agent: false,
        agent_id: None,
        parent_session_id: None,
        metadata: SessionMetadata::default(),
        messages,
        child_agents: Vec::new(),
    }
}

#[test]
fn test_tool_usage_statistics() {
    let session = session(
        "test",
        vec![
            msg("1", None, MessageRole::Assistant, None, vec![tool("t1", "Read"), tool("t2", "Read")]),
            msg("2", None, MessageRole::Assistant, None, vec![tool("t3", "Write")]),
        ],
    );
    let analyzer = SessionAnalyzer::new(String::new());
    let stats = analyzer.analyze_session(&session);
    let read = stats.tool_usage.iter().find(|(n, _)| n == "Read").map(|(_, c)| *c);
    let write = stats.tool_usage.iter().find(|(n, _)| n == "Write").map(|(_, c)| *c);
    assert_eq!(read, Some(2));
    assert_eq!(write, Some(1));
    assert_eq!(stats.tool_usage.len(), 2);
    assert_eq!(stats.total_messages, 2);
    assert!(stats.message_flow[0].has_tools);
}

fn agent(agent_id: &str, parent: &str) -> Session {
    Session {
        is_agent: true,
        agent_id: Some(agent_id.to_string()),
        parent_session_id: Some(parent.to_string()),
        ..session(parent, vec![])
    }
}

#[test]
fn test_session_hierarchy() {
    let analyzer = SessionAnalyzer::new(String::new());
    let parsed = vec![session("main", vec![]), agent("a1", "main")];
    let hierarchy = analyzer.build_hierarchy(parsed);
    assert_eq!(hierarchy.sessions.len(), 1);
    assert_eq!(hierarchy.agents.len(), 1);
    assert_eq!(hierarchy.sessions[0].child_agents.len(), 1);
}

#[test]
fn hierarchy_keeps_one_session_per_id() {
    let analyzer = SessionAnalyzer::new(String::new());
    let mut later = session("main", vec![]);
    later.metadata.message_count = 9;
    let parsed = vec![
        session("main", vec![]),
        agent("a1", "main"),
        session("other", vec![]),
        later,
        agent("a2", "missing"),
        agent("a3", "main"),
    ];
    let h = analyzer.build_hierarchy(parsed);
    assert_eq!(h.sessions.len(), 2);
    assert_eq!(h.sessions[0].session_id, "main");
    assert_eq!(h.sessions[0].metadata.message_count, 9);
    assert_eq!(h.sessions[0].child_agents, vec!["a1".to_string(), "a3".to_string()]);
    assert!(h.sessions[1].child_agents.is_empty());
    assert_eq!(h.agents.len(), 3);
}

fn create_test_session() -> Session {
    let mut s = session(
        "test-session-123",
        vec![
            msg("msg-1", None, MessageRole::User, Some("Hello, this is a test message"), vec![]),
            Message {
                content: MessageContent {
                    text: Some("Response from assistant".to_string()),
                    thinking: Some("Let me think about this...".to_string()),
                    raw_content: "null".to_string(),
                },
                ..msg(
                    "msg-2",
                    Some("msg-1"),
                    MessageRole::Assistant,
                    None,
                    vec![ToolUse { input: "{\"file_path\":\"/test.txt\"}".to_string(), ..tool("tool-1", "Read") }],
                )
            },
        ],
    );
    s.metadata = SessionMetadata {
        cwd: Some("/test/dir".to_string()),
        version: Some("1.0.0".to_string()),
        git_branch: Some("main".to_string()),
        duration_seconds: Some(120),
        message_count: 2,
        tool_call_count: 1,
        file_size_bytes: 1024,
        ..SessionMetadata::default()
    };
    s.child_agents = vec!["agent-1".to_string()];
    s
}

fn create_test_stats() -> SessionStatistics {
    SessionStatistics {
        total_messages: 2,
        tool_calls: 1,
        tool_usage: vec![("Read".to_string(), 1)],
        message_flow: Vec::new(),
        duration_seconds: Some(120),
    }
}

#[test]
fn test_infer_title() {
    let session = create_test_session();
    let exporter = SessionExporter::new();
    let title = exporter.infer_title(&session);
    assert_eq!(title, "Hello, this is a test message");
}

#[test]
fn infer_title_falls_back_to_session_id() {
    let exporter = SessionExporter::new();
    assert_eq!(exporter.infer_title(&session("0123456789abcdef", vec![])), "Session 01234567");
    assert_eq!(exporter.infer_title(&session("abc", vec![])), "Session abc");
    let first_line_only = session("x", vec![msg("1", None, MessageRole::User, Some("line one\r\nline two"), vec![])]);
    assert_eq!(exporter.infer_title(&first_line_only), "line one");
}

#[test]
fn test_export_markdown_string() {
    let session = create_test_session();
    let stats = create_test_stats();
    let exporter = SessionExporter::new();
    let md = exporter.export_markdown_string(&session, &stats);
    assert!(md.contains("# Hello, this is a test message"));
    assert!(md.contains("**Session ID**: `test-session-123`"));
    assert!(md.contains("### Spawned Agents"));
    assert!(md.contains("`agent-1`"));
    assert!(md.contains("Tool: `Read`"));
    assert!(md.contains("- **Duration**: 120 seconds\n"));
    assert!(md.contains("- **Read**: 1 calls\n"));
    assert!(md.contains("\"file_path\": \"/test.txt\""));
    assert!(md.contains("### Assistant - unknown\n\n<details>"));
}

#[test]
fn test_build_thread_data() {
    let session = create_test_session();
    let stats = create_test_stats();
    let exporter = SessionExporter::new();
    let thread_data = exporter.build_thread_data(&session, &stats);
    assert_eq!(thread_data.thread_id, "test-session-123");
    assert_eq!(thread_data.messages.len(), 2);
    assert_eq!(thread_data.child_agents.len(), 1);
    assert!(!thread_data.metadata.is_agent);
    assert_eq!(thread_data.status, "in-progress");
}

#[test]
fn format_duration_cases() {
    let e = SessionExporter::default();
    assert_eq!(e.format_duration(45), "45s");
    assert_eq!(e.format_duration(-3), "-3s");
    assert_eq!(e.format_duration(125), "2m 5s");
    assert_eq!(e.format_duration(3725), "1h 2m");
}

#[test]
fn escape_html_cases() {
    let e = SessionExporter::new();
    assert_eq!(e.escape_html("<a href=\"x\">Tom & Jerry's</a>"), "&lt;a href=&quot;x&quot;&gt;Tom &amp; Jerry&#x27;s&lt;/a&gt;");
    assert_eq!(e.escape_html("plain"), "plain");
}

#[test]
fn tool_usage_sorted_busiest_first() {
    let stats = SessionStatistics {
        total_messages: 0,
        tool_calls: 0,
        tool_usage: vec![("A".to_string(), 1), ("B".to_string(), 3), ("C".to_string(), 1), ("D".to_string(), 3)],
        message_flow: Vec::new(),
        duration_seconds: None,
    };
    let sorted = snps_core::claude::export::sort_usage(&stats.tool_usage);
    let names: Vec<&str> = sorted.iter().map(|(n, _)| n.as_str()).collect();
    assert_eq!(names, vec!["B", "D", "A", "C"]);
}

#[test]
fn thread_converts_back_to_session() {
    let original = create_test_session();
    let stats = create_test_stats();
    let thread = SessionExporter::new().build_thread_data(&original, &stats);
    let back = thread_data_to_session(&thread);
    assert_eq!(back.session_id, "test-session-123");
    assert!(!back.is_agent);
    assert!(back.agent_id.is_none());
    assert_eq!(back.child_agents, vec!["agent-1".to_string()]);
    assert_eq!(back.metadata.cwd.as_deref(), Some("/test/dir"));
    assert_eq!(back.metadata.git_branch.as_deref(), Some("main"));
    assert_eq!(back.metadata.duration_seconds, Some(120));
    assert_eq!(back.metadata.message_count, 2);
    assert_eq!(back.metadata.tool_call_count, 1);
    assert_eq!(back.metadata.file_size_bytes, 0);
    assert_eq!(back.messages.len(), 2);
    assert_eq!(back.messages[1].uuid, "msg-2");
    assert_eq!(back.messages[1].parent_uuid.as_deref(), Some("msg-1"));
    assert_eq!(back.messages[1].role, Some(MessageRole::Assistant));
    assert_eq!(back.messages[1].content.thinking.as_deref(), Some("Let me think about this..."));
    assert_eq!(back.messages[1].content.raw_content, "null");
    assert_eq!(back.messages[1].tool_uses[0].tool_name, "Read");
    assert_eq!(back.messages[1].tool_uses[0].input, "{\"file_path\":\"/test.txt\"}");
    assert!(!back.messages[0].is_sidechain);
}

#[test]
fn html_page_fills_its_fields() {
    let mut session = create_test_session();
    session.metadata.git_branch = Some("feat/<x>".to_string());
    let stats = create_test_stats();
    let exporter = SessionExporter::new();
    let page = exporter.build_html(&session, &stats, Some("ada lovelace byron"), "Jan 02, 2025", "{\"a\":1}", "run();");
    assert!(page.starts_with(HTML_HEAD));
    assert!(page.ends_with(HTML_TAIL));
    assert!(page.contains("<title>Hello, this is a test message - Session</title>"));
    assert!(page.contains("<span class=\"avatar\">AL</span>\n        <span>ada lovelace byron</span>"));
    assert!(page.contains("<span>Jan 02, 2025</span>"));
    assert!(page.contains("<span class=\"separator\">•</span><span>feat/&lt;x&gt;</span>"));
    assert!(page.contains("<div class=\"value\">2</div>"));
    assert!(page.contains("<div class=\"label\">Duration</div><div class=\"value\">2m 0s</div>"));
    assert!(page.contains("var sessionData = {\"a\":1};\n    run();\n  </script>"));
    let anon = exporter.build_html(&session, &stats, None, "d", "null", "");
    assert!(anon.contains("<span class=\"avatar\">U</span>\n        <span>User</span>"));
    session.metadata.duration_seconds = None;
    session.metadata.git_branch = None;
    let bare = exporter.build_html(&session, &stats, Some("x"), "d", "null", "");
    assert!(!bare.contains("Duration</div>"));
    assert!(bare.contains("<span>d</span>\n        \n      </div>"));
}

#[test]
fn html_export_dates_by_start_time() {
    let mut session = create_test_session();
    let stats = create_test_stats();
    let exporter = SessionExporter::new();
    assert!(exporter.export_html_string(&session, &stats, None, "null", "").contains("<span>Unknown date</span>"));
    session.metadata.start_time = Some(snps_core::foreign::Timestamp { secs: 1_735_776_000, nanos: 0 });
    assert!(exporter.export_html_string(&session, &stats, None, "null", "").contains("<span>Jan 02, 2025</span>"));
}

#[test]
fn analysis_report_lists_sessions_and_agents() {
    let mut main = create_test_session();
    main.child_agents = vec!["a1".to_string(), "a2".to_string()];
    let mut a = session("s", vec![]);
    a.is_agent = true;
    a.agent_id = Some("a1".to_string());
    a.parent_session_id = Some("test-session-123".to_string());
    let b = session("t", vec![]);
    let h = SessionHierarchy { sessions: vec![main], agents: vec![a, b] };
    let md = SessionAnalyzer::new(String::new()).analysis_markdown(&h);
    assert_eq!(
        md,
        "# Session Analysis\n\n## Summary\n\n- Main sessions: 1\n- Total sessions: 3\n- Agent sessions: 2\n\n\
## Sessions\n\n### test-session-123\n\n- Is agent: false\n- Messages: 2\n- Tool calls: 1\n- Child agents: a1, a2\n\n\
## Agents\n\n### a1\n\n- Parent: test-session-123\n- Messages: 0\n- Tool calls: 0\n\n\
### unknown\n\n- Parent: unknown\n- Messages: 0\n- Tool calls: 0\n\n"
    );
}

#[test]
fn id_and_title_cut_checks() {
    assert!(short_id_is_ok("0123456789"));
    assert!(short_id_is_ok("abc"));
    assert!(short_id_is_ok("abcdéfgh"));
    assert!(!short_id_is_ok("abcdefgé"));
    assert!(title_cut_is_ok(&create_test_session()));
    assert!(!title_cut_is_ok(&session("abcdefgé", vec![])));
    assert!(title_cut_is_ok(&session("abcdefgé", vec![msg("1", None, MessageRole::User, Some("hi"), vec![])])));
}
