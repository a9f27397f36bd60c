use snps_core::llm::{router_step, CompletionResponse, FinishReason, RouterAction, Usage};
use snps_core::SynapseError;
use snps_core::api::health;
use snps_core::daemon::{
    http_address_text, tail_lines,
    daemon_db_path_in, daemon_log_path_in, daemon_pid_path_in, daemon_socket_path_in, daemon_url,
    get_daemon_pid_path, get_daemon_socket_path, parse_i32, pid_from_pid_file, port_from_pid_file,
};
use snps_core::foreign::Timestamp;
use snps_core::graph::{edge_type_as_str, edge_type_from_name, node_type_as_str, node_type_from_name, EdgeType, NodeType};
use snps_core::sessions::{
    age_text, is_main_session_file, path_to_claude_project_dir, project_subdir, session_file_matches,
    summarize_session_lines, ContentItem, RecordSummary, SessionLine,
};
use snps_core::text::u64_to_string;
use snps_core::thoughts::{
    generate_journal_template, generate_plan_template, generate_pr_template, generate_research_template,
    generate_scratch_template, generate_ticket_template,
};
use snps_core::update::{release_status_problem, ReleaseProblem, UpdateChecker};

#[test]
fn daemon_files_by_profile() {
    assert_eq!(daemon_socket_path_in("/h/.pmsynapse", None), "/h/.pmsynapse/daemon.sock");
    assert_eq!(daemon_socket_path_in("/h/.pmsynapse", Some("dev")), "/h/.pmsynapse/daemon-dev.sock");
    assert_eq!(daemon_db_path_in("/h/.pmsynapse", Some("dev")), "/h/.pmsynapse/synapse-dev.db");
    assert_eq!(daemon_pid_path_in("/h/.pmsynapse", None), "/h/.pmsynapse/daemon.pid");
    assert_eq!(daemon_log_path_in("/h/.pmsynapse", Some("x")), "/h/.pmsynapse/logs/daemon-x.log");
    assert!(get_daemon_socket_path(Some("p")).ends_with(".pmsynapse/daemon-p.sock"));
    assert!(get_daemon_pid_path(None).ends_with(".pmsynapse/daemon.pid"));
}

#[test]
fn pid_file_contents() {
    assert_eq!(port_from_pid_file(" 1234:7878\n"), Some("7878".to_string()));
    assert_eq!(port_from_pid_file("1234:7878:extra"), Some("7878".to_string()));
    assert_eq!(port_from_pid_file("1234"), None);
    assert_eq!(pid_from_pid_file("1234:7878"), Some(1234));
    assert_eq!(pid_from_pid_file(" 42 \n"), Some(42));
    assert_eq!(pid_from_pid_file("abc:1"), None);
    assert_eq!(daemon_url(Some("9000".to_string()), Some("1".to_string())), "http://127.0.0.1:9000/api/v1");
    assert_eq!(daemon_url(None, Some("1".to_string())), "http://127.0.0.1:1/api/v1");
    assert_eq!(daemon_url(None, None), "http://127.0.0.1:7878/api/v1");
}

#[test]
fn integers_parse_as_std_does() {
    for s in ["0", "-0", "+7", "2147483647", "-2147483648", "2147483648", "-2147483649", "", "-", "+", "1a", " 1", "99999999999"] {
        assert_eq!(parse_i32(s), s.parse::<i32>().ok(), "{}", s);
    }
    assert_eq!(u64_to_string(0), "0");
    assert_eq!(u64_to_string(18446744073709551615), "18446744073709551615");
}

#[test]
fn health_reports_version() {
    let h = health();
    assert_eq!(h.status, "ok");
    assert_eq!(h.version, snps_core::VERSION);
}

#[test]
fn graph_kind_names() {
    assert_eq!(node_type_as_str(&NodeType::Assumption), "assumption");
    assert_eq!(node_type_from_name("completion"), Some(NodeType::Completion));
    assert_eq!(node_type_from_name("Idea"), None);
    assert_eq!(edge_type_as_str(&EdgeType::Implements), "implements");
    assert_eq!(edge_type_from_name("blocks"), Some(EdgeType::Blocks));
}

#[test]
fn thought_templates() {
    let r = generate_research_template("Caching", "ana", "2024-01-02");
    assert!(r.starts_with("# Research: Caching\n\n## Date\n2024-01-02\n"));
    assert!(r.ends_with("---\n*Created by ana on 2024-01-02*\n"));
    let p = generate_plan_template("Cache", "ana", "2024-01-02");
    assert!(p.contains("- 2024-01-02: Started planning"));
    let t = generate_ticket_template("T-1", "ana", "2024-01-02");
    assert!(t.starts_with("# Ticket: T-1\n"));
    let pr = generate_pr_template("Fix", "ana", "2024-01-02");
    assert!(pr.ends_with("*Created by ana on 2024-01-02*\n"));
    assert_eq!(generate_scratch_template("Idea", "2024-01-02"), "# Idea\n\n*2024-01-02*\n\n## Notes\n\n");
    assert!(generate_journal_template("2024-01-02").starts_with("# Journal: 2024-01-02\n\n## Today's Goals\n"));
}

#[test]
fn claude_project_dirs() {
    assert_eq!(path_to_claude_project_dir("/Users/igor/Dev/pmsynapse"), "-Users-igor-Dev-pmsynapse");
    assert_eq!(project_subdir("-already"), "-already");
    assert_eq!(project_subdir("/a/b"), "-a-b");
}

#[test]
fn main_session_files() {
    assert!(is_main_session_file("0c721d51-3a4f-4db0-b5c9-e364c9c55de4.jsonl"));
    assert!(!is_main_session_file("agent-0c721d51-3a4f-4db0-b5c9-e364c9c55de4.jsonl"));
    assert!(!is_main_session_file("short.jsonl"));
    assert!(!is_main_session_file("0c721d51-3a4f-4db0-b5c9-e364c9c55de4.txt"));
    assert!(session_file_matches("0c721d51-3a4f.jsonl", "0c721d51"));
    assert!(session_file_matches("x-3a4f.jsonl", "3a4f"));
    assert!(!session_file_matches("0c721d51.txt", "0c721d51"));
}

#[test]
fn ages() {
    assert_eq!(age_text(5), "just now");
    assert_eq!(age_text(125), "2 minutes ago");
    assert_eq!(age_text(7300), "2 hours ago");
    assert_eq!(age_text(200000), "2 days ago");
}

fn record(kind: &str) -> RecordSummary {
    RecordSummary {
        session_id: None,
        git_branch: None,
        record_type: Some(kind.to_string()),
        summary: None,
        is_meta: None,
        items: None,
    }
}

fn text_item(t: &str) -> ContentItem {
    ContentItem { item_type: Some("text".to_string()), text: Some(t.to_string()) }
}

#[test]
fn session_summary_prefers_summary_record() {
    let lines = vec![
        SessionLine::Blank,
        SessionLine::Record(RecordSummary {
            session_id: Some("sid".to_string()),
            git_branch: Some("main".to_string()),
            items: Some(vec![text_item("<command>x</command>"), text_item("Fix the parser\nmore")]),
            ..record("user")
        }),
        SessionLine::Record(RecordSummary { summary: Some("Ignored".to_string()), ..record("summary") }),
        SessionLine::Record(RecordSummary {
            items: Some(vec![ContentItem { item_type: Some("tool_result".to_string()), text: None }]),
            ..record("user")
        }),
        SessionLine::Record(record("assistant")),
        SessionLine::Record(RecordSummary { is_meta: Some(true), ..record("user") }),
    ];
    let s = summarize_session_lines("0c721d51-3a4f-4db0-b5c9-e364c9c55de4.jsonl", &lines, 99).unwrap();
    assert_eq!(s.session_id, "sid");
    assert_eq!(s.title.as_deref(), Some("Fix the parser"));
    assert_eq!(s.message_count, 2);
    assert_eq!(s.git_branch.as_deref(), Some("main"));
    assert!(!s.is_agent);
}

#[test]
fn session_summary_edge_cases() {
    let long = "x".repeat(70);
    let lines = vec![SessionLine::Record(RecordSummary { items: Some(vec![text_item(&long)]), ..record("user") })];
    let s = summarize_session_lines("a.jsonl", &lines, 5).unwrap();
    assert_eq!(s.title, Some(format!("{}...", "x".repeat(60))));
    assert_eq!(s.session_id, "a");

    let untitled = vec![SessionLine::Record(record("assistant"))];
    let s = summarize_session_lines("b.jsonl", &untitled, 5).unwrap();
    assert_eq!(s.title, None);
    assert_eq!(s.message_count, 5);
    let s = summarize_session_lines("agent-b.jsonl", &untitled, 5).unwrap();
    assert_eq!(s.message_count, 1);

    let broken = vec![SessionLine::Record(record("user")), SessionLine::Invalid];
    assert!(summarize_session_lines("c.jsonl", &broken, 2).is_none());
}

fn checker(version: &str) -> UpdateChecker {
    UpdateChecker { cache_path: "/tmp/update_check.json".to_string(), current_version: version.to_string() }
}

#[test]
fn update_versions() {
    let c = checker("0.1.0");
    assert!(c.is_update_available("v0.2.0"));
    assert!(!c.is_update_available("v0.1.0"));
    assert!(!c.is_update_available("0.0.9"));
    assert_eq!(
        c.format_notification("v0.2.0"),
        "\n📢 Update available: v0.1.0 → v0.2.0\n   Run: curl -fsSL https://github.com/HelixoidLLC/pmsynapse/releases/latest | sh\n"
    );
    assert_eq!(c.check_and_notify("v0.2.0"), Some(c.format_notification("v0.2.0")));
    assert_eq!(c.check_and_notify("v0.1.0"), None);
}

#[test]
fn update_versions_compare_numbers() {
    let c = checker("0.9.0");
    assert!(c.is_update_available("v0.10.0"));
    assert_eq!(c.check_and_notify("v0.10.0"), Some(c.format_notification("v0.10.0")));
    assert!(!c.is_update_available("v0.9.0"));
    assert!(!c.is_update_available("0.9"));
    assert!(!c.is_update_available("0.8.12"));
    assert!(c.is_update_available("1.0.0"));
    assert!(c.is_update_available("0.9.0.1"));
    let beta = checker("0.9.0-beta");
    assert!(beta.is_update_available("0.9.1"));
    assert!(!beta.is_update_available("0.9.0-alpha"));
}

#[test]
fn update_check_interval() {
    let now = Timestamp { secs: 1_000_000, nanos: 0 };
    assert!(UpdateChecker::should_check(None, Timestamp { secs: now.secs, nanos: 0 }));
    assert!(!UpdateChecker::should_check(Some(Timestamp { secs: 1_000_000 - 86_400, nanos: 0 }), Timestamp { secs: now.secs, nanos: 0 }));
    assert!(UpdateChecker::should_check(Some(Timestamp { secs: 1_000_000 - 86_400, nanos: 0 }), Timestamp { secs: now.secs, nanos: 1 }));
    assert_eq!(release_status_problem(404), Some(ReleaseProblem::NoReleases));
    assert_eq!(release_status_problem(500), Some(ReleaseProblem::RequestFailed));
    assert_eq!(release_status_problem(200), None);
}

#[test]
fn log_tail_keeps_last_lines() {
    let log = "a\nb\nc\nd\n";
    assert_eq!(tail_lines(log, 2), vec!["c".to_string(), "d".to_string()]);
    assert_eq!(tail_lines(log, 10).len(), 4);
    assert!(tail_lines(log, 0).is_empty());
    assert!(tail_lines("", 3).is_empty());
}

#[test]
fn http_address_cases() {
    assert_eq!(http_address_text(7878), "http://127.0.0.1:7878");
    assert_eq!(http_address_text(0), "disabled");
}

#[test]
fn router_falls_back_in_order() {
    let resp = || CompletionResponse {
        content: "hi".to_string(),
        model: "m".to_string(),
        usage: Usage::default(),
        finish_reason: FinishReason::Stop,
    };
    assert!(matches!(router_step(0, None), RouterAction::Finish(Err(SynapseError::Llm(m))) if m == "No providers configured"));
    assert!(matches!(router_step(2, None), RouterAction::Call(0)));
    assert!(matches!(router_step(2, Some((0, Err(SynapseError::Llm("a".into()))))), RouterAction::Call(1)));
    assert!(
        matches!(router_step(2, Some((1, Err(SynapseError::Llm("b".into()))))), RouterAction::Finish(Err(SynapseError::Llm(m))) if m == "b")
    );
    assert!(matches!(router_step(3, Some((1, Ok(resp())))), RouterAction::Finish(Ok(r)) if r.content == "hi"));
}
