use snps_core::idlc;
use snps_core::workflow::{IdlcConfig, IdlcItem, Stage, Status, Transition};

#[test]
fn idlc_tests_test_default_config() {
    let config = IdlcConfig::default_config();
    assert_eq!(config.team_id, "default");
    assert_eq!(config.team_name, "Default Team");
    assert_eq!(config.stages.len(), 6);
    assert_eq!(config.statuses.len(), 6);
}

#[test]
fn test_default_stages() {
    let config = IdlcConfig::default_config();
    let stage_ids: Vec<_> = config.stages.iter().map(|s| s.id.as_str()).collect();
    assert!(stage_ids.contains(&"triage"));
    assert!(stage_ids.contains(&"backlog"));
    assert!(stage_ids.contains(&"unstarted"));
    assert!(stage_ids.contains(&"started"));
    assert!(stage_ids.contains(&"completed"));
    assert!(stage_ids.contains(&"canceled"));
}

#[test]
fn test_terminal_stages() {
    let config = IdlcConfig::default_config();
    let terminal: Vec<_> = config.stages.iter().filter(|s| s.terminal).collect();
    assert_eq!(terminal.len(), 2);
    let terminal_ids: Vec<_> = terminal.iter().map(|s| s.id.as_str()).collect();
    assert!(terminal_ids.contains(&"completed"));
    assert!(terminal_ids.contains(&"canceled"));
}

#[test]
fn idlc_tests_test_valid_transition() {
    let config = IdlcConfig::default_config();
    assert!(config.is_valid_transition("triage", "backlog"));
    assert!(config.is_valid_transition("triage", "canceled"));
    assert!(config.is_valid_transition("backlog", "todo"));
    assert!(config.is_valid_transition("todo", "in-dev"));
    assert!(config.is_valid_transition("in-dev", "done"));
}

#[test]
fn test_invalid_transition() {
    let config = IdlcConfig::default_config();
    assert!(!config.is_valid_transition("triage", "done"));
    assert!(!config.is_valid_transition("backlog", "done"));
    assert!(!config.is_valid_transition("done", "triage"));
}

#[test]
fn test_available_transitions() {
    let config = IdlcConfig::default_config();
    let from_triage = config.get_available_transitions("triage");
    assert_eq!(from_triage.len(), 2);
    assert!(from_triage.contains(&"backlog".to_string()));
    assert!(from_triage.contains(&"canceled".to_string()));

    let from_in_dev = config.get_available_transitions("in-dev");
    assert_eq!(from_in_dev.len(), 3);
    assert!(from_in_dev.contains(&"done".to_string()));
    assert!(from_in_dev.contains(&"todo".to_string()));
    assert!(from_in_dev.contains(&"canceled".to_string()));
}

#[test]
fn test_available_transitions_unknown_status() {
    let config = IdlcConfig::default_config();
    let transitions = config.get_available_transitions("unknown");
    assert!(transitions.is_empty());
}

#[test]
fn test_idlc_item_creation() {
    let item = IdlcItem::new("Test Item");
    assert_eq!(item.title, "Test Item");
    assert_eq!(item.status, "triage");
    assert!(item.description.is_none());
    assert!(item.metadata.is_empty());
}

#[test]
fn test_idlc_item_transition() {
    let config = IdlcConfig::default_config();
    let mut item = IdlcItem::new("Test Item");
    assert_eq!(item.status, "triage");
    assert!(item.transition(&config, "backlog").is_ok());
    assert_eq!(item.status, "backlog");
    assert!(item.transition(&config, "todo").is_ok());
    assert_eq!(item.status, "todo");
}

#[test]
fn test_idlc_item_invalid_transition() {
    let config = IdlcConfig::default_config();
    let mut item = IdlcItem::new("Test Item");
    let result = item.transition(&config, "done");
    assert!(result.is_err());
    assert_eq!(item.status, "triage");
}

fn stage(id: &str, name: &str, description: Option<&str>, required: bool, terminal: bool) -> Stage {
    Stage {
        id: id.to_string(),
        name: name.to_string(),
        description: description.map(|s| s.to_string()),
        required,
        terminal,
    }
}

fn status(id: &str, stage_id: &str, name: &str, description: Option<&str>, color: Option<&str>) -> Status {
    Status {
        id: id.to_string(),
        stage_id: stage_id.to_string(),
        name: name.to_string(),
        description: description.map(|s| s.to_string()),
        color: color.map(|s| s.to_string()),
    }
}

#[test]
fn test_custom_workflow_creation() {
    let custom_config = IdlcConfig {
        team_id: "custom-team".to_string(),
        team_name: "Custom Team".to_string(),
        stages: vec![
            stage("idea", "Idea", Some("New idea"), true, false),
            stage("done", "Done", Some("Completed"), true, true),
        ],
        statuses: vec![
            status("new", "idea", "New", Some("Newly created"), Some("#3B82F6")),
            status("finished", "done", "Finished", None, Some("#22C55E")),
        ],
        transitions: vec![Transition { from: "new".to_string(), to: vec!["finished".to_string()] }],
    };
    assert_eq!(custom_config.team_id, "custom-team");
    assert_eq!(custom_config.stages.len(), 2);
    assert!(custom_config.is_valid_transition("new", "finished"));
}

#[test]
fn test_stage_properties() {
    let stage = Stage {
        id: "development".to_string(),
        name: "Development".to_string(),
        description: Some("Active development".to_string()),
        required: true,
        terminal: false,
    };
    assert_eq!(stage.id, "development");
    assert_eq!(stage.name, "Development");
    assert!(stage.description.is_some());
    assert!(stage.required);
    assert!(!stage.terminal);
}

#[test]
fn test_status_properties() {
    let status = Status {
        id: "in-progress".to_string(),
        stage_id: "development".to_string(),
        name: "In Progress".to_string(),
        description: Some("Work in progress".to_string()),
        color: Some("#8B5CF6".to_string()),
    };
    assert_eq!(status.id, "in-progress");
    assert_eq!(status.stage_id, "development");
    assert_eq!(status.name, "In Progress");
    assert!(status.color.is_some());
}

#[test]
fn test_transition_properties() {
    let transition = Transition {
        from: "todo".to_string(),
        to: vec!["in-progress".to_string(), "canceled".to_string()],
    };
    assert_eq!(transition.from, "todo");
    assert_eq!(transition.to.len(), 2);
    assert!(transition.to.contains(&"in-progress".to_string()));
}

#[test]
fn mod_test_default_config() {
    let config = IdlcConfig::default_config();
    assert_eq!(config.stages.len(), 6);
    assert_eq!(config.statuses.len(), 6);
}

#[test]
fn mod_test_valid_transition() {
    let config = IdlcConfig::default_config();
    assert!(config.is_valid_transition("triage", "backlog"));
    assert!(!config.is_valid_transition("triage", "done"));
}

#[test]
fn mod_test_item_transition() {
    let config = IdlcConfig::default_config();
    let mut item = IdlcItem::new("Test Item");
    assert_eq!(item.status, "triage");
    assert!(item.transition(&config, "backlog").is_ok());
    assert_eq!(item.status, "backlog");
}

#[test]
fn first_rule_for_a_status_decides() {
    let config = IdlcConfig {
        team_id: "t".to_string(),
        team_name: "T".to_string(),
        stages: vec![stage("s", "S", None, true, false)],
        statuses: vec![status("a", "s", "A", None, None), status("b", "s", "B", None, None)],
        transitions: vec![
            Transition { from: "a".to_string(), to: vec!["b".to_string()] },
            Transition { from: "a".to_string(), to: vec!["a".to_string()] },
        ],
    };
    assert!(config.is_valid_transition("a", "b"));
    assert!(!config.is_valid_transition("a", "a"));
    assert_eq!(config.get_available_transitions("a"), vec!["b".to_string()]);
}

// The full workflow configuration with team information and wildcard rules.

fn full_stage(id: &str, name: &str, terminal: bool) -> idlc::Stage {
    idlc::Stage { id: id.to_string(), name: name.to_string(), description: None, required: true, terminal }
}

fn full_status(id: &str, stage_id: &str, name: &str) -> idlc::Status {
    idlc::Status { id: id.to_string(), stage_id: stage_id.to_string(), name: name.to_string(), description: None, color: None }
}

fn rule(from: &str, to: &[&str], except: &[&str]) -> idlc::Transition {
    idlc::Transition {
        from: from.to_string(),
        to: to.iter().map(|s| s.to_string()).collect(),
        except: except.iter().map(|s| s.to_string()).collect(),
    }
}

fn full_config(stages: Vec<idlc::Stage>, statuses: Vec<idlc::Status>, transitions: Vec<idlc::Transition>) -> idlc::IdlcConfig {
    idlc::IdlcConfig {
        version: "1.0".to_string(),
        team: idlc::TeamInfo { id: "test-team".to_string(), name: "Test Team".to_string(), description: None },
        extends: None,
        stages,
        statuses,
        transitions,
        automation: vec![],
        complexity: None,
        integrations: None,
    }
}

#[test]
fn idlc_test_default_config() {
    let config = idlc::IdlcConfig::default_config();
    assert_eq!(config.stages.len(), 6);
    assert_eq!(config.statuses.len(), 6);
}

#[test]
fn idlc_test_valid_transition() {
    let config = idlc::IdlcConfig::default_config();
    assert!(config.is_valid_transition("triage", "backlog"));
    assert!(!config.is_valid_transition("triage", "done"));
}

#[test]
fn idlc_test_item_transition() {
    let config = idlc::IdlcConfig::default_config();
    let mut item = idlc::IdlcItem::new("Test Item");
    assert_eq!(item.status, "triage");
    assert!(item.transition(&config, "backlog").is_ok());
    assert_eq!(item.status, "backlog");
}

#[test]
fn default_workflow_is_valid() {
    assert!(idlc::IdlcConfig::default_config().validate().is_ok());
}

#[test]
fn test_validation_catches_invalid_stage_reference() {
    let config = full_config(
        vec![full_stage("start", "Start", false)],
        vec![full_status("new", "nonexistent", "New")],
        vec![rule("new", &["done"], &[])],
    );
    let result = config.validate();
    assert!(result.is_err());
    let err_msg = result.unwrap_err().to_string();
    assert!(err_msg.contains("unknown stage"));
}

#[test]
fn test_validation_catches_invalid_transition_target() {
    let config = full_config(
        vec![full_stage("start", "Start", false)],
        vec![full_status("new", "start", "New")],
        vec![rule("new", &["nonexistent"], &[])],
    );
    let result = config.validate();
    assert!(result.is_err());
    let err_msg = result.unwrap_err().to_string();
    assert!(err_msg.contains("unknown status"));
}

#[test]
fn test_wildcard_transitions() {
    let config = full_config(
        vec![full_stage("active", "Active", false), full_stage("done", "Done", true)],
        vec![
            full_status("new", "active", "New"),
            full_status("in-progress", "active", "In Progress"),
            full_status("done", "done", "Done"),
            full_status("canceled", "done", "Canceled"),
        ],
        vec![
            rule("new", &["in-progress"], &[]),
            rule("in-progress", &["done"], &[]),
            rule("*", &["canceled"], &["done", "canceled"]),
        ],
    );
    assert!(config.validate().is_ok());
    assert!(config.is_valid_transition("new", "canceled"));
    assert!(config.is_valid_transition("in-progress", "canceled"));
    assert!(!config.is_valid_transition("done", "canceled"));
    assert!(!config.is_valid_transition("canceled", "canceled"));
    let from_new = config.get_available_transitions("new");
    assert!(from_new.contains(&"in-progress".to_string()));
    assert!(from_new.contains(&"canceled".to_string()));
}

#[test]
fn test_wildcard_except_validation() {
    let config = full_config(
        vec![full_stage("active", "Active", false)],
        vec![full_status("new", "active", "New")],
        vec![rule("*", &["new"], &["nonexistent"])],
    );
    let result = config.validate();
    assert!(result.is_err());
    let err_msg = result.unwrap_err().to_string();
    assert!(err_msg.contains("except clause references unknown status"));
}

#[test]
fn item_keeps_status_on_refused_move() {
    let config = idlc::IdlcConfig::default_config();
    let mut item = idlc::IdlcItem::new("x");
    let err = item.transition(&config, "done").unwrap_err();
    assert_eq!(err.to_string(), "IDLC error: Invalid transition from triage to done");
    assert_eq!(item.status, "triage");
}
