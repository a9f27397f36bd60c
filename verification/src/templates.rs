//! Built-in workflow templates, as YAML with `{{team_id}}` and
//! `{{team_name}}` placeholders.
use vstd::prelude::*;

use crate::text::str_eq;

verus! {

/// The standard software development workflow: triage, backlog, planning,
/// development, then completion or cancellation.
pub const DEFAULT_TEMPLATE: &'static str = "version: \"1.0\"
team:
  id: \"{{team_id}}\"
  name: \"{{team_name}}\"
  description: \"Standard software development workflow\"
stages:
  - id: \"triage\"
    name: \"Triage\"
    description: \"Initial intake and categorization\"
    required: true
    terminal: false
  - id: \"backlog\"
    name: \"Backlog\"
    description: \"Prioritized queue\"
    required: true
    terminal: false
  - id: \"unstarted\"
    name: \"Unstarted\"
    description: \"Research and planning\"
    required: true
    terminal: false
  - id: \"started\"
    name: \"Started\"
    description: \"Active development\"
    required: true
    terminal: false
  - id: \"completed\"
    name: \"Completed\"
    description: \"Successfully finished\"
    required: true
    terminal: true
  - id: \"canceled\"
    name: \"Canceled\"
    description: \"Work stopped\"
    required: false
    terminal: true
statuses:
  - id: \"triage\"
    stage_id: \"triage\"
    name: \"Triage\"
    color: \"#6B7280\"
  - id: \"backlog\"
    stage_id: \"backlog\"
    name: \"Backlog\"
    color: \"#9CA3AF\"
  - id: \"todo\"
    stage_id: \"unstarted\"
    name: \"Todo\"
    color: \"#3B82F6\"
  - id: \"in-dev\"
    stage_id: \"started\"
    name: \"In Development\"
    color: \"#8B5CF6\"
  - id: \"done\"
    stage_id: \"completed\"
    name: \"Done\"
    color: \"#22C55E\"
  - id: \"canceled\"
    stage_id: \"canceled\"
    name: \"Canceled\"
    color: \"#EF4444\"
transitions:
  - from: \"triage\"
    to: [\"backlog\", \"canceled\"]
  - from: \"backlog\"
    to: [\"todo\", \"canceled\"]
  - from: \"todo\"
    to: [\"in-dev\", \"canceled\"]
  - from: \"in-dev\"
    to: [\"done\", \"todo\", \"canceled\"]
";

/// The template named `name`: only `default` exists.
pub fn get_template(name: &str) -> (r: Option<&'static str>)
    ensures
        name@ == "default"@ ==> r == Some(DEFAULT_TEMPLATE),
        name@ != "default"@ ==> r is None,
{
    if str_eq(name, "default") {
        Some(DEFAULT_TEMPLATE)
    } else {
        None
    }
}

/// The names of the templates with a line describing each.
pub fn list_templates() -> (r: Vec<(&'static str, &'static str)>)
    ensures
        r@.len() == 1,
        r@[0].0@ == "default"@,
        r@[0].1@ == "Standard software development workflow"@,
{
    let mut v: Vec<(&'static str, &'static str)> = Vec::new();
    v.push(("default", "Standard software development workflow"));
    v
}

} // verus!
