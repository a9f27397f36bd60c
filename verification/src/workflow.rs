//! A team workflow in its plain form: each status has at most one rule, and
//! no wildcard rules.
use std::collections::HashMap;
use vstd::prelude::*;

use crate::foreign::{new_uuid, utc_now, Timestamp};
pub use crate::idlc::{Stage, Status};
use crate::idlc::{default_stage_rows, default_status_rows, stage, stage_row, status, status_row};
use crate::text::{clone_strings, concat2, owned, push_str, strings_contain, vec_contains, views};
use crate::SynapseError;

verus! {

/// A transition rule from one status to each status in `to`.
pub struct Transition {
    pub from: String,
    pub to: Vec<String>,
}

/// A team's workflow configuration.
pub struct IdlcConfig {
    pub team_id: String,
    pub team_name: String,
    pub stages: Vec<Stage>,
    pub statuses: Vec<Status>,
    pub transitions: Vec<Transition>,
}

/// The index of the first rule whose source is `from`, if any.
pub open spec fn first_rule(ts: Seq<Transition>, from: Seq<char>) -> Option<int> {
    if exists|k: int| 0 <= k < ts.len() && #[trigger] ts[k].from@ == from {
        Some(
            choose|k: int|
                0 <= k < ts.len() && #[trigger] ts[k].from@ == from && forall|j: int|
                    0 <= j < k ==> #[trigger] ts[j].from@ != from,
        )
    } else {
        None
    }
}

/// The first rule for `from` lists `to`.
pub open spec fn transition_allowed(c: IdlcConfig, from: Seq<char>, to: Seq<char>) -> bool {
    match first_rule(c.transitions@, from) {
        Some(k) => strings_contain(c.transitions@[k].to@, to),
        None => false,
    }
}

/// The targets of the first rule for `from`, or none.
pub open spec fn available_targets(c: IdlcConfig, from: Seq<char>) -> Seq<Seq<char>> {
    match first_rule(c.transitions@, from) {
        Some(k) => views(c.transitions@[k].to@),
        None => Seq::empty(),
    }
}

/// The position of the first rule whose source is `from`.
fn find_rule(ts: &Vec<Transition>, from: &str) -> (r: Option<usize>)
    ensures
        r matches Some(k) ==> k < ts.len() && first_rule(ts@, from@) == Some(k as int),
        r is None ==> first_rule(ts@, from@) is None,
{
    let from_s = owned(from);
    let mut k: usize = 0;
    while k < ts.len()
        invariant
            k <= ts.len(),
            from_s@ == from@,
            forall|j: int| 0 <= j < k ==> #[trigger] ts@[j].from@ != from@,
        decreases ts.len() - k,
    {
        if ts[k].from == from_s {
            proof {
                let c = choose|c: int|
                    0 <= c < ts@.len() && #[trigger] ts@[c].from@ == from@ && forall|j: int|
                        0 <= j < c ==> #[trigger] ts@[j].from@ != from@;
                assert(ts@[k as int].from@ == from@);
                if c < k {
                } else if c > k {
                    assert(ts@[k as int].from@ != from@);
                }
            }
            return Some(k);
        }
        k = k + 1;
    }
    None
}

impl IdlcConfig {
    /// Whether the first rule for `from` lists `to`.
    pub fn is_valid_transition(&self, from: &str, to: &str) -> (r: bool)
        ensures
            r == transition_allowed(*self, from@, to@),
    {
        match find_rule(&self.transitions, from) {
            Some(k) => vec_contains(&self.transitions[k].to, to),
            None => false,
        }
    }

    /// The targets of the first rule for `from`, in their order; empty when
    /// no rule names `from`.
    pub fn get_available_transitions(&self, from: &str) -> (r: Vec<String>)
        ensures
            views(r@) == available_targets(*self, from@),
    {
        match find_rule(&self.transitions, from) {
            Some(k) => clone_strings(&self.transitions[k].to),
            None => Vec::new(),
        }
    }

    /// The built-in workflow of the default team, with the stages and
    /// statuses of the full workflow and the rules triage → backlog → todo →
    /// in-dev → done, each with a way to canceled.
    pub fn default_config() -> (r: IdlcConfig)
        ensures
            r.team_id@ == "default"@,
            r.team_name@ == "Default Team"@,
            r.stages@.map_values(|s: Stage| stage_row(s)) == default_stage_rows(),
            r.statuses@.map_values(|s: Status| status_row(s)) == default_status_rows(),
            r.transitions@.map_values(|t: Transition| (t.from@, views(t.to@))) == seq![
                ("triage"@, seq!["backlog"@, "canceled"@]),
                ("backlog"@, seq!["todo"@, "canceled"@]),
                ("todo"@, seq!["in-dev"@, "canceled"@]),
                ("in-dev"@, seq!["done"@, "todo"@, "canceled"@]),
            ],
    {
        let mut stages: Vec<Stage> = Vec::new();
        stages.push(stage("triage", "Triage", "Initial intake and categorization", true, false));
        stages.push(stage("backlog", "Backlog", "Prioritized queue", true, false));
        stages.push(stage("unstarted", "Unstarted", "Research and planning", true, false));
        stages.push(stage("started", "Started", "Active development", true, false));
        stages.push(stage("completed", "Completed", "Successfully finished", true, true));
        stages.push(stage("canceled", "Canceled", "Work stopped", false, true));
        let mut statuses: Vec<Status> = Vec::new();
        statuses.push(status("triage", "triage", "Triage", "#6B7280"));
        statuses.push(status("backlog", "backlog", "Backlog", "#9CA3AF"));
        statuses.push(status("todo", "unstarted", "Todo", "#3B82F6"));
        statuses.push(status("in-dev", "started", "In Development", "#8B5CF6"));
        statuses.push(status("done", "completed", "Done", "#22C55E"));
        statuses.push(status("canceled", "canceled", "Canceled", "#EF4444"));
        let mut transitions: Vec<Transition> = Vec::new();
        transitions.push(rule2("triage", "backlog", "canceled"));
        transitions.push(rule2("backlog", "todo", "canceled"));
        transitions.push(rule2("todo", "in-dev", "canceled"));
        let mut last_to: Vec<String> = Vec::new();
        last_to.push(owned("done"));
        last_to.push(owned("todo"));
        last_to.push(owned("canceled"));
        transitions.push(Transition { from: owned("in-dev"), to: last_to });
        let r = IdlcConfig {
            team_id: owned("default"),
            team_name: owned("Default Team"),
            stages,
            statuses,
            transitions,
        };
        assert(r.stages@.map_values(|s: Stage| stage_row(s)) =~= default_stage_rows());
        assert(r.statuses@.map_values(|s: Status| status_row(s)) =~= default_status_rows());
        assert(views(r.transitions@[0].to@) =~= seq!["backlog"@, "canceled"@]);
        assert(views(r.transitions@[1].to@) =~= seq!["todo"@, "canceled"@]);
        assert(views(r.transitions@[2].to@) =~= seq!["in-dev"@, "canceled"@]);
        assert(views(r.transitions@[3].to@) =~= seq!["done"@, "todo"@, "canceled"@]);
        assert(r.transitions@.map_values(|t: Transition| (t.from@, views(t.to@))) =~= seq![
            ("triage"@, seq!["backlog"@, "canceled"@]),
            ("backlog"@, seq!["todo"@, "canceled"@]),
            ("todo"@, seq!["in-dev"@, "canceled"@]),
            ("in-dev"@, seq!["done"@, "todo"@, "canceled"@]),
        ]);
        r
    }
}

fn rule2(from: &str, a: &str, b: &str) -> (r: Transition)
    ensures
        r.from@ == from@,
        views(r.to@) == seq![a@, b@],
{
    let mut to: Vec<String> = Vec::new();
    to.push(owned(a));
    to.push(owned(b));
    let r = Transition { from: owned(from), to };
    assert(views(r.to@) =~= seq![a@, b@]);
    r
}

/// A work item moving through a workflow.
pub struct IdlcItem {
    pub id: uuid::Uuid,
    pub title: String,
    pub description: Option<String>,
    pub status: String,
    pub created_at: Timestamp,
    pub updated_at: Timestamp,
    pub metadata: HashMap<String, serde_json::Value>,
}

impl IdlcItem {
    /// A new item titled `title`, in status `triage`, without description or
    /// metadata, created and updated now.
    pub fn new(title: &str) -> (r: IdlcItem)
        ensures
            r.title@ == title@,
            r.description is None,
            r.status@ == "triage"@,
            r.metadata@ == Map::<String, serde_json::Value>::empty(),
            r.created_at == r.updated_at,
    {
        let now = utc_now();
        IdlcItem {
            id: new_uuid(),
            title: owned(title),
            description: None,
            status: owned("triage"),
            created_at: now.copy(),
            updated_at: now,
            metadata: HashMap::new(),
        }
    }

    /// Moves the item to status `to` if the workflow allows it from the
    /// current status, stamping the update time; otherwise reports the
    /// refused move and leaves the item unchanged.
    pub fn transition(&mut self, config: &IdlcConfig, to: &str) -> (r: Result<(), SynapseError>)
        ensures
            r is Ok <==> transition_allowed(*config, old(self).status@, to@),
            r is Ok ==> final(self).status@ == to@ && final(self).id == old(self).id
                && final(self).title == old(self).title && final(self).description == old(
                self,
            ).description && final(self).created_at == old(self).created_at
                && final(self).metadata == old(self).metadata,
            r matches Err(e) ==> *final(self) == *old(self) && (e matches SynapseError::Idlc(m)
                && m@ == "Invalid transition from "@ + old(self).status@ + " to "@ + to@),
    {
        if !config.is_valid_transition(self.status.as_str(), to) {
            let mut m = concat2("Invalid transition from ", self.status.as_str());
            push_str(&mut m, " to ");
            push_str(&mut m, to);
            return Err(SynapseError::Idlc(m));
        }
        self.status = owned(to);
        self.updated_at = utc_now();
        Ok(())
    }
}

/// A move is allowed exactly when its target is among the available
/// transitions.
pub proof fn lemma_allowed_iff_available(c: IdlcConfig, from: Seq<char>, to: Seq<char>)
    ensures
        transition_allowed(c, from, to) <==> available_targets(c, from).contains(to),
{
    match first_rule(c.transitions@, from) {
        Some(k) => {
            let v = c.transitions@[k].to@;
            if strings_contain(v, to) {
                let i = choose|i: int| 0 <= i < v.len() && #[trigger] v[i]@ == to;
                assert(views(v)[i] == to);
            }
            if views(v).contains(to) {
                let i = choose|i: int| 0 <= i < views(v).len() && views(v)[i] == to;
                assert(v[i]@ == to);
            }
        },
        None => {},
    }
}

} // verus!
