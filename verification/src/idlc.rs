//! Team workflows: stages, statuses and the transitions allowed between
//! statuses, with `*` wildcard rules and their exceptions.
use std::collections::HashMap;
use vstd::prelude::*;

use crate::foreign::{new_uuid, utc_now, Timestamp};
use crate::text::{
    concat2, clone_strings, opt_view, some_owned, views,
    concat3, insert_sorted_unique, lemma_strings_contain_take, lemma_strings_contain_take_all, owned, push_str, strictly_sorted, strings_contain, vec_contains,
};
use crate::SynapseError;

verus! {

/// A stage of the workflow.
pub struct Stage {
    pub id: String,
    pub name: String,
    pub description: Option<String>,
    pub required: bool,
    pub terminal: bool,
}

/// A status, which belongs to a stage.
pub struct Status {
    pub id: String,
    pub stage_id: String,
    pub name: String,
    pub description: Option<String>,
    pub color: Option<String>,
}

/// A transition rule: from a status (or `*`, any status but those in
/// `except`) to each status in `to`.
pub struct Transition {
    pub from: String,
    pub to: Vec<String>,
    pub except: Vec<String>,
}

/// The team a workflow belongs to.
pub struct TeamInfo {
    pub id: String,
    pub name: String,
    pub description: Option<String>,
}

/// An automation rule (described, never run by the library).
pub struct AutomationRule {
    pub trigger: String,
    pub from: Option<Vec<String>>,
    pub to: Option<String>,
    pub conditions: Vec<serde_json::Value>,
    pub actions: Vec<serde_json::Value>,
}

/// Complexity levels of work items.
pub struct ComplexityConfig {
    pub levels: Vec<ComplexityLevel>,
}

/// One complexity level.
pub struct ComplexityLevel {
    pub id: String,
    pub name: String,
    pub points: Option<String>,
    pub skip_stages: Vec<String>,
    pub required_stages: Vec<String>,
}

/// Settings of outside trackers.
pub struct IntegrationsConfig {
    pub linear: Option<LinearIntegration>,
    pub github: Option<GithubIntegration>,
}

/// Linear tracker settings.
pub struct LinearIntegration {
    pub enabled: bool,
    pub team_id: Option<String>,
    pub status_mapping: HashMap<String, String>,
}

/// GitHub settings.
pub struct GithubIntegration {
    pub enabled: bool,
    pub repo: Option<String>,
    pub label_prefix: Option<String>,
}

/// A team's workflow configuration.
pub struct IdlcConfig {
    pub version: String,
    pub team: TeamInfo,
    pub extends: Option<String>,
    pub stages: Vec<Stage>,
    pub statuses: Vec<Status>,
    pub transitions: Vec<Transition>,
    pub automation: Vec<AutomationRule>,
    pub complexity: Option<ComplexityConfig>,
    pub integrations: Option<IntegrationsConfig>,
}

/// Some stage has the id `id`.
pub open spec fn has_stage(stages: Seq<Stage>, id: Seq<char>) -> bool {
    exists|i: int| 0 <= i < stages.len() && #[trigger] stages[i].id@ == id
}

/// Some status has the id `id`.
pub open spec fn has_status(statuses: Seq<Status>, id: Seq<char>) -> bool {
    exists|i: int| 0 <= i < statuses.len() && #[trigger] statuses[i].id@ == id
}

/// The wildcard source of a transition rule.
pub open spec fn wildcard() -> Seq<char> {
    "*"@
}

/// A defect of a configuration, located by indices into its statuses and
/// transitions.
pub ghost enum ConfigProblem {
    /// `statuses[i]` names a stage that does not exist.
    UnknownStage(int),
    /// `transitions[k]` starts from a status that does not exist.
    UnknownFrom(int),
    /// `transitions[k].to[j]` is not a status.
    UnknownTo(int, int),
    /// `transitions[k].except[j]` is not a status.
    UnknownExcept(int, int),
    /// `statuses[i]` repeats the id of an earlier status.
    DuplicateStatus(int),
}

/// `p` is a defect of `c`.
pub open spec fn problem_holds(c: IdlcConfig, p: ConfigProblem) -> bool {
    match p {
        ConfigProblem::UnknownStage(i) => 0 <= i < c.statuses.len() && !has_stage(
            c.stages@,
            c.statuses@[i].stage_id@,
        ),
        ConfigProblem::UnknownFrom(k) => 0 <= k < c.transitions.len() && c.transitions@[k].from@
            != wildcard() && !has_status(c.statuses@, c.transitions@[k].from@),
        ConfigProblem::UnknownTo(k, j) => 0 <= k < c.transitions.len() && 0 <= j
            < c.transitions@[k].to.len() && !has_status(c.statuses@, c.transitions@[k].to@[j]@),
        ConfigProblem::UnknownExcept(k, j) => 0 <= k < c.transitions.len() && 0 <= j
            < c.transitions@[k].except.len() && !has_status(
            c.statuses@,
            c.transitions@[k].except@[j]@,
        ),
        ConfigProblem::DuplicateStatus(i) => 0 <= i < c.statuses.len() && exists|j: int|
            0 <= j < i && #[trigger] c.statuses@[j].id@ == c.statuses@[i].id@,
    }
}

/// Every status names a stage, every transition starts from a status or `*`,
/// names only statuses as targets and exceptions, and status ids are unique.
pub open spec fn config_valid(c: IdlcConfig) -> bool {
    forall|p: ConfigProblem| !problem_holds(c, p)
}

/// A configuration is valid exactly when every status names an existing
/// stage, every transition starts from an existing status or `*`, every
/// target and exception of a transition is an existing status, and no two
/// statuses share an id.
pub proof fn lemma_valid_config_meaning(c: IdlcConfig)
    ensures
        config_valid(c) <==> {
            &&& forall|i: int| 0 <= i < c.statuses.len() ==> has_stage(c.stages@, #[trigger] c.statuses@[i].stage_id@)
            &&& forall|k: int|
                0 <= k < c.transitions.len() ==> (#[trigger] c.transitions@[k]).from@ == "*"@ || has_status(
                    c.statuses@,
                    c.transitions@[k].from@,
                )
            &&& forall|k: int, j: int|
                0 <= k < c.transitions.len() && 0 <= j < c.transitions@[k].to.len() ==> has_status(
                    c.statuses@,
                    #[trigger] c.transitions@[k].to@[j]@,
                )
            &&& forall|k: int, j: int|
                0 <= k < c.transitions.len() && 0 <= j < c.transitions@[k].except.len() ==> has_status(
                    c.statuses@,
                    #[trigger] c.transitions@[k].except@[j]@,
                )
            &&& forall|i: int, j: int|
                0 <= i < j < c.statuses.len() ==> (#[trigger] c.statuses@[i]).id@ != (#[trigger] c.statuses@[j]).id@
        },
{
    if config_valid(c) {
        assert forall|i: int| 0 <= i < c.statuses.len() implies has_stage(c.stages@, #[trigger] c.statuses@[i].stage_id@) by {
            assert(!problem_holds(c, ConfigProblem::UnknownStage(i)));
        }
        assert forall|k: int|
            0 <= k < c.transitions.len() implies (#[trigger] c.transitions@[k]).from@ == "*"@ || has_status(
                c.statuses@,
                c.transitions@[k].from@,
            ) by {
            assert(!problem_holds(c, ConfigProblem::UnknownFrom(k)));
        }
        assert forall|k: int, j: int|
            0 <= k < c.transitions.len() && 0 <= j < c.transitions@[k].to.len() implies has_status(
                c.statuses@,
                #[trigger] c.transitions@[k].to@[j]@,
            ) by {
            assert(!problem_holds(c, ConfigProblem::UnknownTo(k, j)));
        }
        assert forall|k: int, j: int|
            0 <= k < c.transitions.len() && 0 <= j < c.transitions@[k].except.len() implies has_status(
                c.statuses@,
                #[trigger] c.transitions@[k].except@[j]@,
            ) by {
            assert(!problem_holds(c, ConfigProblem::UnknownExcept(k, j)));
        }
        assert forall|i: int, j: int|
            0 <= i < j < c.statuses.len() implies (#[trigger] c.statuses@[i]).id@ != (#[trigger] c.statuses@[j]).id@ by {
            assert(!problem_holds(c, ConfigProblem::DuplicateStatus(j)));
        }
    }
    if !config_valid(c) {
        let p = choose|p: ConfigProblem| problem_holds(c, p);
        match p {
            ConfigProblem::UnknownStage(i) => {},
            ConfigProblem::UnknownFrom(k) => {},
            ConfigProblem::UnknownTo(k, j) => {},
            ConfigProblem::UnknownExcept(k, j) => {},
            ConfigProblem::DuplicateStatus(i) => {
                let j = choose|j: int| 0 <= j < i && #[trigger] c.statuses@[j].id@ == c.statuses@[i].id@;
                assert(c.statuses@[j].id@ == c.statuses@[i].id@);
            },
        }
    }
}

/// The order in which the checks are made: statuses' stages first, then each
/// transition (its source, its targets, its exceptions), then duplicates.
pub open spec fn problem_key(p: ConfigProblem) -> (int, int, int, int) {
    match p {
        ConfigProblem::UnknownStage(i) => (0, i, 0, 0),
        ConfigProblem::UnknownFrom(k) => (1, k, 0, 0),
        ConfigProblem::UnknownTo(k, j) => (1, k, 1, j),
        ConfigProblem::UnknownExcept(k, j) => (1, k, 2, j),
        ConfigProblem::DuplicateStatus(i) => (2, i, 0, 0),
    }
}

/// Lexicographic order on check positions.
pub open spec fn key_lt(a: (int, int, int, int), b: (int, int, int, int)) -> bool {
    a.0 < b.0 || (a.0 == b.0 && (a.1 < b.1 || (a.1 == b.1 && (a.2 < b.2 || (a.2 == b.2 && a.3
        < b.3)))))
}

/// `p` is the first defect of `c` in check order.
pub open spec fn first_problem(c: IdlcConfig, p: ConfigProblem) -> bool {
    problem_holds(c, p) && forall|q: ConfigProblem|
        problem_holds(c, q) ==> !key_lt(problem_key(q), problem_key(p))
}

/// The message reporting defect `p` of `c`.
pub open spec fn problem_message(c: IdlcConfig, p: ConfigProblem) -> Seq<char> {
    match p {
        ConfigProblem::UnknownStage(i) => "Status '"@ + c.statuses@[i].id@
            + "' references unknown stage '"@ + c.statuses@[i].stage_id@ + "'"@,
        ConfigProblem::UnknownFrom(k) => "Transition from unknown status '"@
            + c.transitions@[k].from@ + "'"@,
        ConfigProblem::UnknownTo(k, j) => "Transition to unknown status '"@
            + c.transitions@[k].to@[j]@ + "'"@,
        ConfigProblem::UnknownExcept(k, j) => "Transition except clause references unknown status '"@
            + c.transitions@[k].except@[j]@ + "'"@,
        ConfigProblem::DuplicateStatus(i) => "Duplicate status ID '"@ + c.statuses@[i].id@ + "'"@,
    }
}

/// Whether some stage has the id `id`.
fn stage_exists(stages: &Vec<Stage>, id: &String) -> (r: bool)
    ensures
        r == has_stage(stages@, id@),
{
    let mut i: usize = 0;
    while i < stages.len()
        invariant
            i <= stages.len(),
            forall|j: int| 0 <= j < i ==> #[trigger] stages@[j].id@ != id@,
        decreases stages.len() - i,
    {
        if stages[i].id == *id {
            return true;
        }
        i = i + 1;
    }
    false
}

/// Whether some status among the first `n` has the id `id`.
fn status_exists_before(statuses: &Vec<Status>, n: usize, id: &String) -> (r: bool)
    requires
        n <= statuses.len(),
    ensures
        r == exists|j: int| 0 <= j < n && #[trigger] statuses@[j].id@ == id@,
{
    let mut i: usize = 0;
    while i < n
        invariant
            n <= statuses.len(),
            i <= n,
            forall|j: int| 0 <= j < i ==> #[trigger] statuses@[j].id@ != id@,
        decreases n - i,
    {
        if statuses[i].id == *id {
            return true;
        }
        i = i + 1;
    }
    false
}

/// Whether some status has the id `id`.
fn status_exists(statuses: &Vec<Status>, id: &String) -> (r: bool)
    ensures
        r == has_status(statuses@, id@),
{
    status_exists_before(statuses, statuses.len(), id)
}

/// `"{a}{b}{c}"` as a new string.
fn join3(a: &str, b: &String, c: &str) -> (r: String)
    ensures
        r@ == a@ + b@ + c@,
{
    concat3(a, b.as_str(), c)
}

/// `"{a}{b}{c}{d}{e}"` as a new string.
fn join5(a: &str, b: &String, c: &str, d: &String, e: &str) -> (r: String)
    ensures
        r@ == a@ + b@ + c@ + d@ + e@,
{
    let mut r = concat3(a, b.as_str(), c);
    push_str(&mut r, d.as_str());
    push_str(&mut r, e);
    r
}

impl IdlcConfig {
    /// Checks the configuration's integrity. It fails with the message of the
    /// first defect in check order, and succeeds exactly on valid
    /// configurations.
    pub fn validate(&self) -> (r: Result<(), SynapseError>)
        ensures
            r is Ok <==> config_valid(*self),
            r matches Err(e) ==> exists|p: ConfigProblem|
                first_problem(*self, p) && (e matches SynapseError::Idlc(m) && m@ == problem_message(
                    *self,
                    p,
                )),
    {
        let mut i: usize = 0;
        while i < self.statuses.len()
            invariant
                i <= self.statuses.len(),
                forall|j: int|
                    0 <= j < i ==> has_stage(self.stages@, #[trigger] self.statuses@[j].stage_id@),
            decreases self.statuses.len() - i,
        {
            let st = &self.statuses[i];
            if !stage_exists(&self.stages, &st.stage_id) {
                let ghost p = ConfigProblem::UnknownStage(i as int);
                proof {
                    assert forall|q: ConfigProblem| problem_holds(*self, q) implies !key_lt(
                        problem_key(q),
                        problem_key(p),
                    ) by {
                        match q {
                            ConfigProblem::UnknownStage(j) => {
                                if j < i {
                                    assert(has_stage(self.stages@, self.statuses@[j].stage_id@));
                                }
                            },
                            _ => {},
                        }
                    }
                }
                let m = join5(
                    "Status '",
                    &st.id,
                    "' references unknown stage '",
                    &st.stage_id,
                    "'",
                );
                assert(m@ == problem_message(*self, p));
                assert(first_problem(*self, p));
                return Err(SynapseError::Idlc(m));
            }
            i = i + 1;
        }
        let star = owned("*");
        let mut k: usize = 0;
        while k < self.transitions.len()
            invariant
                k <= self.transitions.len(),
                star@ == wildcard(),
                forall|j: int|
                    0 <= j < self.statuses.len() ==> has_stage(
                        self.stages@,
                        #[trigger] self.statuses@[j].stage_id@,
                    ),
                forall|q: ConfigProblem|
                    #![trigger problem_holds(*self, q)]
                    problem_holds(*self, q) && problem_key(q).0 == 1 ==> problem_key(q).1 >= k,
            decreases self.transitions.len() - k,
        {
            let t = &self.transitions[k];
            if t.from != star && !status_exists(&self.statuses, &t.from) {
                let ghost p = ConfigProblem::UnknownFrom(k as int);
                proof {
                    assert forall|q: ConfigProblem| problem_holds(*self, q) implies !key_lt(
                        problem_key(q),
                        problem_key(p),
                    ) by {
                        match q {
                            ConfigProblem::UnknownStage(j) => {
                                assert(has_stage(self.stages@, self.statuses@[j].stage_id@));
                            },
                            _ => {},
                        }
                    }
                }
                let m = join3("Transition from unknown status '", &t.from, "'");
                assert(m@ == problem_message(*self, p));
                assert(first_problem(*self, p));
                return Err(SynapseError::Idlc(m));
            }
            let mut j: usize = 0;
            while j < t.to.len()
                invariant
                    k < self.transitions.len(),
                    t == self.transitions@[k as int],
                    j <= t.to.len(),
                    !problem_holds(*self, ConfigProblem::UnknownFrom(k as int)),
                    forall|jj: int|
                        0 <= jj < self.statuses.len() ==> has_stage(
                            self.stages@,
                            #[trigger] self.statuses@[jj].stage_id@,
                        ),
                    forall|q: ConfigProblem|
                        #![trigger problem_holds(*self, q)]
                        problem_holds(*self, q) && problem_key(q).0 == 1 ==> problem_key(q).1 >= k,
                    forall|jj: int| 0 <= jj < j ==> has_status(self.statuses@, #[trigger] t.to@[jj]@),
                decreases t.to.len() - j,
            {
                if !status_exists(&self.statuses, &t.to[j]) {
                    let ghost p = ConfigProblem::UnknownTo(k as int, j as int);
                    proof {
                        assert forall|q: ConfigProblem| problem_holds(*self, q) implies !key_lt(
                            problem_key(q),
                            problem_key(p),
                        ) by {
                            match q {
                                ConfigProblem::UnknownStage(jj) => {
                                    assert(has_stage(self.stages@, self.statuses@[jj].stage_id@));
                                },
                                ConfigProblem::UnknownTo(kk, jj) => {
                                    if kk == k && jj < j {
                                        assert(has_status(self.statuses@, t.to@[jj]@));
                                    }
                                },
                                _ => {},
                            }
                        }
                    }
                    let m = join3("Transition to unknown status '", &t.to[j], "'");
                    assert(m@ == problem_message(*self, p));
                    assert(first_problem(*self, p));
                    return Err(SynapseError::Idlc(m));
                }
                j = j + 1;
            }
            let mut j: usize = 0;
            while j < t.except.len()
                invariant
                    k < self.transitions.len(),
                    t == self.transitions@[k as int],
                    j <= t.except.len(),
                    !problem_holds(*self, ConfigProblem::UnknownFrom(k as int)),
                    forall|jj: int| 0 <= jj < t.to.len() ==> has_status(self.statuses@, #[trigger] t.to@[jj]@),
                    forall|jj: int|
                        0 <= jj < self.statuses.len() ==> has_stage(
                            self.stages@,
                            #[trigger] self.statuses@[jj].stage_id@,
                        ),
                    forall|q: ConfigProblem|
                        #![trigger problem_holds(*self, q)]
                        problem_holds(*self, q) && problem_key(q).0 == 1 ==> problem_key(q).1 >= k,
                    forall|jj: int|
                        0 <= jj < j ==> has_status(self.statuses@, #[trigger] t.except@[jj]@),
                decreases t.except.len() - j,
            {
                if !status_exists(&self.statuses, &t.except[j]) {
                    let ghost p = ConfigProblem::UnknownExcept(k as int, j as int);
                    proof {
                        assert forall|q: ConfigProblem| problem_holds(*self, q) implies !key_lt(
                            problem_key(q),
                            problem_key(p),
                        ) by {
                            match q {
                                ConfigProblem::UnknownStage(jj) => {
                                    assert(has_stage(self.stages@, self.statuses@[jj].stage_id@));
                                },
                                ConfigProblem::UnknownTo(kk, jj) => {
                                    if kk == k {
                                        assert(has_status(self.statuses@, t.to@[jj]@));
                                    }
                                },
                                ConfigProblem::UnknownExcept(kk, jj) => {
                                    if kk == k && jj < j {
                                        assert(has_status(self.statuses@, t.except@[jj]@));
                                    }
                                },
                                _ => {},
                            }
                        }
                    }
                    let m = join3(
                        "Transition except clause references unknown status '",
                        &t.except[j],
                        "'",
                    );
                    assert(m@ == problem_message(*self, p));
                    assert(first_problem(*self, p));
                    return Err(SynapseError::Idlc(m));
                }
                j = j + 1;
            }
            proof {
                assert forall|q: ConfigProblem|
                    #![trigger problem_holds(*self, q)]
                    problem_holds(*self, q) && problem_key(q).0 == 1 implies problem_key(q).1 >= k + 1 by {
                    match q {
                        ConfigProblem::UnknownTo(kk, jj) => {
                            if kk == k {
                                assert(has_status(self.statuses@, t.to@[jj]@));
                            }
                        },
                        ConfigProblem::UnknownExcept(kk, jj) => {
                            if kk == k {
                                assert(has_status(self.statuses@, t.except@[jj]@));
                            }
                        },
                        _ => {},
                    }
                }
            }
            k = k + 1;
        }
        let mut i: usize = 0;
        while i < self.statuses.len()
            invariant
                i <= self.statuses.len(),
                forall|j: int|
                    0 <= j < self.statuses.len() ==> has_stage(
                        self.stages@,
                        #[trigger] self.statuses@[j].stage_id@,
                    ),
                forall|q: ConfigProblem|
                    #![trigger problem_holds(*self, q)]
                    problem_holds(*self, q) ==> problem_key(q).0 == 2,
                forall|q: ConfigProblem|
                    #![trigger problem_holds(*self, q)]
                    problem_holds(*self, q) ==> problem_key(q).1 >= i,
            decreases self.statuses.len() - i,
        {
            if status_exists_before(&self.statuses, i, &self.statuses[i].id) {
                let ghost p = ConfigProblem::DuplicateStatus(i as int);
                let m = join3("Duplicate status ID '", &self.statuses[i].id, "'");
                assert(problem_holds(*self, p));
                assert(m@ == problem_message(*self, p));
                assert(first_problem(*self, p));
                return Err(SynapseError::Idlc(m));
            }
            proof {
                assert forall|q: ConfigProblem|
                    #![trigger problem_holds(*self, q)]
                    problem_holds(*self, q) implies problem_key(q).1 >= i + 1 by {
                    match q {
                        ConfigProblem::DuplicateStatus(ii) => {
                            assert(ii != i);
                        },
                        _ => {},
                    }
                }
            }
            i = i + 1;
        }
        assert forall|q: ConfigProblem| !problem_holds(*self, q) by {
            if problem_holds(*self, q) {
                assert(problem_key(q).1 >= self.statuses.len());
            }
        }
        Ok(())
    }
}


/// A transition rule `t` lets items leave status `from`: it names `from`
/// itself, or it is a wildcard rule that does not except `from`.
pub open spec fn rule_applies(t: Transition, from: Seq<char>) -> bool {
    t.from@ == from || (t.from@ == wildcard() && !strings_contain(t.except@, from))
}

/// Some rule names `from` explicitly and lists `to` as a target.
pub open spec fn explicitly_allowed(ts: Seq<Transition>, from: Seq<char>, to: Seq<char>) -> bool {
    exists|k: int| 0 <= k < ts.len() && #[trigger] ts[k].from@ == from && strings_contain(ts[k].to@, to)
}

/// Some wildcard rule lists `to` as a target and does not except `from`.
pub open spec fn wildcard_allowed(ts: Seq<Transition>, from: Seq<char>, to: Seq<char>) -> bool {
    exists|k: int|
        0 <= k < ts.len() && #[trigger] ts[k].from@ == wildcard() && strings_contain(ts[k].to@, to)
            && !strings_contain(ts[k].except@, from)
}

/// The workflow `c` allows moving from status `from` to status `to`.
pub open spec fn transition_allowed(c: IdlcConfig, from: Seq<char>, to: Seq<char>) -> bool {
    explicitly_allowed(c.transitions@, from, to) || wildcard_allowed(c.transitions@, from, to)
}

/// `x` is a target of some rule that applies to `from`.
pub open spec fn is_available_target(c: IdlcConfig, from: Seq<char>, x: Seq<char>) -> bool {
    exists|k: int|
        0 <= k < c.transitions.len() && #[trigger] rule_applies(c.transitions@[k], from)
            && strings_contain(c.transitions@[k].to@, x)
}

impl IdlcConfig {
    /// Whether the workflow allows moving from `from` to `to`: an explicit
    /// rule for `from` lists `to`, or a wildcard rule lists `to` and does not
    /// except `from`.
    pub fn is_valid_transition(&self, from: &str, to: &str) -> (r: bool)
        ensures
            r == transition_allowed(*self, from@, to@),
    {
        let from_s = owned(from);
        let mut k: usize = 0;
        while k < self.transitions.len()
            invariant
                k <= self.transitions.len(),
                from_s@ == from@,
                forall|kk: int|
                    0 <= kk < k ==> !(#[trigger] self.transitions@[kk].from@ == from@
                        && strings_contain(self.transitions@[kk].to@, to@)),
            decreases self.transitions.len() - k,
        {
            let t = &self.transitions[k];
            if t.from == from_s && vec_contains(&t.to, to) {
                return true;
            }
            k = k + 1;
        }
        let star = owned("*");
        let mut k: usize = 0;
        while k < self.transitions.len()
            invariant
                k <= self.transitions.len(),
                star@ == wildcard(),
                !explicitly_allowed(self.transitions@, from@, to@),
                forall|kk: int|
                    0 <= kk < k ==> !(#[trigger] self.transitions@[kk].from@ == wildcard()
                        && strings_contain(self.transitions@[kk].to@, to@) && !strings_contain(
                        self.transitions@[kk].except@,
                        from@,
                    )),
            decreases self.transitions.len() - k,
        {
            let t = &self.transitions[k];
            if t.from == star && vec_contains(&t.to, to) {
                if !vec_contains(&t.except, from) {
                    return true;
                }
            }
            k = k + 1;
        }
        false
    }

    /// The statuses reachable in one step from `from`, through rules for
    /// `from` and wildcard rules that do not except it: sorted, without
    /// repeats.
    pub fn get_available_transitions(&self, from: &str) -> (r: Vec<String>)
        ensures
            strictly_sorted(r@),
            forall|x: Seq<char>| strings_contain(r@, x) <==> is_available_target(*self, from@, x),
    {
        let from_s = owned(from);
        let star = owned("*");
        let mut available: Vec<String> = Vec::new();
        let mut k: usize = 0;
        while k < self.transitions.len()
            invariant
                k <= self.transitions.len(),
                from_s@ == from@,
                star@ == wildcard(),
                strictly_sorted(available@),
                forall|x: Seq<char>|
                    strings_contain(available@, x) <==> exists|kk: int|
                        0 <= kk < k && #[trigger] rule_applies(self.transitions@[kk], from@)
                            && strings_contain(self.transitions@[kk].to@, x),
            decreases self.transitions.len() - k,
        {
            let t = &self.transitions[k];
            let applies = t.from == from_s || (t.from == star && !vec_contains(&t.except, from));
            assert(applies == rule_applies(*t, from@));
            if applies {
                let ghost before = available@;
                let mut j: usize = 0;
                while j < t.to.len()
                    invariant
                        k < self.transitions.len(),
                        t == self.transitions@[k as int],
                        rule_applies(*t, from@),
                        j <= t.to.len(),
                        strictly_sorted(available@),
                        forall|x: Seq<char>|
                            strings_contain(before, x) <==> exists|kk: int|
                                0 <= kk < k && #[trigger] rule_applies(self.transitions@[kk], from@)
                                    && strings_contain(self.transitions@[kk].to@, x),
                        forall|x: Seq<char>|
                            #[trigger] strings_contain(available@, x) <==> (strings_contain(before, x)
                                || strings_contain(t.to@.take(j as int), x)),
                    decreases t.to.len() - j,
                {
                    let target = t.to[j].clone();
                    let ghost prev = available@;
                    insert_sorted_unique(&mut available, target);
                    proof {
                        assert forall|x: Seq<char>|
                            #[trigger] strings_contain(available@, x) <==> (strings_contain(before, x)
                                || strings_contain(t.to@.take(j + 1), x)) by {
                            lemma_strings_contain_take(t.to@, j as int, x);
                        }
                    }
                    j = j + 1;
                }
                proof {
                    assert forall|x: Seq<char>|
                        strings_contain(available@, x) <==> exists|kk: int|
                            0 <= kk < k + 1 && #[trigger] rule_applies(self.transitions@[kk], from@)
                                && strings_contain(self.transitions@[kk].to@, x) by {
                        lemma_strings_contain_take_all(t.to@, x);
                        if strings_contain(t.to@, x) {
                            assert(rule_applies(self.transitions@[k as int], from@) && strings_contain(self.transitions@[k as int].to@, x));
                        }
                        if exists|kk: int|
                            0 <= kk < k + 1 && #[trigger] rule_applies(self.transitions@[kk], from@)
                                && strings_contain(self.transitions@[kk].to@, x) {
                            let kk = choose|kk: int|
                                0 <= kk < k + 1 && #[trigger] rule_applies(self.transitions@[kk], from@)
                                    && strings_contain(self.transitions@[kk].to@, x);
                            if kk < k {
                                assert(strings_contain(before, x));
                            }
                        }
                    }
                }
            } else {
                proof {
                    assert forall|x: Seq<char>|
                        strings_contain(available@, x) <==> exists|kk: int|
                            0 <= kk < k + 1 && #[trigger] rule_applies(self.transitions@[kk], from@)
                                && strings_contain(self.transitions@[kk].to@, x) by {
                        if exists|kk: int|
                            0 <= kk < k + 1 && #[trigger] rule_applies(self.transitions@[kk], from@)
                                && strings_contain(self.transitions@[kk].to@, x) {
                            let kk = choose|kk: int|
                                0 <= kk < k + 1 && #[trigger] rule_applies(self.transitions@[kk], from@)
                                    && strings_contain(self.transitions@[kk].to@, x);
                            assert(kk != k);
                        }
                    }
                }
            }
            k = k + 1;
        }
        available
    }
}

/// A move to a status is allowed exactly when that status is among the
/// available transitions.
pub proof fn lemma_allowed_iff_available(c: IdlcConfig, from: Seq<char>, to: Seq<char>)
    ensures
        transition_allowed(c, from, to) <==> is_available_target(c, from, to),
{
    if explicitly_allowed(c.transitions@, from, to) {
        let k = choose|k: int|
            0 <= k < c.transitions@.len() && #[trigger] c.transitions@[k].from@ == from
                && strings_contain(c.transitions@[k].to@, to);
        assert(rule_applies(c.transitions@[k], from));
    }
    if wildcard_allowed(c.transitions@, from, to) {
        let k = choose|k: int|
            0 <= k < c.transitions@.len() && #[trigger] c.transitions@[k].from@ == wildcard()
                && strings_contain(c.transitions@[k].to@, to) && !strings_contain(
                c.transitions@[k].except@,
                from,
            );
        assert(rule_applies(c.transitions@[k], from));
    }
    if is_available_target(c, from, to) {
        let k = choose|k: int|
            0 <= k < c.transitions@.len() && #[trigger] rule_applies(c.transitions@[k], from)
                && strings_contain(c.transitions@[k].to@, to);
        if c.transitions@[k].from@ == from {
            assert(explicitly_allowed(c.transitions@, from, to));
        } else {
            assert(wildcard_allowed(c.transitions@, from, to));
        }
    }
}

/// The fields of a stage as plain values.
pub open spec fn stage_row(s: Stage) -> (Seq<char>, Seq<char>, Option<Seq<char>>, bool, bool) {
    (s.id@, s.name@, opt_view(s.description), s.required, s.terminal)
}

/// The fields of a status as plain values.
pub open spec fn status_row(s: Status) -> (Seq<char>, Seq<char>, Seq<char>, Option<Seq<char>>, Option<Seq<char>>) {
    (s.id@, s.stage_id@, s.name@, opt_view(s.description), opt_view(s.color))
}

/// The fields of a transition rule as plain values.
pub open spec fn transition_row(t: Transition) -> (Seq<char>, Seq<Seq<char>>, Seq<Seq<char>>) {
    (t.from@, views(t.to@), views(t.except@))
}

/// The stages of the built-in workflow.
pub open spec fn default_stage_rows() -> Seq<(Seq<char>, Seq<char>, Option<Seq<char>>, bool, bool)> {
    seq![
        ("triage"@, "Triage"@, Some("Initial intake and categorization"@), true, false),
        ("backlog"@, "Backlog"@, Some("Prioritized queue"@), true, false),
        ("unstarted"@, "Unstarted"@, Some("Research and planning"@), true, false),
        ("started"@, "Started"@, Some("Active development"@), true, false),
        ("completed"@, "Completed"@, Some("Successfully finished"@), true, true),
        ("canceled"@, "Canceled"@, Some("Work stopped"@), false, true),
    ]
}

/// The statuses of the built-in workflow.
pub open spec fn default_status_rows() -> Seq<(Seq<char>, Seq<char>, Seq<char>, Option<Seq<char>>, Option<Seq<char>>)> {
    seq![
        ("triage"@, "triage"@, "Triage"@, None, Some("#6B7280"@)),
        ("backlog"@, "backlog"@, "Backlog"@, None, Some("#9CA3AF"@)),
        ("todo"@, "unstarted"@, "Todo"@, None, Some("#3B82F6"@)),
        ("in-dev"@, "started"@, "In Development"@, None, Some("#8B5CF6"@)),
        ("done"@, "completed"@, "Done"@, None, Some("#22C55E"@)),
        ("canceled"@, "canceled"@, "Canceled"@, None, Some("#EF4444"@)),
    ]
}

/// The transition rules of the built-in workflow.
pub open spec fn default_transition_rows() -> Seq<(Seq<char>, Seq<Seq<char>>, Seq<Seq<char>>)> {
    seq![
        ("triage"@, seq!["backlog"@, "canceled"@], seq![]),
        ("backlog"@, seq!["todo"@, "canceled"@], seq![]),
        ("todo"@, seq!["in-dev"@, "canceled"@], seq![]),
        ("in-dev"@, seq!["done"@, "todo"@, "canceled"@], seq![]),
    ]
}

/// `c` is the built-in workflow of the default team.
pub open spec fn is_default_config(c: IdlcConfig) -> bool {
    &&& c.version@ == "1.0"@
    &&& c.team.id@ == "default"@
    &&& c.team.name@ == "Default Team"@
    &&& c.team.description is None
    &&& c.extends is None
    &&& c.stages@.map_values(|s: Stage| stage_row(s)) == default_stage_rows()
    &&& c.statuses@.map_values(|s: Status| status_row(s)) == default_status_rows()
    &&& c.transitions@.map_values(|t: Transition| transition_row(t)) == default_transition_rows()
    &&& c.automation.len() == 0
    &&& c.complexity is None
    &&& c.integrations is None
}

pub(crate) fn stage(id: &str, name: &str, description: &str, required: bool, terminal: bool) -> (r: Stage)
    ensures
        stage_row(r) == (id@, name@, Some(description@), required, terminal),
{
    Stage {
        id: owned(id),
        name: owned(name),
        description: some_owned(description),
        required,
        terminal,
    }
}

pub(crate) fn status(id: &str, stage_id: &str, name: &str, color: &str) -> (r: Status)
    ensures
        status_row(r) == (id@, stage_id@, name@, None::<Seq<char>>, Some(color@)),
{
    Status {
        id: owned(id),
        stage_id: owned(stage_id),
        name: owned(name),
        description: None,
        color: some_owned(color),
    }
}

fn rule(from: &str, targets: &[&str]) -> (r: Transition)
    ensures
        r.from@ == from@,
        r.to@.len() == targets@.len(),
        forall|k: int| 0 <= k < targets@.len() ==> #[trigger] r.to@[k]@ == targets@[k]@,
        r.except@.len() == 0,
{
    let mut to: Vec<String> = Vec::new();
    let mut i: usize = 0;
    while i < targets.len()
        invariant
            i <= targets.len(),
            to@.len() == i,
            forall|k: int| 0 <= k < i ==> #[trigger] to@[k]@ == targets@[k]@,
        decreases targets.len() - i,
    {
        to.push(owned(targets[i]));
        i = i + 1;
    }
    Transition { from: owned(from), to, except: Vec::new() }
}

impl IdlcConfig {
    /// The built-in workflow of the default team: six stages, six statuses
    /// and the rules triage → backlog → todo → in-dev → done, with a way to
    /// canceled from each and back from in-dev to todo.
    pub fn default_config() -> (r: IdlcConfig)
        ensures
            is_default_config(r),
    {
        let mut stages: Vec<Stage> = Vec::new();
        stages.push(stage("triage", "Triage", "Initial intake and categorization", true, false));
        stages.push(stage("backlog", "Backlog", "Prioritized queue", true, false));
        stages.push(stage("unstarted", "Unstarted", "Research and planning", true, false));
        stages.push(stage("started", "Started", "Active development", true, false));
        stages.push(stage("completed", "Completed", "Successfully finished", true, true));
        stages.push(stage("canceled", "Canceled", "Work stopped", false, true));
        let mut statuses: Vec<Status> = Vec::new();
        statuses.push(status("triage", "triage", "Triage", "#6B7280"));
        statuses.push(status("backlog", "backlog", "Backlog", "#9CA3AF"));
        statuses.push(status("todo", "unstarted", "Todo", "#3B82F6"));
        statuses.push(status("in-dev", "started", "In Development", "#8B5CF6"));
        statuses.push(status("done", "completed", "Done", "#22C55E"));
        statuses.push(status("canceled", "canceled", "Canceled", "#EF4444"));
        let mut transitions: Vec<Transition> = Vec::new();
        transitions.push(rule("triage", &["backlog", "canceled"]));
        transitions.push(rule("backlog", &["todo", "canceled"]));
        transitions.push(rule("todo", &["in-dev", "canceled"]));
        transitions.push(rule("in-dev", &["done", "todo", "canceled"]));
        let r = IdlcConfig {
            version: owned("1.0"),
            team: TeamInfo { id: owned("default"), name: owned("Default Team"), description: None },
            extends: None,
            stages,
            statuses,
            transitions,
            automation: Vec::new(),
            complexity: None,
            integrations: None,
        };
        assert(r.stages@.map_values(|s: Stage| stage_row(s)) =~= default_stage_rows());
        assert(r.statuses@.map_values(|s: Status| status_row(s)) =~= default_status_rows());
        assert(views(r.transitions@[0].to@) =~= seq!["backlog"@, "canceled"@]);
        assert(views(r.transitions@[1].to@) =~= seq!["todo"@, "canceled"@]);
        assert(views(r.transitions@[2].to@) =~= seq!["in-dev"@, "canceled"@]);
        assert(views(r.transitions@[3].to@) =~= seq!["done"@, "todo"@, "canceled"@]);
        assert(views(r.transitions@[0].except@) =~= seq![]);
        assert(views(r.transitions@[1].except@) =~= seq![]);
        assert(views(r.transitions@[2].except@) =~= seq![]);
        assert(views(r.transitions@[3].except@) =~= seq![]);
        assert(r.transitions@.map_values(|t: Transition| transition_row(t)) =~= default_transition_rows());
        r
    }
}

/// The built-in workflow passes validation.
pub proof fn lemma_default_config_valid(c: IdlcConfig)
    requires
        is_default_config(c),
    ensures
        config_valid(c),
{
    reveal_strlit("triage");
    reveal_strlit("backlog");
    reveal_strlit("todo");
    reveal_strlit("in-dev");
    reveal_strlit("done");
    reveal_strlit("canceled");
    reveal_strlit("*");
    let sr = c.stages@.map_values(|s: Stage| stage_row(s));
    let tr = c.statuses@.map_values(|s: Status| status_row(s));
    let rr = c.transitions@.map_values(|t: Transition| transition_row(t));
    assert(default_stage_rows().len() == 6);
    assert(default_status_rows().len() == 6);
    assert(default_transition_rows().len() == 4);
    assert(sr.len() == c.stages@.len() && tr.len() == c.statuses@.len() && rr.len() == c.transitions@.len());
    assert("triage"@[0] != "in-dev"@[0]);
    assert("todo"@[0] != "done"@[0]);
    assert(c.stages@.len() == 6 && c.statuses@.len() == 6 && c.transitions@.len() == 4);
    assert forall|i: int| 0 <= i < 6 implies #[trigger] c.stages@[i].id@ == c.statuses@[i].stage_id@ by {
        assert(sr[i] == stage_row(c.stages@[i]));
        assert(tr[i] == status_row(c.statuses@[i]));
    }
    assert forall|i: int| 0 <= i < 6 implies #[trigger] c.statuses@[i].id@ == default_status_rows()[i].0 by {
        assert(tr[i] == status_row(c.statuses@[i]));
    }
    assert forall|k: int| 0 <= k < 4 implies #[trigger] transition_row(c.transitions@[k]) == default_transition_rows()[k] by {
        assert(rr[k] == transition_row(c.transitions@[k]));
    }
    assert forall|i: int| !#[trigger] problem_holds(c, ConfigProblem::UnknownStage(i)) by {
        if 0 <= i < 6 {
            assert(c.stages@[i].id@ == c.statuses@[i].stage_id@);
        }
    }
    assert forall|k: int| !#[trigger] problem_holds(c, ConfigProblem::UnknownFrom(k)) by {
        if 0 <= k < 4 {
            assert(transition_row(c.transitions@[k]) == default_transition_rows()[k]);
            assert(c.statuses@[k].id@ == default_status_rows()[k].0);
        }
    }
    assert(c.statuses@[1].id@ == "backlog"@);
    assert(c.statuses@[2].id@ == "todo"@);
    assert(c.statuses@[3].id@ == "in-dev"@);
    assert(c.statuses@[4].id@ == "done"@);
    assert(c.statuses@[5].id@ == "canceled"@);
    assert forall|k: int, j: int| !#[trigger] problem_holds(c, ConfigProblem::UnknownTo(k, j)) by {
        if 0 <= k < 4 && 0 <= j < c.transitions@[k].to.len() {
            let t = c.transitions@[k];
            assert(transition_row(t) == default_transition_rows()[k]);
            assert(views(t.to@)[j] == t.to@[j]@);
            assert(views(t.to@) == default_transition_rows()[k].1);
            if k == 0 {
                assert(t.to@[j]@ == c.statuses@[1].id@ || t.to@[j]@ == c.statuses@[5].id@);
            } else if k == 1 {
                assert(t.to@[j]@ == c.statuses@[2].id@ || t.to@[j]@ == c.statuses@[5].id@);
            } else if k == 2 {
                assert(t.to@[j]@ == c.statuses@[3].id@ || t.to@[j]@ == c.statuses@[5].id@);
            } else {
                assert(t.to@[j]@ == c.statuses@[4].id@ || t.to@[j]@ == c.statuses@[2].id@ || t.to@[j]@ == c.statuses@[5].id@);
            }
        }
    }
    assert forall|k: int, j: int| !#[trigger] problem_holds(c, ConfigProblem::UnknownExcept(k, j)) by {
        if 0 <= k < 4 && 0 <= j < c.transitions@[k].except.len() {
            let t = c.transitions@[k];
            assert(transition_row(t) == default_transition_rows()[k]);
            assert(views(t.except@).len() == 0);
        }
    }
    assert forall|i: int| !#[trigger] problem_holds(c, ConfigProblem::DuplicateStatus(i)) by {
        if 0 <= i < 6 {
            assert forall|j: int| 0 <= j < i implies #[trigger] c.statuses@[j].id@ != c.statuses@[i].id@ by {
                assert(c.statuses@[j].id@ == default_status_rows()[j].0);
                assert(c.statuses@[i].id@ == default_status_rows()[i].0);
                assert(default_status_rows()[j].0.len() != default_status_rows()[i].0.len()
                    || default_status_rows()[j].0[0] != default_status_rows()[i].0[0]);
            }
        }
    }
    assert forall|p: ConfigProblem| !problem_holds(c, p) by {
        match p {
            ConfigProblem::UnknownStage(i) => {},
            ConfigProblem::UnknownFrom(k) => {},
            ConfigProblem::UnknownTo(k, j) => {},
            ConfigProblem::UnknownExcept(k, j) => {},
            ConfigProblem::DuplicateStatus(i) => {},
        }
    }
}


/// A work item moving through a workflow.
pub struct IdlcItem {
    pub id: uuid::Uuid,
    pub title: String,
    pub description: Option<String>,
    pub status: String,
    pub created_at: Timestamp,
    pub updated_at: Timestamp,
    pub metadata: HashMap<String, serde_json::Value>,
}

impl IdlcItem {
    /// A new item titled `title`, in status `triage`, without description or
    /// metadata, created and updated now.
    pub fn new(title: &str) -> (r: IdlcItem)
        ensures
            r.title@ == title@,
            r.description is None,
            r.status@ == "triage"@,
            r.metadata@ == Map::<String, serde_json::Value>::empty(),
            r.created_at == r.updated_at,
    {
        let now = utc_now();
        IdlcItem {
            id: new_uuid(),
            title: owned(title),
            description: None,
            status: owned("triage"),
            created_at: now.copy(),
            updated_at: now,
            metadata: HashMap::new(),
        }
    }

    /// Moves the item to status `to` if the workflow allows it from the
    /// current status, stamping the update time; otherwise reports the
    /// refused move and leaves the item unchanged.
    pub fn transition(&mut self, config: &IdlcConfig, to: &str) -> (r: Result<(), SynapseError>)
        ensures
            r is Ok <==> transition_allowed(*config, old(self).status@, to@),
            r is Ok ==> final(self).status@ == to@ && final(self).id == old(self).id
                && final(self).title == old(self).title && final(self).description == old(
                self,
            ).description && final(self).created_at == old(self).created_at
                && final(self).metadata == old(self).metadata,
            r matches Err(e) ==> *final(self) == *old(self) && (e matches SynapseError::Idlc(m)
                && m@ == "Invalid transition from "@ + old(self).status@ + " to "@ + to@),
    {
        if !config.is_valid_transition(self.status.as_str(), to) {
            let mut m = concat2("Invalid transition from ", self.status.as_str());
            push_str(&mut m, " to ");
            push_str(&mut m, to);
            return Err(SynapseError::Idlc(m));
        }
        self.status = owned(to);
        self.updated_at = utc_now();
        Ok(())
    }
}

/// On a valid workflow, an item whose status is a known status stays in a
/// known status whatever transition it is asked to make.
pub proof fn lemma_transition_keeps_status_known(c: IdlcConfig, from: Seq<char>, to: Seq<char>)
    requires
        config_valid(c),
        has_status(c.statuses@, from),
        transition_allowed(c, from, to),
    ensures
        has_status(c.statuses@, to),
{
    lemma_allowed_iff_available(c, from, to);
    let k = choose|k: int|
        0 <= k < c.transitions@.len() && #[trigger] rule_applies(c.transitions@[k], from)
            && strings_contain(c.transitions@[k].to@, to);
    let j = choose|j: int| 0 <= j < c.transitions@[k].to@.len() && #[trigger] c.transitions@[k].to@[j]@ == to;
    assert(!problem_holds(c, ConfigProblem::UnknownTo(k, j)));
}
} // verus!
