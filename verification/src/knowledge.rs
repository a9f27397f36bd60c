//! Knowledge repositories shadowing a project: their precedence, how their
//! files are planned onto the project, and the git exclusions for them.
use vstd::prelude::*;

use crate::text::{
    chars_of, concat3, contains_seq, find, first_occurrence, is_white_space, join_lines, join_with_newlines,
    lemma_trim_end_push_white, occurs_at, owned, path_join, path_join_spec, push_str, str_eq, strings_contain,
    trim_end, trim_end_range, trim_end_spec, trim_start_range, trim_start_spec, vec_contains, views,
};
use crate::SynapseError;

verus! {

/// The scope of a knowledge repository.
#[derive(Debug, Clone, Copy, PartialEq, Eq, Structural)]
pub enum KnowledgeContext {
    User,
    Team,
    Project,
}

/// A knowledge repository whose files are brought into a project.
pub struct ShadowRepository {
    pub path: String,
    pub id: Option<String>,
    pub description: Option<String>,
    pub repo_type: String,
    pub context: KnowledgeContext,
    pub enabled: bool,
}

/// Patterns of paths that git should not ignore.
pub struct GitExcludeConfig {
    pub patterns: Vec<String>,
}

/// A project's knowledge repositories.
pub struct KnowledgeConfig {
    pub version: String,
    pub git_exclude_patterns: Vec<String>,
    pub repositories: Vec<ShadowRepository>,
}

/// The repository type assumed when none is given: `folder`.
pub fn default_repo_type() -> (r: String)
    ensures
        r@ == "folder"@,
{
    owned("folder")
}

/// Repositories are enabled unless said otherwise.
pub fn default_enabled() -> (r: bool)
    ensures
        r,
{
    true
}

impl Default for GitExcludeConfig {
    /// No patterns.
    fn default() -> (r: GitExcludeConfig)
        ensures
            r.patterns@.len() == 0,
    {
        GitExcludeConfig { patterns: Vec::new() }
    }
}

impl Default for KnowledgeConfig {
    /// Version 1.0, no repositories, and the patterns `^\.pmsynapse/` and
    /// `^knowledge/`.
    fn default() -> (r: KnowledgeConfig)
        ensures
            r.version@ == "1.0"@,
            r.repositories@.len() == 0,
            r.git_exclude_patterns@.len() == 2,
            r.git_exclude_patterns@[0]@ == "^\\.pmsynapse/"@,
            r.git_exclude_patterns@[1]@ == "^knowledge/"@,
    {
        let mut patterns: Vec<String> = Vec::new();
        patterns.push(owned("^\\.pmsynapse/"));
        patterns.push(owned("^knowledge/"));
        KnowledgeConfig { version: owned("1.0"), git_exclude_patterns: patterns, repositories: Vec::new() }
    }
}

/// The precedence rank of a scope: user first, then team, then project.
pub open spec fn context_rank(c: KnowledgeContext) -> int {
    match c {
        KnowledgeContext::User => 0,
        KnowledgeContext::Team => 1,
        KnowledgeContext::Project => 2,
    }
}

/// The enabled repositories of rank `rank`, in their order.
pub open spec fn enabled_of_rank(rs: Seq<ShadowRepository>, rank: int) -> Seq<ShadowRepository> {
    rs.filter(|r: ShadowRepository| r.enabled && context_rank(r.context) == rank)
}

/// The enabled repositories in precedence order: by rank, and in their own
/// order within a rank.
pub open spec fn by_precedence(rs: Seq<ShadowRepository>) -> Seq<ShadowRepository> {
    enabled_of_rank(rs, 0) + enabled_of_rank(rs, 1) + enabled_of_rank(rs, 2)
}

/// The repositories a sequence of references points to.
pub open spec fn derefs(v: Seq<&ShadowRepository>) -> Seq<ShadowRepository> {
    v.map_values(|r: &ShadowRepository| *r)
}

/// Appends to `out` the enabled repositories of rank `rank`.
fn push_rank<'a>(rs: &'a Vec<ShadowRepository>, rank: u8, out: &mut Vec<&'a ShadowRepository>)
    requires
        rank <= 2,
    ensures
        derefs(final(out)@) == derefs(old(out)@) + enabled_of_rank(rs@, rank as int),
{
    let ghost start = derefs(out@);
    let mut i: usize = 0;
    while i < rs.len()
        invariant
            rank <= 2,
            i <= rs.len(),
            derefs(out@) == start + enabled_of_rank(rs@.take(i as int), rank as int),
        decreases rs.len() - i,
    {
        let r = &rs[i];
        let r_rank: u8 = match r.context {
            KnowledgeContext::User => 0,
            KnowledgeContext::Team => 1,
            KnowledgeContext::Project => 2,
        };
        let ghost before = out@;
        if r.enabled && r_rank == rank {
            out.push(r);
        }
        proof {
            let s1 = rs@.take(i + 1);
            assert(s1.drop_last() =~= rs@.take(i as int));
            assert(s1.last() == rs@[i as int]);
            reveal(Seq::filter);
            let f1 = enabled_of_rank(s1, rank as int);
            let f0 = enabled_of_rank(rs@.take(i as int), rank as int);
            if r.enabled && r_rank == rank {
                assert(f1 == f0.push(rs@[i as int]));
                assert(derefs(out@) =~= derefs(before).push(*r));
            } else {
                assert(f1 == f0);
                assert(out@ == before);
            }
            assert(derefs(out@) =~= start + f1);
        }
        i = i + 1;
    }
    assert(rs@.take(rs@.len() as int) =~= rs@);
}

/// The enabled repositories, user ones first, then team, then project; the
/// order among repositories of one scope is kept.
pub fn get_repos_by_precedence(config: &KnowledgeConfig) -> (r: Vec<&ShadowRepository>)
    ensures
        derefs(r@) == by_precedence(config.repositories@),
{
    let mut out: Vec<&ShadowRepository> = Vec::new();
    assert(derefs(out@) =~= Seq::<ShadowRepository>::empty());
    push_rank(&config.repositories, 0, &mut out);
    push_rank(&config.repositories, 1, &mut out);
    push_rank(&config.repositories, 2, &mut out);
    assert(derefs(out@) =~= by_precedence(config.repositories@));
    out
}

/// The precedence order holds exactly the enabled repositories, each as
/// often as it occurs, and ranks never decrease along it.
pub proof fn lemma_precedence_sorted(rs: Seq<ShadowRepository>)
    ensures
        forall|i: int, j: int|
            0 <= i < j < by_precedence(rs).len() ==> context_rank(#[trigger] by_precedence(rs)[i].context)
                <= context_rank(#[trigger] by_precedence(rs)[j].context),
        forall|i: int|
            0 <= i < by_precedence(rs).len() ==> (#[trigger] by_precedence(rs)[i]).enabled,
{
    broadcast use vstd::seq_lib::group_filter_ensures;
    let a = enabled_of_rank(rs, 0);
    let b = enabled_of_rank(rs, 1);
    let c = enabled_of_rank(rs, 2);
    let p = by_precedence(rs);
    assert forall|i: int| 0 <= i < p.len() implies context_rank(#[trigger] p[i].context) == (if i < a.len() {
        0int
    } else if i < a.len() + b.len() {
        1int
    } else {
        2int
    }) && p[i].enabled by {
        if i < a.len() {
            assert(p[i] == a[i]);
        } else if i < a.len() + b.len() {
            assert(p[i] == b[i - a.len()]);
        } else {
            assert(p[i] == c[i - a.len() - b.len()]);
        }
    }
}

/// The final component of path `p`, if it has one (`Path::file_name`).
pub uninterp spec fn path_file_name(p: Seq<char>) -> Option<Seq<char>>;

/// The final component of a path (`std::path::Path::file_name`), converted
/// to a string; absent when the path ends in `..` or is a root or empty.
#[verifier::external_body]
pub(crate) fn file_name_of(path: &str) -> (r: Option<String>)
    ensures
        opt_view_eq(r, path_file_name(path@)),
{
    std::path::Path::new(path).file_name().map(|n| n.to_string_lossy().to_string())
}

/// An optional string with the characters `v`.
pub open spec fn opt_view_eq(r: Option<String>, v: Option<Seq<char>>) -> bool {
    match (r, v) {
        (Some(s), Some(t)) => s@ == t,
        (None, None) => true,
        _ => false,
    }
}

/// The word naming a scope.
pub open spec fn context_word(c: KnowledgeContext) -> Seq<char> {
    match c {
        KnowledgeContext::User => "user"@,
        KnowledgeContext::Team => "team"@,
        KnowledgeContext::Project => "project"@,
    }
}

/// The name a repository's id is made from: the final component of its
/// path, or `repo` when the path has none.
pub open spec fn repo_id_name(path: Seq<char>) -> Seq<char> {
    match path_file_name(path) {
        Some(n) => n,
        None => "repo"@,
    }
}

/// An id for a repository that has none: `{scope}-{final path component}`,
/// with `repo` when the path has no final component. Ids tell repositories
/// apart as far as their scopes or the names of their directories differ
/// (see `lemma_repo_id_distinguishes`); two repositories of one scope in
/// directories of the same name share an id.
pub fn generate_repo_id(context: &KnowledgeContext, path: &str) -> (r: String)
    ensures
        r@ == context_word(*context) + "-"@ + repo_id_name(path@),
{
    let word = match context {
        KnowledgeContext::User => "user",
        KnowledgeContext::Team => "team",
        KnowledgeContext::Project => "project",
    };
    let name = match file_name_of(path) {
        Some(n) => n,
        None => owned("repo"),
    };
    concat3(word, "-", name.as_str())
}


/// Two generated ids are equal only for the same scope and the same
/// directory name: the scope words differ in their first letter, and the
/// rest of the id is the name.
pub proof fn lemma_repo_id_distinguishes(c1: KnowledgeContext, p1: Seq<char>, c2: KnowledgeContext, p2: Seq<char>)
    requires
        context_word(c1) + "-"@ + repo_id_name(p1) == context_word(c2) + "-"@ + repo_id_name(p2),
    ensures
        c1 == c2,
        repo_id_name(p1) == repo_id_name(p2),
{
    reveal_strlit("user");
    reveal_strlit("team");
    reveal_strlit("project");
    reveal_strlit("-");
    let a = context_word(c1) + "-"@ + repo_id_name(p1);
    let b = context_word(c2) + "-"@ + repo_id_name(p2);
    assert(a[0] == context_word(c1)[0]);
    assert(b[0] == context_word(c2)[0]);
    assert(c1 == c2);
    let k: int = (context_word(c1).len() + 1) as int;
    assert(a.skip(k) =~= repo_id_name(p1));
    assert(b.skip(k) =~= repo_id_name(p2));
}

/// `std::time::SystemTime`, carried as an opaque instant.
#[verifier::external_type_specification]
#[verifier::external_body]
pub struct ExSystemTime(std::time::SystemTime);

/// A file of a knowledge repository, as found on disk.
pub struct ScannedFile {
    pub path: String,
    pub hash: String,
    pub modified: std::time::SystemTime,
}

/// A file of a knowledge repository, located relative to the repository.
pub struct SyncEntry {
    pub relative_path: String,
    pub source_path: String,
    pub source_repo_id: String,
    pub context: KnowledgeContext,
    pub hash: String,
    pub modified: std::time::SystemTime,
}

/// A file entry as plain values: where it goes, where it comes from, which
/// repository it belongs to and its content digest.
pub ghost struct EntryView {
    pub relative_path: Seq<char>,
    pub source_path: Seq<char>,
    pub source_repo_id: Seq<char>,
    pub hash: Seq<char>,
}

impl View for SyncEntry {
    type V = EntryView;

    open spec fn view(&self) -> EntryView {
        EntryView {
            relative_path: self.relative_path@,
            source_path: self.source_path@,
            source_repo_id: self.source_repo_id@,
            hash: self.hash@,
        }
    }
}

/// A step of a synchronization plan.
pub enum SyncOperation {
    Copy { from: String, to: String, repo_id: String },
    Override { from: String, to: String, repo_id: String, overridden_repo: String },
    Skip { path: String, reason: String },
    Push { from: String, to: String },
}

/// A step of a synchronization plan as plain values.
pub ghost enum OpView {
    Copy { from: Seq<char>, to: Seq<char>, repo_id: Seq<char> },
    Override { from: Seq<char>, to: Seq<char>, repo_id: Seq<char>, overridden_repo: Seq<char> },
    Skip { path: Seq<char>, reason: Seq<char> },
    Push { from: Seq<char>, to: Seq<char> },
}

impl View for SyncOperation {
    type V = OpView;

    open spec fn view(&self) -> OpView {
        match self {
            SyncOperation::Copy { from, to, repo_id } => OpView::Copy {
                from: from@,
                to: to@,
                repo_id: repo_id@,
            },
            SyncOperation::Override { from, to, repo_id, overridden_repo } => OpView::Override {
                from: from@,
                to: to@,
                repo_id: repo_id@,
                overridden_repo: overridden_repo@,
            },
            SyncOperation::Skip { path, reason } => OpView::Skip { path: path@, reason: reason@ },
            SyncOperation::Push { from, to } => OpView::Push { from: from@, to: to@ },
        }
    }
}

/// The result of stripping directory `base` from the front of `path`
/// (`Path::strip_prefix`), if `base` is a prefix of it.
pub uninterp spec fn path_strip_prefix(path: Seq<char>, base: Seq<char>) -> Option<Seq<char>>;

/// `path` relative to `base` (`std::path::Path::strip_prefix`); the error
/// is the outside error's text, of which nothing is stated.
#[verifier::external_body]
fn strip_prefix(path: &str, base: &str) -> (r: Result<String, String>)
    ensures
        r is Ok <==> path_strip_prefix(path@, base@) is Some,
        r matches Ok(s) ==> path_strip_prefix(path@, base@) == Some(s@),
{
    match std::path::Path::new(path).strip_prefix(base) {
        Ok(rel) => Ok(rel.to_string_lossy().to_string()),
        Err(e) => Err(e.to_string()),
    }
}

/// The lower-case hexadecimal SHA-256 digest of `data`.
pub uninterp spec fn sha256_hex(data: Seq<u8>) -> Seq<char>;

/// The lower-case hexadecimal SHA-256 digest of `data` (`sha2::Sha256`).
#[verifier::external_body]
pub fn compute_file_hash(data: &[u8]) -> (r: String)
    ensures
        r@ == sha256_hex(data@),
{
    format!("{:x}", <sha2::Sha256 as sha2::Digest>::digest(data))
}

/// The id of a repository, or `unknown` when it has none.
pub open spec fn repo_id_or_unknown(repo: ShadowRepository) -> Seq<char> {
    match repo.id {
        Some(id) => id@,
        None => "unknown"@,
    }
}

/// Every file lies under the repository's directory.
pub open spec fn all_under(repo: ShadowRepository, files: Seq<ScannedFile>) -> bool {
    forall|i: int| 0 <= i < files.len() ==> (#[trigger] path_strip_prefix(files[i].path@, repo.path@)) is Some
}

/// The entries of repository `repo` for the files found in it: each file
/// located relative to the repository's directory and tagged with the
/// repository's id (or `unknown`) and scope. Fails when a file does not lie
/// under the directory.
pub fn scan_shadow_repo(repo: &ShadowRepository, files: Vec<ScannedFile>) -> (r: Result<Vec<SyncEntry>, SynapseError>)
    ensures
        r is Ok <==> all_under(*repo, files@),
        r matches Ok(v) ==> v@.len() == files@.len() && forall|i: int|
            0 <= i < v@.len() ==> {
                &&& Some((#[trigger] v@[i]).relative_path@) == path_strip_prefix(files@[i].path@, repo.path@)
                &&& v@[i].source_path == files@[i].path
                &&& v@[i].source_repo_id@ == repo_id_or_unknown(*repo)
                &&& v@[i].context == repo.context
                &&& v@[i].hash == files@[i].hash
                &&& v@[i].modified == files@[i].modified
            },
        r matches Err(e) ==> e is Knowledge,
{
    let repo_id = match &repo.id {
        Some(id) => id.clone(),
        None => owned("unknown"),
    };
    let ghost all = files@;
    let mut rest = files;
    let mut out: Vec<SyncEntry> = Vec::new();
    let ghost mut n: int = 0;
    assert(rest@ =~= all.skip(0));
    while rest.len() > 0
        invariant
            rest@ == all.skip(n),
            all == files@,
            0 <= n <= all.len(),
            repo_id@ == repo_id_or_unknown(*repo),
            out@.len() == n,
            forall|i: int| 0 <= i < n ==> (#[trigger] path_strip_prefix(all[i].path@, repo.path@)) is Some,
            forall|i: int|
                0 <= i < n ==> {
                    &&& Some((#[trigger] out@[i]).relative_path@) == path_strip_prefix(all[i].path@, repo.path@)
                    &&& out@[i].source_path == all[i].path
                    &&& out@[i].source_repo_id@ == repo_id_or_unknown(*repo)
                    &&& out@[i].context == repo.context
                    &&& out@[i].hash == all[i].hash
                    &&& out@[i].modified == all[i].modified
                },
        decreases rest.len(),
    {
        let f = rest.remove(0);
        assert(f == all[n]);
        let rel = match strip_prefix(f.path.as_str(), repo.path.as_str()) {
            Ok(rel) => rel,
            Err(m) => {
                assert(path_strip_prefix(all[n].path@, repo.path@) is None);
                assert(!all_under(*repo, all));
                return Err(SynapseError::Knowledge(m));
            },
        };
        out.push(SyncEntry {
            relative_path: rel,
            source_path: f.path,
            source_repo_id: repo_id.clone(),
            context: repo.context,
            hash: f.hash,
            modified: f.modified,
        });
        proof {
            assert(all.skip(n + 1) =~= all.skip(n).drop_first());
            n = n + 1;
        }
    }
    assert(n == all.len());
    Ok(out)
}

/// The entry that scanning repository `repo` makes of file `f`.
pub open spec fn entry_view(repo: ShadowRepository, f: ScannedFile) -> EntryView {
    EntryView {
        relative_path: match path_strip_prefix(f.path@, repo.path@) {
            Some(rel) => rel,
            None => Seq::empty(),
        },
        source_path: f.path@,
        source_repo_id: repo_id_or_unknown(repo),
        hash: f.hash@,
    }
}

/// The entries that scanning repository `repo` makes of `files`.
pub open spec fn scan_views(repo: ShadowRepository, files: Seq<ScannedFile>) -> Seq<EntryView> {
    Seq::new(files.len(), |i: int| entry_view(repo, files[i]))
}

/// The entries of the first `k` repositories, in their order.
pub open spec fn all_entries(repos: Seq<ShadowRepository>, scans: Seq<Vec<ScannedFile>>, k: int) -> Seq<EntryView>
    decreases k,
{
    if k <= 0 {
        Seq::empty()
    } else {
        all_entries(repos, scans, k - 1) + scan_views(repos[k - 1], scans[k - 1]@)
    }
}

/// The files of each repository lie under its directory.
pub open spec fn all_scans_under(repos: Seq<ShadowRepository>, scans: Seq<Vec<ScannedFile>>) -> bool {
    forall|k: int| 0 <= k < repos.len() ==> all_under(#[trigger] repos[k], scans[k]@)
}

/// The views of a sequence of entries.
pub open spec fn source_views(v: Seq<SyncEntry>) -> Seq<EntryView> {
    v.map_values(|e: SyncEntry| e@)
}

/// The views of a sequence of operations.
pub open spec fn op_views(v: Seq<SyncOperation>) -> Seq<OpView> {
    v.map_values(|o: SyncOperation| o@)
}

/// The first position, from `i` on, of an entry for path `p`.
pub open spec fn position_from(srcs: Seq<EntryView>, p: Seq<char>, i: int) -> Option<int>
    decreases srcs.len() - i,
{
    if i < 0 || i >= srcs.len() {
        None
    } else if srcs[i].relative_path == p {
        Some(i)
    } else {
        position_from(srcs, p, i + 1)
    }
}

/// A plan under construction: the override steps so far, and the winning
/// entry of each path, in the order the paths were first seen.
pub ghost struct PlanState {
    pub ops: Seq<OpView>,
    pub sources: Seq<EntryView>,
}

/// Taking entry `e` into the plan: when its path was seen before, it
/// replaces the earlier entry and an override step records both
/// repositories; otherwise the path is added.
pub open spec fn plan_step(st: PlanState, e: EntryView, root: Seq<char>) -> PlanState {
    match position_from(st.sources, e.relative_path, 0) {
        Some(k) => PlanState {
            ops: st.ops.push(
                OpView::Override {
                    from: e.source_path,
                    to: path_join_spec(root, e.relative_path),
                    repo_id: e.source_repo_id,
                    overridden_repo: st.sources[k].source_repo_id,
                },
            ),
            sources: st.sources.update(k, e),
        },
        None => PlanState { ops: st.ops, sources: st.sources.push(e) },
    }
}

/// Taking the entries `es` into the plan `st`, in their order.
pub open spec fn plan_fold_from(st: PlanState, es: Seq<EntryView>, root: Seq<char>) -> PlanState
    decreases es.len(),
{
    if es.len() == 0 {
        st
    } else {
        plan_step(plan_fold_from(st, es.drop_last(), root), es.last(), root)
    }
}

/// The empty plan.
pub open spec fn empty_plan() -> PlanState {
    PlanState { ops: Seq::empty(), sources: Seq::empty() }
}

/// A file found at a destination, with its content digest.
pub struct ExistingFile {
    pub path: String,
    pub hash: String,
}

/// The digest of the first file found at `dest`, from position `i` on.
pub open spec fn existing_hash_from(ex: Seq<ExistingFile>, dest: Seq<char>, i: int) -> Option<Seq<char>>
    decreases ex.len() - i,
{
    if i < 0 || i >= ex.len() {
        None
    } else if ex[i].path@ == dest {
        Some(ex[i].hash@)
    } else {
        existing_hash_from(ex, dest, i + 1)
    }
}

/// The final step for a winning entry: skip it when, without `force`, the
/// destination holds the same content; copy it otherwise.
pub open spec fn finish_op(w: EntryView, root: Seq<char>, force: bool, ex: Seq<ExistingFile>) -> OpView {
    let dest = path_join_spec(root, w.relative_path);
    if !force && existing_hash_from(ex, dest, 0) == Some(w.hash) {
        OpView::Skip { path: dest, reason: "unchanged"@ }
    } else {
        OpView::Copy { from: w.source_path, to: dest, repo_id: w.source_repo_id }
    }
}

/// The whole plan for entries `es`: the override steps in the order they
/// arise, then one copy or skip step per path, paths in the order first seen.
pub open spec fn plan_ops(es: Seq<EntryView>, root: Seq<char>, force: bool, ex: Seq<ExistingFile>) -> Seq<OpView> {
    let st = plan_fold_from(empty_plan(), es, root);
    st.ops + st.sources.map_values(|w: EntryView| finish_op(w, root, force, ex))
}

proof fn lemma_existing_hash_found(ex: Seq<ExistingFile>, dest: Seq<char>, i: int)
    requires
        0 <= i,
    ensures
        existing_hash_from(ex, dest, i) matches Some(h) ==> exists|k: int|
            i <= k < ex.len() && (#[trigger] ex[k]).path@ == dest && ex[k].hash@ == h,
    decreases ex.len() - i,
{
    if i < ex.len() && ex[i].path@ != dest {
        lemma_existing_hash_found(ex, dest, i + 1);
    }
}

/// The final step for each winning entry of a sync plan: the entry is
/// copied to its destination under the project root whenever `force` is
/// set or the first file found at that destination is missing or has a
/// different digest; it is skipped as unchanged only without `force` and
/// when a file with the entry's own digest is already there.
pub proof fn lemma_sync_copies_changed_files(
    es: Seq<EntryView>,
    root: Seq<char>,
    force: bool,
    ex: Seq<ExistingFile>,
    j: int,
)
    requires
        0 <= j < plan_fold_from(empty_plan(), es, root).sources.len(),
    ensures
        ({
            let st = plan_fold_from(empty_plan(), es, root);
            let w = st.sources[j];
            let dest = path_join_spec(root, w.relative_path);
            let op = plan_ops(es, root, force, ex)[st.ops.len() + j];
            &&& plan_ops(es, root, force, ex).len() == st.ops.len() + st.sources.len()
            &&& (force || existing_hash_from(ex, dest, 0) != Some(w.hash)) ==> op == OpView::Copy {
                from: w.source_path,
                to: dest,
                repo_id: w.source_repo_id,
            }
            &&& (!force && existing_hash_from(ex, dest, 0) == Some(w.hash)) ==> op == OpView::Skip {
                path: dest,
                reason: "unchanged"@,
            }
            &&& op is Skip ==> !force && exists|k: int|
                0 <= k < ex.len() && (#[trigger] ex[k]).path@ == dest && ex[k].hash@ == w.hash
        }),
{
    let st = plan_fold_from(empty_plan(), es, root);
    let w = st.sources[j];
    let dest = path_join_spec(root, w.relative_path);
    let ops = plan_ops(es, root, force, ex);
    assert(ops[st.ops.len() + j] == finish_op(w, root, force, ex));
    lemma_existing_hash_found(ex, dest, 0);
}

/// Folding `a + b` is folding `a`, then `b`.
pub proof fn lemma_plan_fold_append(st: PlanState, a: Seq<EntryView>, b: Seq<EntryView>, root: Seq<char>)
    ensures
        plan_fold_from(st, a + b, root) == plan_fold_from(plan_fold_from(st, a, root), b, root),
    decreases b.len(),
{
    if b.len() == 0 {
        assert(a + b =~= a);
    } else {
        assert((a + b).drop_last() =~= a + b.drop_last());
        assert((a + b).last() == b.last());
        lemma_plan_fold_append(st, a, b.drop_last(), root);
    }
}

/// The position of the entry for path `p` in `sources`, if there is one.
fn find_source(sources: &Vec<SyncEntry>, p: &str) -> (r: Option<usize>)
    ensures
        r matches Some(k) ==> k < sources@.len(),
        match r {
            Some(k) => position_from(source_views(sources@), p@, 0) == Some(k as int),
            None => position_from(source_views(sources@), p@, 0) is None,
        },
{
    let ghost sv = source_views(sources@);
    let mut i: usize = 0;
    while i < sources.len()
        invariant
            i <= sources.len(),
            sv == source_views(sources@),
            position_from(sv, p@, 0) == position_from(sv, p@, i as int),
        decreases sources.len() - i,
    {
        if str_eq(sources[i].relative_path.as_str(), p) {
            return Some(i);
        }
        i = i + 1;
    }
    None
}

/// The digest of the first file found at `dest`, if any.
fn existing_hash<'a>(existing: &'a Vec<ExistingFile>, dest: &str) -> (r: Option<&'a String>)
    ensures
        match r {
            Some(h) => existing_hash_from(existing@, dest@, 0) == Some(h@),
            None => existing_hash_from(existing@, dest@, 0) is None,
        },
{
    let mut i: usize = 0;
    while i < existing.len()
        invariant
            i <= existing.len(),
            existing_hash_from(existing@, dest@, 0) == existing_hash_from(existing@, dest@, i as int),
        decreases existing.len() - i,
    {
        if str_eq(existing[i].path.as_str(), dest) {
            return Some(&existing[i].hash);
        }
        i = i + 1;
    }
    None
}

/// Takes the entries of one repository into the plan.
fn absorb(ops: &mut Vec<SyncOperation>, sources: &mut Vec<SyncEntry>, entries: Vec<SyncEntry>, root: &str)
    ensures
        plan_fold_from(
            PlanState { ops: op_views(old(ops)@), sources: source_views(old(sources)@) },
            source_views(entries@),
            root@,
        ) == (PlanState { ops: op_views(final(ops)@), sources: source_views(final(sources)@) }),
{
    let ghost st0 = PlanState { ops: op_views(ops@), sources: source_views(sources@) };
    let ghost ev = source_views(entries@);
    let mut rest = entries;
    let ghost mut n: int = 0;
    assert(ev.take(0) =~= Seq::<EntryView>::empty());
    assert(source_views(rest@) =~= ev.skip(0));
    while rest.len() > 0
        invariant
            0 <= n <= ev.len(),
            rest@.len() + n == ev.len(),
            source_views(rest@) == ev.skip(n),
            plan_fold_from(st0, ev.take(n), root@) == (PlanState {
                ops: op_views(ops@),
                sources: source_views(sources@),
            }),
        decreases rest.len(),
    {
        let ghost before = PlanState { ops: op_views(ops@), sources: source_views(sources@) };
        assert(rest@[0]@ == ev[n]) by {
            assert(source_views(rest@)[0] == rest@[0]@);
            assert(ev.skip(n)[0] == ev[n]);
        }
        let e = rest.remove(0);
        match find_source(sources, e.relative_path.as_str()) {
            Some(k) => {
                let overridden = sources[k].source_repo_id.clone();
                ops.push(SyncOperation::Override {
                    from: e.source_path.clone(),
                    to: path_join(root, e.relative_path.as_str()),
                    repo_id: e.source_repo_id.clone(),
                    overridden_repo: overridden,
                });
                sources.set(k, e);
                assert(op_views(ops@) =~= before.ops.push(ops@.last()@));
                assert(source_views(sources@) =~= before.sources.update(k as int, ev[n]));
            },
            None => {
                sources.push(e);
                assert(op_views(ops@) =~= before.ops);
                assert(source_views(sources@) =~= before.sources.push(ev[n]));
            },
        }
        proof {
            assert(ev.take(n + 1).drop_last() =~= ev.take(n));
            assert(ev.take(n + 1).last() == ev[n]);
            assert(ev.skip(n + 1) =~= ev.skip(n).drop_first());
            assert(source_views(rest@) =~= ev.skip(n + 1));
            n = n + 1;
        }
    }
    assert(ev.take(ev.len() as int) =~= ev);
}

/// The steps that bring the knowledge repositories into the project at
/// `project_root`. `scans[k]` holds the files found in the `k`-th repository
/// of `get_repos_by_precedence`, and `existing` the files already at their
/// destinations. Entries are taken repository by repository: an entry whose
/// path an earlier entry had overrides it (an override step), and the last
/// entry for each path wins; each winner is then skipped when, without
/// `force`, its destination holds the same content, and copied otherwise.
/// Fails when a file does not lie under its repository's directory.
pub fn build_sync_plan(
    config: &KnowledgeConfig,
    project_root: &str,
    force: bool,
    scans: Vec<Vec<ScannedFile>>,
    existing: &Vec<ExistingFile>,
) -> (r: Result<Vec<SyncOperation>, SynapseError>)
    requires
        scans@.len() == by_precedence(config.repositories@).len(),
    ensures
        r is Ok <==> all_scans_under(by_precedence(config.repositories@), scans@),
        r matches Ok(ops) ==> op_views(ops@) == plan_ops(
            all_entries(by_precedence(config.repositories@), scans@, scans@.len() as int),
            project_root@,
            force,
            existing@,
        ),
        r matches Err(e) ==> e is Knowledge,
{
    let repos = get_repos_by_precedence(config);
    let ghost reps = by_precedence(config.repositories@);
    let ghost all_scans = scans@;
    let mut ops: Vec<SyncOperation> = Vec::new();
    let mut sources: Vec<SyncEntry> = Vec::new();
    let mut rest = scans;
    let mut k: usize = 0;
    assert(op_views(ops@) =~= Seq::<OpView>::empty());
    assert(source_views(sources@) =~= Seq::<EntryView>::empty());
    assert(rest@ =~= all_scans.skip(0));
    while k < repos.len()
        invariant
            derefs(repos@) == reps,
            reps == by_precedence(config.repositories@),
            reps.len() == all_scans.len(),
            all_scans == scans@,
            k <= repos.len(),
            rest@ == all_scans.skip(k as int),
            forall|j: int| 0 <= j < k ==> all_under(#[trigger] reps[j], all_scans[j]@),
            plan_fold_from(empty_plan(), all_entries(reps, all_scans, k as int), project_root@) == (PlanState {
                ops: op_views(ops@),
                sources: source_views(sources@),
            }),
        decreases repos.len() - k,
    {
        let files = rest.remove(0);
        assert(files == all_scans[k as int]);
        assert(*repos[k as int] == reps[k as int]);
        let entries = match scan_shadow_repo(repos[k], files) {
            Ok(v) => v,
            Err(e) => {
                assert(!all_scans_under(reps, all_scans));
                return Err(e);
            },
        };
        proof {
            assert(source_views(entries@) =~= scan_views(reps[k as int], all_scans[k as int]@));
            lemma_plan_fold_append(
                empty_plan(),
                all_entries(reps, all_scans, k as int),
                scan_views(reps[k as int], all_scans[k as int]@),
                project_root@,
            );
        }
        absorb(&mut ops, &mut sources, entries, project_root);
        proof {
            assert(all_scans.skip(k + 1) =~= all_scans.skip(k as int).drop_first());
        }
        k = k + 1;
    }
    let ghost st = PlanState { ops: op_views(ops@), sources: source_views(sources@) };
    let ghost nops = ops@.len();
    let mut i: usize = 0;
    while i < sources.len()
        invariant
            i <= sources.len(),
            st.sources == source_views(sources@),
            nops == st.ops.len(),
            op_views(ops@) == st.ops + st.sources.take(i as int).map_values(
                |w: EntryView| finish_op(w, project_root@, force, existing@),
            ),
        decreases sources.len() - i,
    {
        let w = &sources[i];
        let dest = path_join(project_root, w.relative_path.as_str());
        let unchanged = if force {
            false
        } else {
            match existing_hash(existing, dest.as_str()) {
                Some(h) => str_eq(h.as_str(), w.hash.as_str()),
                None => false,
            }
        };
        let ghost before = op_views(ops@);
        if unchanged {
            ops.push(SyncOperation::Skip { path: dest, reason: owned("unchanged") });
        } else {
            ops.push(SyncOperation::Copy {
                from: w.source_path.clone(),
                to: dest,
                repo_id: w.source_repo_id.clone(),
            });
        }
        proof {
            assert(ops@.last()@ == finish_op(st.sources[i as int], project_root@, force, existing@));
            assert(op_views(ops@) =~= before.push(ops@.last()@));
            assert(st.sources.take(i + 1).map_values(|w: EntryView| finish_op(w, project_root@, force, existing@))
                =~= st.sources.take(i as int).map_values(
                |w: EntryView| finish_op(w, project_root@, force, existing@),
            ).push(finish_op(st.sources[i as int], project_root@, force, existing@)));
        }
        i = i + 1;
    }
    assert(st.sources.take(st.sources.len() as int) =~= st.sources);
    Ok(ops)
}

/// No two entries are for the same path.
pub open spec fn paths_distinct(ws: Seq<EntryView>) -> bool {
    forall|i: int, j: int|
        0 <= i < j < ws.len() ==> (#[trigger] ws[i]).relative_path != (#[trigger] ws[j]).relative_path
}

/// Some entry of `ws` is for path `p`.
pub open spec fn has_path(ws: Seq<EntryView>, p: Seq<char>) -> bool {
    exists|j: int| 0 <= j < ws.len() && (#[trigger] ws[j]).relative_path == p
}

/// Entry `k` is the last one for its path.
pub open spec fn last_for_path(es: Seq<EntryView>, k: int) -> bool {
    &&& 0 <= k < es.len()
    &&& forall|m: int| k < m < es.len() ==> (#[trigger] es[m]).relative_path != es[k].relative_path
}

/// `w` is the last entry for its path.
pub open spec fn wins(es: Seq<EntryView>, w: EntryView) -> bool {
    exists|k: int| #[trigger] last_for_path(es, k) && es[k] == w
}

proof fn lemma_position_from(s: Seq<EntryView>, p: Seq<char>, i: int)
    requires
        0 <= i,
    ensures
        match position_from(s, p, i) {
            Some(k) => i <= k < s.len() && s[k].relative_path == p,
            None => forall|m: int| i <= m < s.len() ==> (#[trigger] s[m]).relative_path != p,
        },
    decreases s.len() - i,
{
    if i < s.len() && s[i].relative_path != p {
        lemma_position_from(s, p, i + 1);
    }
}

/// Later repositories win: after all entries are taken into a plan, it holds
/// exactly one entry per path that occurs, that entry is the last one for
/// its path, and every other entry gave rise to one override step.
pub proof fn lemma_last_entry_wins(es: Seq<EntryView>, root: Seq<char>)
    ensures
        paths_distinct(plan_fold_from(empty_plan(), es, root).sources),
        forall|i: int| 0 <= i < es.len() ==> has_path(plan_fold_from(empty_plan(), es, root).sources, (#[trigger] es[i]).relative_path),
        forall|j: int|
            0 <= j < plan_fold_from(empty_plan(), es, root).sources.len() ==> wins(
                es,
                #[trigger] plan_fold_from(empty_plan(), es, root).sources[j],
            ),
        plan_fold_from(empty_plan(), es, root).ops.len() + plan_fold_from(empty_plan(), es, root).sources.len() == es.len(),
    decreases es.len(),
{
    if es.len() > 0 {
        let pre = es.drop_last();
        let e = es.last();
        let n = pre.len();
        lemma_last_entry_wins(pre, root);
        let st = plan_fold_from(empty_plan(), pre, root);
        let ws = st.sources;
        let st2 = plan_fold_from(empty_plan(), es, root);
        assert(st2 == plan_step(st, e, root));
        lemma_position_from(ws, e.relative_path, 0);
        let ws2 = st2.sources;
        match position_from(ws, e.relative_path, 0) {
            Some(k) => {
                assert(ws2 == ws.update(k, e));
                assert forall|i: int, j: int| 0 <= i < j < ws2.len() implies (#[trigger] ws2[i]).relative_path
                    != (#[trigger] ws2[j]).relative_path by {
                    assert(ws[i].relative_path != ws[j].relative_path);
                }
                assert forall|i: int| 0 <= i < es.len() implies has_path(ws2, (#[trigger] es[i]).relative_path) by {
                    if i < n {
                        assert(pre[i] == es[i]);
                        assert(has_path(ws, pre[i].relative_path));
                        let j = choose|j: int| 0 <= j < ws.len() && (#[trigger] ws[j]).relative_path == pre[i].relative_path;
                        assert(ws2[j].relative_path == es[i].relative_path);
                    } else {
                        assert(ws2[k].relative_path == es[i].relative_path);
                    }
                }
                assert forall|j: int| 0 <= j < ws2.len() implies wins(es, #[trigger] ws2[j]) by {
                    if j == k {
                        assert(last_for_path(es, n as int));
                        assert(es[n as int] == ws2[j]);
                    } else {
                        assert(wins(pre, ws[j]));
                        let q = choose|q: int| #[trigger] last_for_path(pre, q) && pre[q] == ws[j];
                        assert(ws[j].relative_path != ws[k].relative_path);
                        assert forall|m: int| q < m < es.len() implies (#[trigger] es[m]).relative_path
                            != es[q].relative_path by {
                            if m < n {
                                assert(es[m] == pre[m]);
                            }
                        }
                        assert(last_for_path(es, q));
                        assert(es[q] == ws2[j]);
                    }
                }
            },
            None => {
                assert(ws2 == ws.push(e));
                assert forall|i: int, j: int| 0 <= i < j < ws2.len() implies (#[trigger] ws2[i]).relative_path
                    != (#[trigger] ws2[j]).relative_path by {
                    if j < ws.len() {
                        assert(ws[i].relative_path != ws[j].relative_path);
                    } else {
                        assert(ws[i].relative_path != e.relative_path);
                    }
                }
                assert forall|i: int| 0 <= i < es.len() implies has_path(ws2, (#[trigger] es[i]).relative_path) by {
                    if i < n {
                        assert(pre[i] == es[i]);
                        assert(has_path(ws, pre[i].relative_path));
                        let j = choose|j: int| 0 <= j < ws.len() && (#[trigger] ws[j]).relative_path == pre[i].relative_path;
                        assert(ws2[j].relative_path == es[i].relative_path);
                    } else {
                        assert(ws2[ws.len() as int].relative_path == es[i].relative_path);
                    }
                }
                assert forall|j: int| 0 <= j < ws2.len() implies wins(es, #[trigger] ws2[j]) by {
                    if j == ws.len() {
                        assert(last_for_path(es, n as int));
                        assert(es[n as int] == ws2[j]);
                    } else {
                        assert(wins(pre, ws[j]));
                        let q = choose|q: int| #[trigger] last_for_path(pre, q) && pre[q] == ws[j];
                        assert(ws[j].relative_path != e.relative_path);
                        assert forall|m: int| q < m < es.len() implies (#[trigger] es[m]).relative_path
                            != es[q].relative_path by {
                            if m < n {
                                assert(es[m] == pre[m]);
                            }
                        }
                        assert(last_for_path(es, q));
                        assert(es[q] == ws2[j]);
                    }
                }
            },
        }
    }
}

/// Whether regular expression `pattern` matches somewhere in `text`; `None`
/// when `pattern` is not a valid expression.
pub uninterp spec fn regex_is_match(pattern: Seq<char>, text: Seq<char>) -> Option<bool>;

/// Compiles `pattern` (`regex::Regex::new`) and, when it compiles, tells
/// whether it matches somewhere in `text` (`regex::Regex::is_match`).
#[verifier::external_body]
fn pattern_matches(pattern: &str, text: &str) -> (r: Option<bool>)
    ensures
        r == regex_is_match(pattern@, text@),
{
    match regex::Regex::new(pattern) {
        Ok(re) => Some(re.is_match(text)),
        Err(_) => None,
    }
}

/// Some valid pattern of `patterns` matches `text`.
pub open spec fn any_pattern_matches(patterns: Seq<String>, text: Seq<char>) -> bool {
    exists|i: int| 0 <= i < patterns.len() && regex_is_match(#[trigger] patterns[i]@, text) == Some(true)
}

/// Whether some valid pattern of `patterns` matches `text`.
fn matches_any(patterns: &Vec<String>, text: &str) -> (r: bool)
    ensures
        r == any_pattern_matches(patterns@, text@),
{
    let mut i: usize = 0;
    while i < patterns.len()
        invariant
            i <= patterns.len(),
            forall|j: int| 0 <= j < i ==> regex_is_match(#[trigger] patterns@[j]@, text@) != Some(true),
        decreases patterns.len() - i,
    {
        if let Some(true) = pattern_matches(patterns[i].as_str(), text) {
            return true;
        }
        i = i + 1;
    }
    false
}

/// The synced paths that no pattern matches, each once, in their order.
pub open spec fn unmatched_paths(patterns: Seq<String>, synced: Seq<String>) -> Seq<Seq<char>>
    decreases synced.len(),
{
    if synced.len() == 0 {
        Seq::empty()
    } else {
        let acc = unmatched_paths(patterns, synced.drop_last());
        let p = synced.last()@;
        if !any_pattern_matches(patterns, p) && !acc.contains(p) {
            acc.push(p)
        } else {
            acc
        }
    }
}

/// `v` with `p` added at the end unless it is already there.
pub open spec fn push_unique(v: Seq<Seq<char>>, p: Seq<char>) -> Seq<Seq<char>> {
    if v.contains(p) {
        v
    } else {
        v.push(p)
    }
}

/// The paths that git is told to ignore: the synced paths that no pattern
/// of the configuration matches, then `.pmsynapse/` and `knowledge/`,
/// without repeats.
pub open spec fn excluded_paths(patterns: Seq<String>, synced: Seq<String>) -> Seq<Seq<char>> {
    push_unique(push_unique(unmatched_paths(patterns, synced), ".pmsynapse/"@), "knowledge/"@)
}

proof fn lemma_contains_views(v: Seq<String>, s: Seq<char>)
    ensures
        strings_contain(v, s) == views(v).contains(s),
{
    if strings_contain(v, s) {
        let i = choose|i: int| 0 <= i < v.len() && #[trigger] v[i]@ == s;
        assert(views(v)[i] == s);
    } else if views(v).contains(s) {
        let i = choose|i: int| 0 <= i < views(v).len() && views(v)[i] == s;
        assert(v[i]@ == s);
    }
}

/// Adds `p` at the end of `v` unless it is already there.
fn push_if_absent(v: &mut Vec<String>, p: &str)
    ensures
        views(final(v)@) == push_unique(views(old(v)@), p@),
{
    proof {
        lemma_contains_views(v@, p@);
    }
    if !vec_contains(v, p) {
        v.push(owned(p));
        assert(views(v@) =~= views(old(v)@).push(p@));
    }
}

/// The paths that git is told to ignore after a sync of `synced_paths`:
/// those that no valid pattern of `config` matches, each once and in order,
/// then `.pmsynapse/` and `knowledge/` unless already present.
pub fn paths_to_exclude(config: &KnowledgeConfig, synced_paths: &Vec<String>) -> (r: Vec<String>)
    ensures
        views(r@) == excluded_paths(config.git_exclude_patterns@, synced_paths@),
{
    let patterns = &config.git_exclude_patterns;
    let mut out: Vec<String> = Vec::new();
    let mut i: usize = 0;
    assert(views(out@) =~= unmatched_paths(patterns@, synced_paths@.take(0)));
    while i < synced_paths.len()
        invariant
            i <= synced_paths.len(),
            patterns@ == config.git_exclude_patterns@,
            views(out@) == unmatched_paths(patterns@, synced_paths@.take(i as int)),
        decreases synced_paths.len() - i,
    {
        let p = synced_paths[i].as_str();
        proof {
            let t = synced_paths@.take(i + 1);
            assert(t.drop_last() =~= synced_paths@.take(i as int));
            assert(t.last() == synced_paths@[i as int]);
        }
        if !matches_any(patterns, p) {
            push_if_absent(&mut out, p);
        }
        i = i + 1;
    }
    assert(synced_paths@.take(synced_paths@.len() as int) =~= synced_paths@);
    push_if_absent(&mut out, ".pmsynapse/");
    push_if_absent(&mut out, "knowledge/");
    out
}

/// The line that opens the generated part of the exclude file.
pub open spec fn marker_start() -> Seq<char> {
    "# BEGIN snps-know auto-generated"@
}

/// The line that closes the generated part of the exclude file.
pub open spec fn marker_end() -> Seq<char> {
    "# END snps-know auto-generated"@
}

/// What the user wrote in an exclude file: everything but the generated
/// part, the text before it trimmed at its end and the text after it at its
/// start, on separate lines when both are there; the whole file when either
/// marker is missing.
pub open spec fn user_section(existing: Seq<char>) -> Seq<char> {
    user_section_between(existing, first_occurrence(existing, marker_start()), first_occurrence(existing, marker_end()))
}

/// Two parts of the user's text joined by a newline, or the one that is not
/// empty.
pub open spec fn join_parts(before: Seq<char>, after: Seq<char>) -> Seq<char> {
    if before.len() > 0 && after.len() > 0 {
        before + "\n"@ + after
    } else {
        before + after
    }
}

/// What the user wrote in an exclude file whose markers were found at
/// `start` and `end`.
pub open spec fn user_section_between(existing: Seq<char>, start: Option<int>, end: Option<int>) -> Seq<char> {
    match (start, end) {
        (Some(s), Some(e)) => join_parts(
            trim_end_spec(existing.take(s)),
            trim_start_spec(existing.skip(e + marker_end().len())),
        ),
        _ => existing,
    }
}

/// The generated part of the exclude file for `paths`.
pub open spec fn auto_section(paths: Seq<Seq<char>>) -> Seq<char> {
    "\n"@ + marker_start() + "\n# DO NOT EDIT - Changes will be overwritten by 'snps know sync'\n"@
        + join_lines(paths) + "\n"@ + marker_end() + "\n"@
}

/// The new exclude file: what the user wrote, trimmed at its end, then the
/// generated part; the generated part alone when the user wrote nothing.
pub open spec fn exclude_file_content(existing: Seq<char>, paths: Seq<Seq<char>>) -> Seq<char> {
    let user = user_section(existing);
    if user.len() == 0 {
        auto_section(paths)
    } else {
        trim_end_spec(user) + "\n"@ + auto_section(paths)
    }
}

/// What the user wrote in the exclude file `existing`.
fn user_section_of(existing: &str) -> (r: String)
    ensures
        r@ == user_section(existing@),
{
    let ev = chars_of(existing);
    let start_marker = chars_of("# BEGIN snps-know auto-generated");
    let end_marker = chars_of("# END snps-know auto-generated");
    let s = find(&ev, &start_marker);
    let e = find(&ev, &end_marker);
    let r = if let (Some(s), Some(e)) = (s, e) {
        let before = trim_end_range(&ev, 0, s);
        let after = trim_start_range(&ev, e + end_marker.len(), ev.len());
        let mut u = before;
        if !u.as_str().is_empty() && !after.as_str().is_empty() {
            push_str(&mut u, "\n");
        }
        push_str(&mut u, after.as_str());
        u
    } else {
        owned(existing)
    };
    r
}

/// The generated part of the exclude file listing `paths`.
fn auto_section_of(paths: &Vec<String>) -> (r: String)
    ensures
        r@ == auto_section(views(paths@)),
{
    let mut auto = owned("\n");
    push_str(&mut auto, "# BEGIN snps-know auto-generated");
    push_str(&mut auto, "\n# DO NOT EDIT - Changes will be overwritten by 'snps know sync'\n");
    let joined = join_with_newlines(paths);
    push_str(&mut auto, joined.as_str());
    push_str(&mut auto, "\n");
    push_str(&mut auto, "# END snps-know auto-generated");
    push_str(&mut auto, "\n");
    auto
}

/// The text of the exclude file that replaces `existing`, with the generated
/// part listing `paths`.
pub fn git_exclude_content(existing: &str, paths: &Vec<String>) -> (r: String)
    ensures
        r@ == exclude_file_content(existing@, views(paths@)),
{
    let user = user_section_of(existing);
    let auto = auto_section_of(paths);
    if user.as_str().is_empty() {
        auto
    } else {
        let mut r = trim_end(user.as_str());
        push_str(&mut r, "\n");
        push_str(&mut r, auto.as_str());
        r
    }
}


/// No occurrence of `n` in `a + "\n" + b` when there is none in `a` nor in
/// `b` and `n` holds no newline.
proof fn lemma_no_occurrence_across_newline(a: Seq<char>, b: Seq<char>, n: Seq<char>)
    requires
        !contains_seq(a, n),
        !contains_seq(b, n),
        n.len() > 0,
        forall|k: int| 0 <= k < n.len() ==> n[k] != '\n',
    ensures
        !contains_seq(a + "\n"@ + b, n),
{
    reveal_strlit("\n");
    let h = a + "\n"@ + b;
    assert forall|j: int| !occurs_at(h, n, j) by {
        if occurs_at(h, n, j) {
            if j + n.len() <= a.len() {
                assert(a.subrange(j, j + n.len()) =~= h.subrange(j, j + n.len()));
                assert(occurs_at(a, n, j));
            } else if j >= a.len() + 1 {
                assert(b.subrange(j - a.len() - 1, j - a.len() - 1 + n.len()) =~= h.subrange(j, j + n.len()));
                assert(occurs_at(b, n, j - a.len() - 1));
            } else {
                assert(h.subrange(j, j + n.len())[a.len() - j] == h[a.len() as int]);
                assert(h[a.len() as int] == '\n');
            }
        }
    }
}

/// When the prefix `p` of `h` holds no `n` and ends with a newline, and `n`
/// holds none, `n` occurs nowhere in `h` before the end of `p`.
proof fn lemma_none_before(h: Seq<char>, p: Seq<char>, n: Seq<char>)
    requires
        p.is_prefix_of(h),
        p.len() > 0,
        p.last() == '\n',
        !contains_seq(p, n),
        n.len() > 0,
        forall|k: int| 0 <= k < n.len() ==> n[k] != '\n',
    ensures
        forall|j: int| 0 <= j < p.len() ==> !occurs_at(h, n, j),
{
    assert forall|j: int| 0 <= j < p.len() implies !occurs_at(h, n, j) by {
        if occurs_at(h, n, j) {
            if j + n.len() <= p.len() {
                assert(p.subrange(j, j + n.len()) =~= h.subrange(j, j + n.len()));
                assert(occurs_at(p, n, j));
            } else {
                assert(h.subrange(j, j + n.len())[p.len() - 1 - j] == h[p.len() - 1]);
                assert(h[p.len() - 1] == p[p.len() - 1]);
            }
        }
    }
}

/// The first occurrence is the one with none before it.
proof fn lemma_first_occurrence_at(h: Seq<char>, n: Seq<char>, i: int)
    requires
        occurs_at(h, n, i),
        forall|j: int| 0 <= j < i ==> !occurs_at(h, n, j),
    ensures
        first_occurrence(h, n) == Some(i),
{
    reveal(first_occurrence);
    assert(contains_seq(h, n));
    let c = choose|c: int| occurs_at(h, n, c) && forall|j: int| 0 <= j < c ==> !occurs_at(h, n, j);
    assert(occurs_at(h, n, c) && forall|j: int| 0 <= j < c ==> !occurs_at(h, n, j));
    if c < i {
        assert(!occurs_at(h, n, c));
    } else if c > i {
        assert(!occurs_at(h, n, i));
    }
}

/// Trimming the end twice trims nothing more.
proof fn lemma_trim_end_twice(s: Seq<char>)
    ensures
        trim_end_spec(trim_end_spec(s)) == trim_end_spec(s),
    decreases s.len(),
{
    if s.len() > 0 && is_white_space(s.last()) {
        lemma_trim_end_twice(s.drop_last());
    }
}

/// The text of the marker lines and of the warning line under the start
/// marker: none holds a newline, and the end marker occurs in neither of the
/// other two.
proof fn lemma_marker_texts()
    ensures
        forall|k: int| 0 <= k < marker_start().len() ==> marker_start()[k] != '\n',
        forall|k: int| 0 <= k < marker_end().len() ==> marker_end()[k] != '\n',
        marker_start().len() == 32,
        marker_end().len() == 30,
        !contains_seq(marker_start(), marker_end()),
        !contains_seq(warning_line(), marker_end()),
        "\n# DO NOT EDIT - Changes will be overwritten by 'snps know sync'\n"@ == "\n"@ + warning_line() + "\n"@,
{
    reveal_strlit("# BEGIN snps-know auto-generated");
    reveal_strlit("# END snps-know auto-generated");
    reveal_strlit("# DO NOT EDIT - Changes will be overwritten by 'snps know sync'");
    reveal_strlit("\n# DO NOT EDIT - Changes will be overwritten by 'snps know sync'\n");
    reveal_strlit("\n");
    let s = marker_start();
    let e = marker_end();
    let w = warning_line();
    assert forall|k: int| 0 <= k < s.len() implies s[k] != '\n' by {}
    assert forall|k: int| 0 <= k < e.len() implies e[k] != '\n' by {}
    assert forall|j: int| !occurs_at(s, e, j) by {
        if occurs_at(s, e, j) {
            if j == 0 {
                assert(s.subrange(j, j + 30)[2] == s[2]);
            } else {
                assert(s.subrange(j, j + 30)[0] == s[j]);
                assert(j == 1 || j == 2);
            }
        }
    }
    assert forall|j: int| !occurs_at(w, e, j) by {
        if occurs_at(w, e, j) {
            if j == 0 {
                assert(w.subrange(j, j + 30)[2] == w[2]);
            } else {
                assert(w.subrange(j, j + 30)[0] == w[j]);
                assert(j == 1 || j == 2 || j == 3 || j == 4 || j == 5 || j == 6 || j == 7 || j == 8 || j == 9 || j == 10 || j == 11 || j == 12 || j == 13 || j == 14 || j == 15 || j == 16 || j == 17 || j == 18 || j == 19 || j == 20 || j == 21 || j == 22 || j == 23 || j == 24 || j == 25 || j == 26 || j == 27 || j == 28 || j == 29 || j == 30 || j == 31 || j == 32 || j == 33);
            }
        }
    }
    assert("\n# DO NOT EDIT - Changes will be overwritten by 'snps know sync'\n"@ =~= "\n"@ + w + "\n"@);
}

/// The warning line under the start marker.
pub open spec fn warning_line() -> Seq<char> {
    "# DO NOT EDIT - Changes will be overwritten by 'snps know sync'"@
}

/// Updating the exclude file again with the same paths changes nothing, and
/// the user's part of an updated file is the user's part it was made from,
/// trimmed at its end. This holds when that part holds neither marker, is
/// empty or not only white space, and no path line holds the end marker.
pub proof fn lemma_exclude_update_idempotent(existing: Seq<char>, paths: Seq<Seq<char>>)
    requires
        !contains_seq(trim_end_spec(user_section(existing)), marker_start()),
        !contains_seq(trim_end_spec(user_section(existing)), marker_end()),
        user_section(existing).len() == 0 || trim_end_spec(user_section(existing)).len() > 0,
        !contains_seq(join_lines(paths), marker_end()),
    ensures
        trim_end_spec(user_section(exclude_file_content(existing, paths))) == trim_end_spec(user_section(existing)),
        exclude_file_content(exclude_file_content(existing, paths), paths) == exclude_file_content(existing, paths),
{
    lemma_marker_texts();
    let u = user_section(existing);
    let t = trim_end_spec(u);
    let st = marker_start();
    let en = marker_end();
    let w = warning_line();
    let j = join_lines(paths);
    let nl = "\n"@;
    reveal_strlit("\n");
    let a = auto_section(paths);
    assert(a =~= nl + st + nl + w + nl + j + nl + en + nl);
    let p = if u.len() == 0 {
        Seq::<char>::empty()
    } else {
        t + nl
    };
    let f = exclude_file_content(existing, paths);
    assert(f =~= p + a);
    let empty = Seq::<char>::empty();
    assert(!contains_seq(empty, st));
    assert(!contains_seq(empty, en));
    // The prefix `p` holds neither marker.
    if u.len() != 0 {
        lemma_no_occurrence_across_newline(t, empty, st);
        lemma_no_occurrence_across_newline(t, empty, en);
        assert(t + nl + empty =~= p);
    }
    assert(!contains_seq(p, st));
    assert(!contains_seq(p, en));
    // The start marker first occurs right after `p` and a newline.
    let ps = p + nl;
    lemma_no_occurrence_across_newline(p, empty, st);
    assert(p + nl + empty =~= ps);
    assert(ps.is_prefix_of(f));
    assert(ps.last() == '\n');
    lemma_none_before(f, ps, st);
    assert(f.subrange(ps.len() as int, (ps.len() + st.len()) as int) =~= st);
    lemma_first_occurrence_at(f, st, ps.len() as int);
    // The end marker first occurs after the path lines.
    let x1 = p + nl + st;
    lemma_no_occurrence_across_newline(p, st, en);
    let x2 = x1 + nl + w;
    lemma_no_occurrence_across_newline(x1, w, en);
    let x3 = x2 + nl + j;
    lemma_no_occurrence_across_newline(x2, j, en);
    let pe = x3 + nl + empty;
    lemma_no_occurrence_across_newline(x3, empty, en);
    assert(pe =~= f.take(pe.len() as int));
    assert(pe.is_prefix_of(f));
    lemma_none_before(f, pe, en);
    assert(f.subrange(pe.len() as int, (pe.len() + en.len()) as int) =~= en);
    lemma_first_occurrence_at(f, en, pe.len() as int);
    // So the user's part of `f` is `p` trimmed at its end.
    assert(f.take(ps.len() as int) =~= ps);
    assert(f.skip((pe.len() + en.len()) as int) =~= nl);
    assert(trim_start_spec(nl) =~= empty) by {
        assert(nl.len() == 1 && nl[0] == '\n');
        assert(is_white_space('\n'));
        assert(nl.drop_first() =~= empty);
        assert(trim_start_spec(nl) == trim_start_spec(nl.drop_first()));
        assert(trim_start_spec(empty) == empty);
    }
    let u2 = user_section(f);
    assert(u2 == join_parts(trim_end_spec(ps), trim_start_spec(nl)));
    assert(u2 =~= trim_end_spec(ps));
    assert(is_white_space('\n'));
    if u.len() == 0 {
        assert(ps =~= nl);
        assert(nl =~= empty.push('\n'));
        lemma_trim_end_push_white(empty, '\n');
        assert(trim_end_spec(empty) =~= empty);
        assert(u2 =~= empty);
        assert(trim_end_spec(u) =~= empty);
    } else {
        assert(ps =~= t.push('\n').push('\n'));
        lemma_trim_end_push_white(t.push('\n'), '\n');
        lemma_trim_end_push_white(t, '\n');
        lemma_trim_end_twice(u);
        assert(u2 == t);
        assert(exclude_file_content(f, paths) == trim_end_spec(t) + nl + a);
        assert(f =~= t + nl + a);
    }
}

} // verus!
