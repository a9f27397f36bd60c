//! The registry of knowledge repositories: where each lives, which context
//! it serves and how it is synchronized.
use vstd::prelude::*;

use crate::matter::{lowercase, to_lowercase};
use crate::text::{chars_of, concat3, owned, str_eq, string_of_range};
use crate::SynapseError;

verus! {

/// The scope a repository serves.
#[derive(Debug, PartialEq, Eq, Structural)]
pub enum ContextType {
    User,
    Team,
    Project,
}

/// Who may see a repository.
#[derive(Debug, PartialEq, Eq, Structural)]
pub enum Visibility {
    Private,
    Shared,
    Mixed,
}

/// A registered repository.
pub struct RepositoryMapping {
    pub id: String,
    pub path: String,
    pub context_type: ContextType,
    pub context_id: String,
    pub visibility: Visibility,
    pub role: Option<String>,
    pub auto_index: bool,
    pub sync: RepositorySyncConfig,
}

/// How a repository is synchronized.
pub struct RepositorySyncConfig {
    pub enabled: bool,
    pub remote: Option<String>,
    pub branch: String,
}

/// All registered repositories.
pub struct RepositoriesConfig {
    pub repositories: Vec<RepositoryMapping>,
}

impl Default for RepositorySyncConfig {
    /// Synchronization off, without remote, on branch `main`.
    fn default() -> (r: RepositorySyncConfig)
        ensures
            !r.enabled,
            r.remote is None,
            r.branch@ == "main"@,
    {
        RepositorySyncConfig { enabled: false, remote: None, branch: owned("main") }
    }
}

/// Some repository has the id `id`.
pub open spec fn has_repository(rs: Seq<RepositoryMapping>, id: Seq<char>) -> bool {
    exists|i: int| 0 <= i < rs.len() && #[trigger] rs[i].id@ == id
}

/// The repositories whose id is not `id`, in order.
pub open spec fn without_id(rs: Seq<RepositoryMapping>, id: Seq<char>) -> Seq<RepositoryMapping> {
    rs.filter(|r: RepositoryMapping| r.id@ != id)
}

/// Whether some repository has the id `id`.
fn repository_exists(rs: &Vec<RepositoryMapping>, id: &String) -> (r: bool)
    ensures
        r == has_repository(rs@, id@),
{
    let mut i: usize = 0;
    while i < rs.len()
        invariant
            i <= rs.len(),
            forall|j: int| 0 <= j < i ==> #[trigger] rs@[j].id@ != id@,
        decreases rs.len() - i,
    {
        if rs[i].id == *id {
            return true;
        }
        i = i + 1;
    }
    false
}

/// Registers `mapping`, unless a repository with its id is registered
/// already: then the registry is left unchanged and the clash reported.
pub fn add_repository(config: &mut RepositoriesConfig, mapping: RepositoryMapping) -> (r: Result<(), SynapseError>)
    ensures
        r is Ok <==> !has_repository(old(config).repositories@, mapping.id@),
        r is Ok ==> final(config).repositories@ == old(config).repositories@.push(mapping),
        r matches Err(e) ==> final(config).repositories@ == old(config).repositories@ && (e matches SynapseError::Config(m)
            && m@ == "Repository with ID '"@ + mapping.id@ + "' already exists"@),
{
    if repository_exists(&config.repositories, &mapping.id) {
        let m = concat3("Repository with ID '", mapping.id.as_str(), "' already exists");
        return Err(SynapseError::Config(m));
    }
    config.repositories.push(mapping);
    Ok(())
}

/// Unregisters the repositories with id `id`; reports when there is none,
/// leaving the registry unchanged.
pub fn remove_repository(config: &mut RepositoriesConfig, id: &str) -> (r: Result<(), SynapseError>)
    ensures
        final(config).repositories@ == without_id(old(config).repositories@, id@),
        r is Ok <==> has_repository(old(config).repositories@, id@),
        r matches Err(e) ==> final(config).repositories@ == old(config).repositories@ && (e matches SynapseError::Config(m)
            && m@ == "Repository with ID '"@ + id@ + "' not found"@),
{
    let target = owned(id);
    let ghost old_rs = config.repositories@;
    let mut kept: Vec<RepositoryMapping> = Vec::new();
    let mut rest: Vec<RepositoryMapping> = Vec::new();
    std::mem::swap(&mut rest, &mut config.repositories);
    let ghost all = rest@;
    assert(rest@ =~= all.skip(0));
    let mut found = false;
    let ghost mut n: int = 0;
    while rest.len() > 0
        invariant
            target@ == id@,
            all == old_rs,
            rest@ == all.skip(n),
            0 <= n <= all.len(),
            kept@ == all.take(n).filter(|r: RepositoryMapping| r.id@ != id@),
            found == has_repository(all.take(n), id@),
        decreases rest.len(),
    {
        let r = rest.remove(0);
        proof {
            assert(r == all[n]);
            assert(all.take(n + 1).drop_last() =~= all.take(n));
            assert(all.take(n + 1).last() == all[n]);
            reveal(Seq::filter);
        }
        if r.id == target {
            found = true;
        } else {
            kept.push(r);
        }
        proof {
            assert(all.skip(n + 1) =~= all.skip(n).drop_first());
            if has_repository(all.take(n + 1), id@) {
                let i = choose|i: int| 0 <= i < all.take(n + 1).len() && #[trigger] all.take(n + 1)[i].id@ == id@;
                if i < n {
                    assert(all.take(n)[i].id@ == id@);
                }
            }
            if has_repository(all.take(n), id@) {
                let i = choose|i: int| 0 <= i < all.take(n).len() && #[trigger] all.take(n)[i].id@ == id@;
                assert(all.take(n + 1)[i].id@ == id@);
            }
            n = n + 1;
        }
    }
    proof {
        assert(all.take(n) =~= all);
    }
    if !found {
        proof {
            lemma_without_absent_id(old_rs, id@);
        }
        config.repositories = kept;
        let m = concat3("Repository with ID '", id, "' not found");
        return Err(SynapseError::Config(m));
    }
    config.repositories = kept;
    Ok(())
}

/// Removing an id that no repository has keeps every repository.
pub proof fn lemma_without_absent_id(rs: Seq<RepositoryMapping>, id: Seq<char>)
    requires
        !has_repository(rs, id),
    ensures
        without_id(rs, id) == rs,
    decreases rs.len(),
{
    reveal(Seq::filter);
    if rs.len() > 0 {
        assert(rs.drop_last().len() < rs.len());
        assert(!has_repository(rs.drop_last(), id)) by {
            if has_repository(rs.drop_last(), id) {
                let i = choose|i: int| 0 <= i < rs.drop_last().len() && #[trigger] rs.drop_last()[i].id@ == id;
                assert(rs[i].id@ == id);
            }
        }
        lemma_without_absent_id(rs.drop_last(), id);
        assert(rs[rs.len() - 1].id@ != id);
        assert(rs.drop_last().push(rs.last()) =~= rs);
    }
}

/// Registering a repository and then unregistering its id gives back the
/// registry as it was.
pub proof fn lemma_add_then_remove(rs: Seq<RepositoryMapping>, m: RepositoryMapping)
    requires
        !has_repository(rs, m.id@),
    ensures
        has_repository(rs.push(m), m.id@),
        without_id(rs.push(m), m.id@) == rs,
{
    reveal(Seq::filter);
    assert(rs.push(m)[rs.len() as int].id@ == m.id@);
    assert(rs.push(m).drop_last() =~= rs);
    lemma_without_absent_id(rs, m.id@);
}

/// The name of a scope (`user`, `team` or `project`).
pub open spec fn context_name(c: ContextType) -> Seq<char> {
    match c {
        ContextType::User => "user"@,
        ContextType::Team => "team"@,
        ContextType::Project => "project"@,
    }
}

/// Repository `r` serves scope `context` and, when an id is given, the
/// context with that id.
pub open spec fn serves(r: RepositoryMapping, context: Seq<char>, id: Option<Seq<char>>) -> bool {
    context_name(r.context_type) == context && match id {
        Some(i) => r.context_id@ == i,
        None => true,
    }
}

/// The characters of an optional string slice.
pub open spec fn opt_chars(o: Option<&str>) -> Option<Seq<char>> {
    match o {
        Some(s) => Some(s@),
        None => None,
    }
}

/// Whether `r` serves scope `context` (and context `id`, when given).
fn serves_exec(r: &RepositoryMapping, context: &str, id: Option<&str>) -> (b: bool)
    ensures
        b == serves(*r, context@, opt_chars(id)),
{
    let name = match r.context_type {
        ContextType::User => "user",
        ContextType::Team => "team",
        ContextType::Project => "project",
    };
    str_eq(name, context) && match id {
        Some(i) => str_eq(r.context_id.as_str(), i),
        None => true,
    }
}

/// The first repository that serves scope `context` (and context `id`, when
/// given), as new matter is placed.
pub fn find_repository_for(config: &RepositoriesConfig, context: &str, id: Option<&str>) -> (r: Option<usize>)
    ensures
        match r {
            Some(k) => k < config.repositories@.len() && serves(config.repositories@[k as int], context@, opt_chars(id))
                && forall|j: int| 0 <= j < k ==> !serves(#[trigger] config.repositories@[j], context@, opt_chars(id)),
            None => forall|j: int|
                0 <= j < config.repositories@.len() ==> !serves(#[trigger] config.repositories@[j], context@, opt_chars(id)),
        },
{
    let rs = &config.repositories;
    let mut i: usize = 0;
    while i < rs.len()
        invariant
            i <= rs.len(),
            rs@ == config.repositories@,
            forall|j: int| 0 <= j < i ==> !serves(#[trigger] rs@[j], context@, opt_chars(id)),
        decreases rs.len() - i,
    {
        if serves_exec(&rs[i], context, id) {
            return Some(i);
        }
        i = i + 1;
    }
    None
}

/// The positions of the repositories that serve scope `context` (any scope
/// when none is given) and context `id` (any when none is given), in order.
pub open spec fn listed_repositories(rs: Seq<RepositoryMapping>, context: Option<Seq<char>>, id: Option<Seq<char>>) -> Seq<int>
    decreases rs.len(),
{
    if rs.len() == 0 {
        Seq::empty()
    } else {
        let p = listed_repositories(rs.drop_last(), context, id);
        let r = rs.last();
        let ok = match context {
            Some(c) => context_name(r.context_type) == c,
            None => true,
        } && match id {
            Some(i) => r.context_id@ == i,
            None => true,
        };
        if ok {
            p.push(rs.len() - 1)
        } else {
            p
        }
    }
}

/// The positions of the repositories to list for scope `context` and
/// context `id`, each filter applying when given.
pub fn filter_repositories(config: &RepositoriesConfig, context: Option<&str>, id: Option<&str>) -> (r: Vec<usize>)
    ensures
        r@.map_values(|k: usize| k as int) == listed_repositories(config.repositories@, opt_chars(context), opt_chars(id)),
{
    let rs = &config.repositories;
    let mut out: Vec<usize> = Vec::new();
    let mut i: usize = 0;
    assert(rs@.take(0) =~= Seq::<RepositoryMapping>::empty());
    while i < rs.len()
        invariant
            i <= rs.len(),
            rs@ == config.repositories@,
            out@.map_values(|k: usize| k as int) == listed_repositories(rs@.take(i as int), opt_chars(context), opt_chars(id)),
        decreases rs.len() - i,
    {
        let r = &rs[i];
        proof {
            let t1 = rs@.take(i + 1);
            assert(t1.drop_last() =~= rs@.take(i as int));
            assert(t1.last() == rs@[i as int]);
        }
        let name = match r.context_type {
            ContextType::User => "user",
            ContextType::Team => "team",
            ContextType::Project => "project",
        };
        let ok = match context {
            Some(c) => str_eq(name, c),
            None => true,
        } && match id {
            Some(x) => str_eq(r.context_id.as_str(), x),
            None => true,
        };
        if ok {
            out.push(i);
            assert(out@.map_values(|k: usize| k as int) =~= listed_repositories(rs@.take(i as int), opt_chars(context), opt_chars(id)).push(i as int));
        }
        i = i + 1;
    }
    assert(rs@.take(rs@.len() as int) =~= rs@);
    out
}


/// The scope that a repository's context file names, case ignored.
pub open spec fn scope_named(name: Seq<char>) -> Option<ContextType> {
    let n = lowercase(name);
    if n == "user"@ {
        Some(ContextType::User)
    } else if n == "team"@ {
        Some(ContextType::Team)
    } else if n == "project"@ {
        Some(ContextType::Project)
    } else {
        None
    }
}

/// The visibility that a repository's context file names, case ignored:
/// private when it names none, or one not known.
pub open spec fn visibility_named(name: Option<Seq<char>>) -> Visibility {
    match name {
        Some(v) => if lowercase(v) == "shared"@ {
            Visibility::Shared
        } else if lowercase(v) == "mixed"@ {
            Visibility::Mixed
        } else {
            Visibility::Private
        },
        None => Visibility::Private,
    }
}

/// The id a repository is registered under: the scope as its context file
/// writes it, a hyphen, and the name of its directory (`repo` without one).
pub open spec fn registered_id(scope: Seq<char>, dir_name: Option<Seq<char>>) -> Seq<char> {
    scope + "-"@ + match dir_name {
        Some(d) => d,
        None => "repo"@,
    }
}

/// The registration of the repository at `path` (directory name `dir_name`)
/// whose context file names scope `scope`, context `context_id` and
/// visibility `visibility`: under the id made of the scope and the directory
/// name, indexed automatically, with no role and synchronization off. `None`
/// when the scope is not `user`, `team` or `project` (case ignored).
pub fn registration_from_context(
    scope: &str,
    context_id: &str,
    visibility: Option<&str>,
    dir_name: Option<&str>,
    path: &str,
) -> (r: Option<RepositoryMapping>)
    ensures
        r is None <==> scope_named(scope@) is None,
        r matches Some(m) ==> {
            &&& Some(m.context_type) == scope_named(scope@)
            &&& m.visibility == visibility_named(opt_chars(visibility))
            &&& m.id@ == registered_id(scope@, opt_chars(dir_name))
            &&& m.path@ == path@
            &&& m.context_id@ == context_id@
            &&& m.role is None
            &&& m.auto_index
            &&& !m.sync.enabled
            &&& m.sync.remote is None
            &&& m.sync.branch@ == "main"@
        },
{
    let n = to_lowercase(scope);
    let context_type = if str_eq(n.as_str(), "user") {
        ContextType::User
    } else if str_eq(n.as_str(), "team") {
        ContextType::Team
    } else if str_eq(n.as_str(), "project") {
        ContextType::Project
    } else {
        return None;
    };
    let vis = match visibility {
        Some(v) => {
            let lv = to_lowercase(v);
            if str_eq(lv.as_str(), "shared") {
                Visibility::Shared
            } else if str_eq(lv.as_str(), "mixed") {
                Visibility::Mixed
            } else {
                Visibility::Private
            }
        },
        None => Visibility::Private,
    };
    let dir = match dir_name {
        Some(d) => d,
        None => "repo",
    };
    let id = concat3(scope, "-", dir);
    Some(
        RepositoryMapping {
            id,
            path: owned(path),
            context_type,
            context_id: owned(context_id),
            visibility: vis,
            role: None,
            auto_index: true,
            sync: RepositorySyncConfig::default(),
        },
    )
}


/// What follows the last `/` of `s` (all of `s` when it has none).
pub open spec fn after_last_slash(s: Seq<char>) -> Seq<char>
    decreases s.len(),
{
    if s.len() == 0 {
        s
    } else if s.last() == '/' {
        Seq::empty()
    } else {
        after_last_slash(s.drop_last()).push(s.last())
    }
}

/// The directory a repository is cloned into when none is given: the last
/// segment of its URL without the `.git` ending, or `repo` when the segment
/// does not end in `.git`.
pub open spec fn clone_dir_spec(url: Seq<char>) -> Seq<char> {
    let seg = after_last_slash(url);
    if seg.len() >= 4 && seg.skip(seg.len() - 4) == ".git"@ {
        seg.take(seg.len() - 4)
    } else {
        "repo"@
    }
}

/// The directory name for a clone of `url`.
pub fn clone_dir_name(url: &str) -> (r: String)
    ensures
        r@ == clone_dir_spec(url@),
{
    let v = chars_of(url);
    let mut k = v.len();
    assert(v@.take(k as int) =~= v@);
    assert(v@.subrange(k as int, v@.len() as int) =~= Seq::<char>::empty());
    assert(after_last_slash(v@.take(k as int)) + Seq::<char>::empty() =~= after_last_slash(v@.take(k as int)));
    while k > 0 && v[k - 1] != '/'
        invariant
            k <= v.len(),
            v@ == url@,
            after_last_slash(url@) == after_last_slash(v@.take(k as int)) + v@.subrange(k as int, v@.len() as int),
        decreases k,
    {
        proof {
            let t = v@.take(k as int);
            assert(t.drop_last() =~= v@.take(k - 1));
            assert(t.last() == v@[k - 1]);
            assert(v@.subrange(k - 1, v@.len() as int) =~= seq![v@[k - 1]] + v@.subrange(k as int, v@.len() as int));
            assert(after_last_slash(v@.take(k - 1)).push(v@[k - 1]) + v@.subrange(k as int, v@.len() as int)
                =~= after_last_slash(v@.take(k - 1)) + v@.subrange(k - 1, v@.len() as int));
        }
        k = k - 1;
    }
    let ghost seg = v@.subrange(k as int, v@.len() as int);
    proof {
        if k == 0 {
            assert(v@.take(0) =~= Seq::<char>::empty());
        } else {
            assert(v@.take(k as int).last() == '/');
        }
        assert(after_last_slash(v@.take(k as int)) =~= Seq::<char>::empty());
        assert(after_last_slash(url@) =~= seg);
        reveal_strlit(".git");
    }
    let n = v.len();
    if n - k >= 4 && v[n - 4] == '.' && v[n - 3] == 'g' && v[n - 2] == 'i' && v[n - 1] == 't' {
        assert(seg.skip(seg.len() - 4) =~= ".git"@);
        let r = string_of_range(&v, k, n - 4);
        assert(v@.subrange(k as int, n - 4) =~= seg.take(seg.len() - 4));
        r
    } else {
        proof {
            if seg.len() >= 4 && seg.skip(seg.len() - 4) == ".git"@ {
                assert(seg.skip(seg.len() - 4)[0] == v@[n - 4]);
                assert(seg.skip(seg.len() - 4)[1] == v@[n - 3]);
                assert(seg.skip(seg.len() - 4)[2] == v@[n - 2]);
                assert(seg.skip(seg.len() - 4)[3] == v@[n - 1]);
            }
        }
        owned("repo")
    }
}

/// The positions of the repositories with id `id`, or of all of them
/// without one, in order.
pub open spec fn selected_repositories(rs: Seq<RepositoryMapping>, id: Option<Seq<char>>) -> Seq<int>
    decreases rs.len(),
{
    if rs.len() == 0 {
        Seq::empty()
    } else {
        let p = selected_repositories(rs.drop_last(), id);
        let ok = match id {
            Some(i) => rs.last().id@ == i,
            None => true,
        };
        if ok {
            p.push(rs.len() - 1)
        } else {
            p
        }
    }
}

/// The positions of the repositories that a sync or an index rebuild
/// covers: those with id `id`, or all of them without one.
pub fn select_repositories(config: &RepositoriesConfig, id: Option<&str>) -> (r: Vec<usize>)
    ensures
        r@.map_values(|k: usize| k as int) == selected_repositories(config.repositories@, opt_chars(id)),
{
    let rs = &config.repositories;
    let mut out: Vec<usize> = Vec::new();
    let mut i: usize = 0;
    assert(rs@.take(0) =~= Seq::<RepositoryMapping>::empty());
    assert(out@.map_values(|k: usize| k as int) =~= Seq::<int>::empty());
    while i < rs.len()
        invariant
            i <= rs.len(),
            rs@ == config.repositories@,
            out@.map_values(|k: usize| k as int) == selected_repositories(rs@.take(i as int), opt_chars(id)),
        decreases rs.len() - i,
    {
        proof {
            let t1 = rs@.take(i + 1);
            assert(t1.drop_last() =~= rs@.take(i as int));
            assert(t1.last() == rs@[i as int]);
        }
        let ok = match id {
            Some(x) => str_eq(rs[i].id.as_str(), x),
            None => true,
        };
        if ok {
            out.push(i);
            assert(out@.map_values(|k: usize| k as int) =~= selected_repositories(rs@.take(i as int), opt_chars(id)).push(
                i as int,
            ));
        }
        i = i + 1;
    }
    assert(rs@.take(rs@.len() as int) =~= rs@);
    out
}

/// What a sync does with one repository.
#[derive(Debug, Clone, Copy, PartialEq, Eq, Structural)]
pub enum RepoSyncStep {
    /// Synchronization is off for it.
    Disabled,
    /// It has no remote.
    NoRemote,
    /// Pull from and push to its remote, on its branch.
    PullPush,
}

/// The sync step for repository `r`: nothing when its synchronization is
/// off or it has no remote, else a pull and a push.
pub fn repo_sync_step(r: &RepositoryMapping) -> (s: RepoSyncStep)
    ensures
        s == (if !r.sync.enabled {
            RepoSyncStep::Disabled
        } else if r.sync.remote is None {
            RepoSyncStep::NoRemote
        } else {
            RepoSyncStep::PullPush
        }),
{
    if !r.sync.enabled {
        RepoSyncStep::Disabled
    } else if r.sync.remote.is_none() {
        RepoSyncStep::NoRemote
    } else {
        RepoSyncStep::PullPush
    }
}

} // verus!
