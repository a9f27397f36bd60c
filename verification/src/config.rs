//! Global settings and their layering: built-in defaults, then the personal,
//! team and project layers, each overriding the settings it changes, with a
//! record of which layer each setting came from.
use vstd::prelude::*;

use crate::text::{
    clone_opt, clone_strings, concat2, concat3, opt_view, owned, path_join, path_join_spec, str_eq,
    strings_eq, views,
};

verus! {

/// Global settings.
pub struct GlobalConfig {
    pub version: String,
    pub repositories_root: String,
    pub defaults: Defaults,
    pub user: UserConfig,
    pub search: SearchConfig,
    pub sync: SyncConfig,
}

/// Defaults for new matter.
pub struct Defaults {
    pub editor: String,
    pub matter_type: String,
    pub visibility: String,
}

/// The user's identity.
pub struct UserConfig {
    pub id: String,
    pub name: String,
    pub email: String,
}

/// Search index settings.
pub struct SearchConfig {
    pub index_enabled: bool,
    pub index_db: String,
    pub watch_for_changes: bool,
    pub exclude_patterns: Vec<String>,
}

/// Synchronization settings.
pub struct SyncConfig {
    pub auto_sync: bool,
    pub sync_interval_minutes: u32,
    pub remote_portal_url: Option<String>,
}

/// What the defaults depend on: the home directory and the user's account
/// and real names.
pub struct ConfigEnvironment {
    pub home: String,
    pub username: String,
    pub realname: String,
}

/// Where a setting came from.
#[derive(Debug, PartialEq, Eq)]
pub enum ConfigSource {
    Default,
    Personal,
    Team(String),
    Project(String),
}

/// The text naming a source: `default`, `personal`, `team:{id}` or
/// `project:{id}`.
pub open spec fn source_text(s: ConfigSource) -> Seq<char> {
    match s {
        ConfigSource::Default => "default"@,
        ConfigSource::Personal => "personal"@,
        ConfigSource::Team(id) => "team:"@ + id@,
        ConfigSource::Project(id) => "project:"@ + id@,
    }
}

impl ConfigSource {
    /// A copy of this source.
    pub fn copy(&self) -> (r: ConfigSource)
        ensures
            r == *self,
    {
        match self {
            ConfigSource::Default => ConfigSource::Default,
            ConfigSource::Personal => ConfigSource::Personal,
            ConfigSource::Team(id) => ConfigSource::Team(id.clone()),
            ConfigSource::Project(id) => ConfigSource::Project(id.clone()),
        }
    }

    /// The text naming this source.
    pub fn to_string(&self) -> (r: String)
        ensures
            r@ == source_text(*self),
    {
        match self {
            ConfigSource::Default => owned("default"),
            ConfigSource::Personal => owned("personal"),
            ConfigSource::Team(id) => concat2("team:", id.as_str()),
            ConfigSource::Project(id) => concat2("project:", id.as_str()),
        }
    }
}

/// The source recorded last for `key` in `entries`.
pub open spec fn lookup(entries: Seq<(String, ConfigSource)>, key: Seq<char>) -> Option<ConfigSource>
    decreases entries.len(),
{
    if entries.len() == 0 {
        None
    } else if entries.last().0@ == key {
        Some(entries.last().1)
    } else {
        lookup(entries.drop_last(), key)
    }
}

/// A map from setting names (such as `defaults.editor`) to their sources.
pub struct SourceMap {
    pub entries: Vec<(String, ConfigSource)>,
}

impl SourceMap {
    /// The source recorded for `key`, if any.
    pub open spec fn get_spec(&self, key: Seq<char>) -> Option<ConfigSource> {
        lookup(self.entries@, key)
    }

    /// An empty map.
    pub fn new() -> (r: SourceMap)
        ensures
            forall|k: Seq<char>| r.get_spec(k) is None,
    {
        SourceMap { entries: Vec::new() }
    }

    /// The source recorded for `key`, if any.
    pub fn get(&self, key: &str) -> (r: Option<&ConfigSource>)
        ensures
            r is None <==> self.get_spec(key@) is None,
            r matches Some(s) ==> self.get_spec(key@) == Some(*s),
    {
        let k = owned(key);
        let mut i = self.entries.len();
        assert(self.entries@.take(i as int) =~= self.entries@);
        while i > 0
            invariant
                i <= self.entries.len(),
                k@ == key@,
                lookup(self.entries@, key@) == lookup(self.entries@.take(i as int), key@),
            decreases i,
        {
            let ghost pre = self.entries@.take(i as int);
            assert(pre.drop_last() =~= self.entries@.take(i - 1));
            if self.entries[i - 1].0 == k {
                return Some(&self.entries[i - 1].1);
            }
            i = i - 1;
        }
        None
    }

    /// Records `source` for `key`, replacing what was recorded for it.
    pub fn insert(&mut self, key: &str, source: ConfigSource)
        ensures
            final(self).get_spec(key@) == Some(source),
            forall|k: Seq<char>| k != key@ ==> final(self).get_spec(k) == old(self).get_spec(k),
    {
        let k = owned(key);
        let mut kept: Vec<(String, ConfigSource)> = Vec::new();
        let mut i: usize = 0;
        while i < self.entries.len()
            invariant
                i <= self.entries.len(),
                k@ == key@,
                forall|kk: Seq<char>|
                    kk != key@ ==> lookup(kept@, kk) == lookup(self.entries@.take(i as int), kk),
                lookup(kept@, key@) is None,
            decreases self.entries.len() - i,
        {
            let ghost pre = self.entries@.take(i + 1);
            assert(pre.drop_last() =~= self.entries@.take(i as int));
            assert(pre.last() == self.entries@[i as int]);
            if self.entries[i].0 != k {
                let e = (self.entries[i].0.clone(), self.entries[i].1.copy());
                let ghost kept0 = kept@;
                kept.push(e);
                assert(kept@.drop_last() =~= kept0);
                assert(kept@.last() == e);
                assert(e == self.entries@[i as int]);
                assert forall|kk: Seq<char>| kk != key@ implies lookup(kept@, kk) == lookup(pre, kk) by {
                    assert(lookup(kept@, kk) == (if e.0@ == kk { Some(e.1) } else { lookup(kept0, kk) }));
                    assert(lookup(pre, kk) == (if pre.last().0@ == kk { Some(pre.last().1) } else { lookup(pre.drop_last(), kk) }));
                }
                assert(lookup(kept@, key@) is None);
            } else {
                assert forall|kk: Seq<char>| kk != key@ implies lookup(kept@, kk) == lookup(pre, kk) by {
                    assert(lookup(pre, kk) == (if pre.last().0@ == kk { Some(pre.last().1) } else { lookup(pre.drop_last(), kk) }));
                }
            }
            i = i + 1;
        }
        assert(self.entries@.take(self.entries.len() as int) =~= self.entries@);
        let ghost kept0 = kept@;
        kept.push((k, source));
        assert(kept@.drop_last() =~= kept0);
        assert(kept@.last().0@ == key@);
        assert forall|kk: Seq<char>| kk != key@ implies lookup(kept@, kk) == lookup(self.entries@, kk) by {
            assert(lookup(kept@, kk) == lookup(kept@.drop_last(), kk));
            assert(lookup(kept0, kk) == lookup(self.entries@.take(self.entries@.len() as int), kk));
        }
        self.entries = kept;
    }
}

/// The setting names, in the order in which settings are listed.
pub open spec fn setting_keys() -> Seq<Seq<char>> {
    seq![
        "version"@,
        "repositories_root"@,
        "defaults.editor"@,
        "defaults.matter_type"@,
        "defaults.visibility"@,
        "user.id"@,
        "user.name"@,
        "user.email"@,
        "search.index_enabled"@,
        "search.index_db"@,
        "search.watch_for_changes"@,
        "search.exclude_patterns"@,
        "sync.auto_sync"@,
        "sync.sync_interval_minutes"@,
        "sync.remote_portal_url"@,
    ]
}

/// The default exclusion patterns of the search index.
pub open spec fn default_exclude_patterns() -> Seq<Seq<char>> {
    seq!["node_modules/"@, ".git/"@, "*.lock"@]
}

/// The e-mail address assumed for a user name.
pub open spec fn default_email(env: ConfigEnvironment) -> Seq<char> {
    env.username@ + "@example.com"@
}

/// The settings as plain values, one field per setting.
pub ghost struct SettingsView {
    pub version: Seq<char>,
    pub repositories_root: Seq<char>,
    pub editor: Seq<char>,
    pub matter_type: Seq<char>,
    pub visibility: Seq<char>,
    pub user_id: Seq<char>,
    pub user_name: Seq<char>,
    pub user_email: Seq<char>,
    pub index_enabled: bool,
    pub index_db: Seq<char>,
    pub watch_for_changes: bool,
    pub exclude_patterns: Seq<Seq<char>>,
    pub auto_sync: bool,
    pub sync_interval_minutes: u32,
    pub remote_portal_url: Option<Seq<char>>,
}

impl View for GlobalConfig {
    type V = SettingsView;

    open spec fn view(&self) -> SettingsView {
        SettingsView {
            version: self.version@,
            repositories_root: self.repositories_root@,
            editor: self.defaults.editor@,
            matter_type: self.defaults.matter_type@,
            visibility: self.defaults.visibility@,
            user_id: self.user.id@,
            user_name: self.user.name@,
            user_email: self.user.email@,
            index_enabled: self.search.index_enabled,
            index_db: self.search.index_db@,
            watch_for_changes: self.search.watch_for_changes,
            exclude_patterns: views(self.search.exclude_patterns@),
            auto_sync: self.sync.auto_sync,
            sync_interval_minutes: self.sync.sync_interval_minutes,
            remote_portal_url: opt_view(self.sync.remote_portal_url),
        }
    }
}

/// The built-in settings for environment `env`.
pub open spec fn defaults_view(env: ConfigEnvironment) -> SettingsView {
    SettingsView {
        version: "1.0"@,
        repositories_root: path_join_spec(env.home@, "repos"@),
        editor: "code"@,
        matter_type: "document"@,
        visibility: "private"@,
        user_id: env.username@,
        user_name: env.realname@,
        user_email: default_email(env),
        index_enabled: true,
        index_db: path_join_spec(env.home@, ".pmsynapse/index.db"@),
        watch_for_changes: true,
        exclude_patterns: default_exclude_patterns(),
        auto_sync: false,
        sync_interval_minutes: 15,
        remote_portal_url: None,
    }
}

/// The setting named `key` is one that layer `s` changes from its built-in
/// value in environment `env`.
pub open spec fn layer_sets(s: SettingsView, env: ConfigEnvironment, key: Seq<char>) -> bool {
    let d = defaults_view(env);
    ||| key == "version"@ && s.version != d.version
    ||| key == "repositories_root"@ && s.repositories_root != d.repositories_root
    ||| key == "defaults.editor"@ && s.editor != d.editor
    ||| key == "defaults.matter_type"@ && s.matter_type != d.matter_type
    ||| key == "defaults.visibility"@ && s.visibility != d.visibility
    ||| key == "user.id"@ && s.user_id != d.user_id
    ||| key == "user.name"@ && s.user_name != d.user_name
    ||| key == "user.email"@ && s.user_email != d.user_email
    ||| key == "search.index_enabled"@ && !s.index_enabled
    ||| key == "search.index_db"@ && s.index_db != d.index_db
    ||| key == "search.watch_for_changes"@ && !s.watch_for_changes
    ||| key == "search.exclude_patterns"@ && s.exclude_patterns != d.exclude_patterns
    ||| key == "sync.auto_sync"@ && s.auto_sync
    ||| key == "sync.sync_interval_minutes"@ && s.sync_interval_minutes != 15
    ||| key == "sync.remote_portal_url"@ && s.remote_portal_url is Some
}

/// `t` with each setting that layer `s` changes taken from `s`.
pub open spec fn merged(t: SettingsView, s: SettingsView, env: ConfigEnvironment) -> SettingsView {
    let d = defaults_view(env);
    SettingsView {
        version: if s.version != d.version { s.version } else { t.version },
        repositories_root: if s.repositories_root != d.repositories_root {
            s.repositories_root
        } else {
            t.repositories_root
        },
        editor: if s.editor != d.editor { s.editor } else { t.editor },
        matter_type: if s.matter_type != d.matter_type { s.matter_type } else { t.matter_type },
        visibility: if s.visibility != d.visibility { s.visibility } else { t.visibility },
        user_id: if s.user_id != d.user_id { s.user_id } else { t.user_id },
        user_name: if s.user_name != d.user_name { s.user_name } else { t.user_name },
        user_email: if s.user_email != d.user_email { s.user_email } else { t.user_email },
        index_enabled: if !s.index_enabled { s.index_enabled } else { t.index_enabled },
        index_db: if s.index_db != d.index_db { s.index_db } else { t.index_db },
        watch_for_changes: if !s.watch_for_changes {
            s.watch_for_changes
        } else {
            t.watch_for_changes
        },
        exclude_patterns: if s.exclude_patterns != d.exclude_patterns {
            s.exclude_patterns
        } else {
            t.exclude_patterns
        },
        auto_sync: if s.auto_sync { s.auto_sync } else { t.auto_sync },
        sync_interval_minutes: if s.sync_interval_minutes != 15 {
            s.sync_interval_minutes
        } else {
            t.sync_interval_minutes
        },
        remote_portal_url: if s.remote_portal_url is Some {
            s.remote_portal_url
        } else {
            t.remote_portal_url
        },
    }
}

/// `sources` after recording `st` for each setting that layer `s` changes.
pub open spec fn merged_source(
    old_source: Option<ConfigSource>,
    s: SettingsView,
    env: ConfigEnvironment,
    st: ConfigSource,
    key: Seq<char>,
) -> Option<ConfigSource> {
    if layer_sets(s, env, key) {
        Some(st)
    } else {
        old_source
    }
}

/// The setting names are distinct.
pub proof fn lemma_setting_keys_distinct()
    ensures
        forall|i: int, j: int|
            0 <= i < j < 15 ==> #[trigger] setting_keys()[i] != #[trigger] setting_keys()[j],
{
    reveal_strlit("version");
    reveal_strlit("repositories_root");
    reveal_strlit("defaults.editor");
    reveal_strlit("defaults.matter_type");
    reveal_strlit("defaults.visibility");
    reveal_strlit("user.id");
    reveal_strlit("user.name");
    reveal_strlit("user.email");
    reveal_strlit("search.index_enabled");
    reveal_strlit("search.index_db");
    reveal_strlit("search.watch_for_changes");
    reveal_strlit("search.exclude_patterns");
    reveal_strlit("sync.auto_sync");
    reveal_strlit("sync.sync_interval_minutes");
    reveal_strlit("sync.remote_portal_url");
    let k = setting_keys();
    assert forall|i: int, j: int| 0 <= i < j < 15 implies #[trigger] k[i] != #[trigger] k[j] by {
        assert(k[i].len() != k[j].len() || k[i][0] != k[j][0] || k[i][1] != k[j][1] || k[i][8] != k[j][8]
            || k[i][9] != k[j][9] || k[i][10] != k[j][10] || k[i][7] != k[j][7] || k[i][5] != k[j][5]);
    }
}


/// The environment of this process: the home directory (`dirs::home_dir`,
/// empty when unknown) and the account and real names of the user
/// (`whoami::username`, `whoami::realname`). Nothing is promised of them:
/// they come from the machine.
#[verifier::external_body]
pub(crate) fn current_environment() -> ConfigEnvironment {
    let home = dirs::home_dir().unwrap_or_default().to_string_lossy().to_string();
    ConfigEnvironment { home, username: whoami::username(), realname: whoami::realname() }
}

/// The e-mail address assumed for the user of `env`.
fn email_for(env: &ConfigEnvironment) -> (r: String)
    ensures
        r@ == default_email(*env),
{
    concat2(env.username.as_str(), "@example.com")
}

/// The default exclusion patterns of the search index.
fn exclude_patterns() -> (r: Vec<String>)
    ensures
        views(r@) == default_exclude_patterns(),
{
    let mut v: Vec<String> = Vec::new();
    v.push(owned("node_modules/"));
    v.push(owned(".git/"));
    v.push(owned("*.lock"));
    assert(views(v@) =~= default_exclude_patterns());
    v
}

impl GlobalConfig {
    /// The built-in settings for environment `env`: version 1.0, repositories
    /// under `{home}/repos`, editor `code`, new matter as private documents,
    /// the user's names with an `@example.com` address, an enabled and
    /// watched index at `{home}/.pmsynapse/index.db` excluding
    /// `node_modules/`, `.git/` and `*.lock`, and no automatic sync, every
    /// 15 minutes, without a portal.
    pub fn defaults_for(env: &ConfigEnvironment) -> (r: GlobalConfig)
        ensures
            r@ == defaults_view(*env),
    {
        let r = GlobalConfig {
            version: owned("1.0"),
            repositories_root: path_join(env.home.as_str(), "repos"),
            defaults: Defaults {
                editor: owned("code"),
                matter_type: owned("document"),
                visibility: owned("private"),
            },
            user: UserConfig {
                id: env.username.clone(),
                name: env.realname.clone(),
                email: email_for(env),
            },
            search: SearchConfig {
                index_enabled: true,
                index_db: path_join(env.home.as_str(), ".pmsynapse/index.db"),
                watch_for_changes: true,
                exclude_patterns: exclude_patterns(),
            },
            sync: SyncConfig { auto_sync: false, sync_interval_minutes: 15, remote_portal_url: None },
        };
        r
    }
}

impl Default for GlobalConfig {
    /// The built-in settings for the environment of this process.
    fn default() -> (r: GlobalConfig)
        ensures
            exists|env: ConfigEnvironment| r@ == defaults_view(env),
    {
        let env = current_environment();
        GlobalConfig::defaults_for(&env)
    }
}

/// Records the built-in source for every setting.
pub fn track_sources_for_default(sources: &mut SourceMap)
    ensures
        forall|k: Seq<char>|
            #![trigger final(sources).get_spec(k)]
            final(sources).get_spec(k) == if setting_keys().contains(k) {
                Some(ConfigSource::Default)
            } else {
                old(sources).get_spec(k)
            },
{
    sources.insert("version", ConfigSource::Default);
    sources.insert("repositories_root", ConfigSource::Default);
    sources.insert("defaults.editor", ConfigSource::Default);
    sources.insert("defaults.matter_type", ConfigSource::Default);
    sources.insert("defaults.visibility", ConfigSource::Default);
    sources.insert("user.id", ConfigSource::Default);
    sources.insert("user.name", ConfigSource::Default);
    sources.insert("user.email", ConfigSource::Default);
    sources.insert("search.index_enabled", ConfigSource::Default);
    sources.insert("search.index_db", ConfigSource::Default);
    sources.insert("search.watch_for_changes", ConfigSource::Default);
    sources.insert("search.exclude_patterns", ConfigSource::Default);
    sources.insert("sync.auto_sync", ConfigSource::Default);
    sources.insert("sync.sync_interval_minutes", ConfigSource::Default);
    sources.insert("sync.remote_portal_url", ConfigSource::Default);
    proof {
        let keys = setting_keys();
        assert forall|k: Seq<char>| keys.contains(k) <==> (k == "version"@ || k == "repositories_root"@
            || k == "defaults.editor"@ || k == "defaults.matter_type"@ || k == "defaults.visibility"@
            || k == "user.id"@ || k == "user.name"@ || k == "user.email"@ || k
            == "search.index_enabled"@ || k == "search.index_db"@ || k == "search.watch_for_changes"@
            || k == "search.exclude_patterns"@ || k == "sync.auto_sync"@ || k
            == "sync.sync_interval_minutes"@ || k == "sync.remote_portal_url"@) by {
            if keys.contains(k) {
                let i = choose|i: int| 0 <= i < keys.len() && keys[i] == k;
            }
            if k == "version"@ { assert(keys[0] == k); }
            if k == "repositories_root"@ { assert(keys[1] == k); }
            if k == "defaults.editor"@ { assert(keys[2] == k); }
            if k == "defaults.matter_type"@ { assert(keys[3] == k); }
            if k == "defaults.visibility"@ { assert(keys[4] == k); }
            if k == "user.id"@ { assert(keys[5] == k); }
            if k == "user.name"@ { assert(keys[6] == k); }
            if k == "user.email"@ { assert(keys[7] == k); }
            if k == "search.index_enabled"@ { assert(keys[8] == k); }
            if k == "search.index_db"@ { assert(keys[9] == k); }
            if k == "search.watch_for_changes"@ { assert(keys[10] == k); }
            if k == "search.exclude_patterns"@ { assert(keys[11] == k); }
            if k == "sync.auto_sync"@ { assert(keys[12] == k); }
            if k == "sync.sync_interval_minutes"@ { assert(keys[13] == k); }
            if k == "sync.remote_portal_url"@ { assert(keys[14] == k); }
        }
    }
}


fn merge_version(
    target: &mut GlobalConfig,
    source: &GlobalConfig,
    sources: &mut SourceMap,
    source_type: &ConfigSource,
    d: &GlobalConfig,
    env: &ConfigEnvironment,
)
    requires
        d@ == defaults_view(*env),
    ensures
        final(target)@ == (SettingsView {
            version: if source@.version != d@.version { source@.version } else { old(target)@.version },
            ..old(target)@
        }),
        forall|k: Seq<char>|
            #![trigger final(sources).get_spec(k)]
            final(sources).get_spec(k) == if k == "version"@ && source@.version != d@.version {
                Some(*source_type)
            } else {
                old(sources).get_spec(k)
            },
{
    if !str_eq(source.version.as_str(), "1.0") {
        target.version = source.version.clone();
        sources.insert("version", source_type.copy());
    }
}

fn merge_repositories_root(
    target: &mut GlobalConfig,
    source: &GlobalConfig,
    sources: &mut SourceMap,
    source_type: &ConfigSource,
    d: &GlobalConfig,
    env: &ConfigEnvironment,
)
    requires
        d@ == defaults_view(*env),
    ensures
        final(target)@ == (SettingsView {
            repositories_root: if source@.repositories_root != d@.repositories_root { source@.repositories_root } else { old(target)@.repositories_root },
            ..old(target)@
        }),
        forall|k: Seq<char>|
            #![trigger final(sources).get_spec(k)]
            final(sources).get_spec(k) == if k == "repositories_root"@ && source@.repositories_root != d@.repositories_root {
                Some(*source_type)
            } else {
                old(sources).get_spec(k)
            },
{
    if source.repositories_root != d.repositories_root {
        target.repositories_root = source.repositories_root.clone();
        sources.insert("repositories_root", source_type.copy());
    }
}

fn merge_editor(
    target: &mut GlobalConfig,
    source: &GlobalConfig,
    sources: &mut SourceMap,
    source_type: &ConfigSource,
    d: &GlobalConfig,
    env: &ConfigEnvironment,
)
    requires
        d@ == defaults_view(*env),
    ensures
        final(target)@ == (SettingsView {
            editor: if source@.editor != d@.editor { source@.editor } else { old(target)@.editor },
            ..old(target)@
        }),
        forall|k: Seq<char>|
            #![trigger final(sources).get_spec(k)]
            final(sources).get_spec(k) == if k == "defaults.editor"@ && source@.editor != d@.editor {
                Some(*source_type)
            } else {
                old(sources).get_spec(k)
            },
{
    if !str_eq(source.defaults.editor.as_str(), "code") {
        target.defaults.editor = source.defaults.editor.clone();
        sources.insert("defaults.editor", source_type.copy());
    }
}

fn merge_matter_type(
    target: &mut GlobalConfig,
    source: &GlobalConfig,
    sources: &mut SourceMap,
    source_type: &ConfigSource,
    d: &GlobalConfig,
    env: &ConfigEnvironment,
)
    requires
        d@ == defaults_view(*env),
    ensures
        final(target)@ == (SettingsView {
            matter_type: if source@.matter_type != d@.matter_type { source@.matter_type } else { old(target)@.matter_type },
            ..old(target)@
        }),
        forall|k: Seq<char>|
            #![trigger final(sources).get_spec(k)]
            final(sources).get_spec(k) == if k == "defaults.matter_type"@ && source@.matter_type != d@.matter_type {
                Some(*source_type)
            } else {
                old(sources).get_spec(k)
            },
{
    if !str_eq(source.defaults.matter_type.as_str(), "document") {
        target.defaults.matter_type = source.defaults.matter_type.clone();
        sources.insert("defaults.matter_type", source_type.copy());
    }
}

fn merge_visibility(
    target: &mut GlobalConfig,
    source: &GlobalConfig,
    sources: &mut SourceMap,
    source_type: &ConfigSource,
    d: &GlobalConfig,
    env: &ConfigEnvironment,
)
    requires
        d@ == defaults_view(*env),
    ensures
        final(target)@ == (SettingsView {
            visibility: if source@.visibility != d@.visibility { source@.visibility } else { old(target)@.visibility },
            ..old(target)@
        }),
        forall|k: Seq<char>|
            #![trigger final(sources).get_spec(k)]
            final(sources).get_spec(k) == if k == "defaults.visibility"@ && source@.visibility != d@.visibility {
                Some(*source_type)
            } else {
                old(sources).get_spec(k)
            },
{
    if !str_eq(source.defaults.visibility.as_str(), "private") {
        target.defaults.visibility = source.defaults.visibility.clone();
        sources.insert("defaults.visibility", source_type.copy());
    }
}

fn merge_user_id(
    target: &mut GlobalConfig,
    source: &GlobalConfig,
    sources: &mut SourceMap,
    source_type: &ConfigSource,
    d: &GlobalConfig,
    env: &ConfigEnvironment,
)
    requires
        d@ == defaults_view(*env),
    ensures
        final(target)@ == (SettingsView {
            user_id: if source@.user_id != d@.user_id { source@.user_id } else { old(target)@.user_id },
            ..old(target)@
        }),
        forall|k: Seq<char>|
            #![trigger final(sources).get_spec(k)]
            final(sources).get_spec(k) == if k == "user.id"@ && source@.user_id != d@.user_id {
                Some(*source_type)
            } else {
                old(sources).get_spec(k)
            },
{
    if source.user.id != d.user.id {
        target.user.id = source.user.id.clone();
        sources.insert("user.id", source_type.copy());
    }
}

fn merge_user_name(
    target: &mut GlobalConfig,
    source: &GlobalConfig,
    sources: &mut SourceMap,
    source_type: &ConfigSource,
    d: &GlobalConfig,
    env: &ConfigEnvironment,
)
    requires
        d@ == defaults_view(*env),
    ensures
        final(target)@ == (SettingsView {
            user_name: if source@.user_name != d@.user_name { source@.user_name } else { old(target)@.user_name },
            ..old(target)@
        }),
        forall|k: Seq<char>|
            #![trigger final(sources).get_spec(k)]
            final(sources).get_spec(k) == if k == "user.name"@ && source@.user_name != d@.user_name {
                Some(*source_type)
            } else {
                old(sources).get_spec(k)
            },
{
    if source.user.name != d.user.name {
        target.user.name = source.user.name.clone();
        sources.insert("user.name", source_type.copy());
    }
}

fn merge_user_email(
    target: &mut GlobalConfig,
    source: &GlobalConfig,
    sources: &mut SourceMap,
    source_type: &ConfigSource,
    d: &GlobalConfig,
    env: &ConfigEnvironment,
)
    requires
        d@ == defaults_view(*env),
    ensures
        final(target)@ == (SettingsView {
            user_email: if source@.user_email != d@.user_email { source@.user_email } else { old(target)@.user_email },
            ..old(target)@
        }),
        forall|k: Seq<char>|
            #![trigger final(sources).get_spec(k)]
            final(sources).get_spec(k) == if k == "user.email"@ && source@.user_email != d@.user_email {
                Some(*source_type)
            } else {
                old(sources).get_spec(k)
            },
{
    if source.user.email != d.user.email {
        target.user.email = source.user.email.clone();
        sources.insert("user.email", source_type.copy());
    }
}

fn merge_index_enabled(
    target: &mut GlobalConfig,
    source: &GlobalConfig,
    sources: &mut SourceMap,
    source_type: &ConfigSource,
    d: &GlobalConfig,
    env: &ConfigEnvironment,
)
    requires
        d@ == defaults_view(*env),
    ensures
        final(target)@ == (SettingsView {
            index_enabled: if !source@.index_enabled { source@.index_enabled } else { old(target)@.index_enabled },
            ..old(target)@
        }),
        forall|k: Seq<char>|
            #![trigger final(sources).get_spec(k)]
            final(sources).get_spec(k) == if k == "search.index_enabled"@ && !source@.index_enabled {
                Some(*source_type)
            } else {
                old(sources).get_spec(k)
            },
{
    if !source.search.index_enabled {
        target.search.index_enabled = source.search.index_enabled;
        sources.insert("search.index_enabled", source_type.copy());
    }
}

fn merge_index_db(
    target: &mut GlobalConfig,
    source: &GlobalConfig,
    sources: &mut SourceMap,
    source_type: &ConfigSource,
    d: &GlobalConfig,
    env: &ConfigEnvironment,
)
    requires
        d@ == defaults_view(*env),
    ensures
        final(target)@ == (SettingsView {
            index_db: if source@.index_db != d@.index_db { source@.index_db } else { old(target)@.index_db },
            ..old(target)@
        }),
        forall|k: Seq<char>|
            #![trigger final(sources).get_spec(k)]
            final(sources).get_spec(k) == if k == "search.index_db"@ && source@.index_db != d@.index_db {
                Some(*source_type)
            } else {
                old(sources).get_spec(k)
            },
{
    if source.search.index_db != d.search.index_db {
        target.search.index_db = source.search.index_db.clone();
        sources.insert("search.index_db", source_type.copy());
    }
}

fn merge_watch_for_changes(
    target: &mut GlobalConfig,
    source: &GlobalConfig,
    sources: &mut SourceMap,
    source_type: &ConfigSource,
    d: &GlobalConfig,
    env: &ConfigEnvironment,
)
    requires
        d@ == defaults_view(*env),
    ensures
        final(target)@ == (SettingsView {
            watch_for_changes: if !source@.watch_for_changes { source@.watch_for_changes } else { old(target)@.watch_for_changes },
            ..old(target)@
        }),
        forall|k: Seq<char>|
            #![trigger final(sources).get_spec(k)]
            final(sources).get_spec(k) == if k == "search.watch_for_changes"@ && !source@.watch_for_changes {
                Some(*source_type)
            } else {
                old(sources).get_spec(k)
            },
{
    if !source.search.watch_for_changes {
        target.search.watch_for_changes = source.search.watch_for_changes;
        sources.insert("search.watch_for_changes", source_type.copy());
    }
}

fn merge_exclude_patterns(
    target: &mut GlobalConfig,
    source: &GlobalConfig,
    sources: &mut SourceMap,
    source_type: &ConfigSource,
    d: &GlobalConfig,
    env: &ConfigEnvironment,
)
    requires
        d@ == defaults_view(*env),
    ensures
        final(target)@ == (SettingsView {
            exclude_patterns: if source@.exclude_patterns != d@.exclude_patterns { source@.exclude_patterns } else { old(target)@.exclude_patterns },
            ..old(target)@
        }),
        forall|k: Seq<char>|
            #![trigger final(sources).get_spec(k)]
            final(sources).get_spec(k) == if k == "search.exclude_patterns"@ && source@.exclude_patterns != d@.exclude_patterns {
                Some(*source_type)
            } else {
                old(sources).get_spec(k)
            },
{
    if !strings_eq(&source.search.exclude_patterns, &d.search.exclude_patterns) {
        target.search.exclude_patterns = clone_strings(&source.search.exclude_patterns);
        sources.insert("search.exclude_patterns", source_type.copy());
    }
}

fn merge_auto_sync(
    target: &mut GlobalConfig,
    source: &GlobalConfig,
    sources: &mut SourceMap,
    source_type: &ConfigSource,
    d: &GlobalConfig,
    env: &ConfigEnvironment,
)
    requires
        d@ == defaults_view(*env),
    ensures
        final(target)@ == (SettingsView {
            auto_sync: if source@.auto_sync { source@.auto_sync } else { old(target)@.auto_sync },
            ..old(target)@
        }),
        forall|k: Seq<char>|
            #![trigger final(sources).get_spec(k)]
            final(sources).get_spec(k) == if k == "sync.auto_sync"@ && source@.auto_sync {
                Some(*source_type)
            } else {
                old(sources).get_spec(k)
            },
{
    if source.sync.auto_sync {
        target.sync.auto_sync = source.sync.auto_sync;
        sources.insert("sync.auto_sync", source_type.copy());
    }
}

fn merge_sync_interval_minutes(
    target: &mut GlobalConfig,
    source: &GlobalConfig,
    sources: &mut SourceMap,
    source_type: &ConfigSource,
    d: &GlobalConfig,
    env: &ConfigEnvironment,
)
    requires
        d@ == defaults_view(*env),
    ensures
        final(target)@ == (SettingsView {
            sync_interval_minutes: if source@.sync_interval_minutes != 15 { source@.sync_interval_minutes } else { old(target)@.sync_interval_minutes },
            ..old(target)@
        }),
        forall|k: Seq<char>|
            #![trigger final(sources).get_spec(k)]
            final(sources).get_spec(k) == if k == "sync.sync_interval_minutes"@ && source@.sync_interval_minutes != 15 {
                Some(*source_type)
            } else {
                old(sources).get_spec(k)
            },
{
    if source.sync.sync_interval_minutes != 15 {
        target.sync.sync_interval_minutes = source.sync.sync_interval_minutes;
        sources.insert("sync.sync_interval_minutes", source_type.copy());
    }
}

fn merge_remote_portal_url(
    target: &mut GlobalConfig,
    source: &GlobalConfig,
    sources: &mut SourceMap,
    source_type: &ConfigSource,
    d: &GlobalConfig,
    env: &ConfigEnvironment,
)
    requires
        d@ == defaults_view(*env),
    ensures
        final(target)@ == (SettingsView {
            remote_portal_url: if source@.remote_portal_url is Some { source@.remote_portal_url } else { old(target)@.remote_portal_url },
            ..old(target)@
        }),
        forall|k: Seq<char>|
            #![trigger final(sources).get_spec(k)]
            final(sources).get_spec(k) == if k == "sync.remote_portal_url"@ && source@.remote_portal_url is Some {
                Some(*source_type)
            } else {
                old(sources).get_spec(k)
            },
{
    if source.sync.remote_portal_url.is_some() {
        target.sync.remote_portal_url = clone_opt(&source.sync.remote_portal_url);
        sources.insert("sync.remote_portal_url", source_type.copy());
    }
}

/// Applies layer `source` over `target`: each setting that the layer changes
/// from its built-in value (in environment `env`) is taken from the layer
/// and recorded in `sources` as coming from `source_type`; every other
/// setting and record is left as it was.
pub fn merge_config(
    target: &mut GlobalConfig,
    source: &GlobalConfig,
    sources: &mut SourceMap,
    source_type: ConfigSource,
    env: &ConfigEnvironment,
)
    ensures
        final(target)@ == merged(old(target)@, source@, *env),
        forall|k: Seq<char>|
            #![trigger final(sources).get_spec(k)]
            final(sources).get_spec(k) == merged_source(
                old(sources).get_spec(k),
                source@,
                *env,
                source_type,
                k,
            ),
{
    let d = GlobalConfig::defaults_for(env);
    let ghost t0 = target@;
    merge_version(target, source, sources, &source_type, &d, env);
    merge_repositories_root(target, source, sources, &source_type, &d, env);
    merge_editor(target, source, sources, &source_type, &d, env);
    merge_matter_type(target, source, sources, &source_type, &d, env);
    merge_visibility(target, source, sources, &source_type, &d, env);
    merge_user_id(target, source, sources, &source_type, &d, env);
    merge_user_name(target, source, sources, &source_type, &d, env);
    merge_user_email(target, source, sources, &source_type, &d, env);
    merge_index_enabled(target, source, sources, &source_type, &d, env);
    merge_index_db(target, source, sources, &source_type, &d, env);
    merge_watch_for_changes(target, source, sources, &source_type, &d, env);
    merge_exclude_patterns(target, source, sources, &source_type, &d, env);
    merge_auto_sync(target, source, sources, &source_type, &d, env);
    merge_sync_interval_minutes(target, source, sources, &source_type, &d, env);
    merge_remote_portal_url(target, source, sources, &source_type, &d, env);
    assert(target@ =~= merged(t0, source@, *env));
}


/// Settings merged from all layers, with the layer each setting came from.
pub struct MergedConfig {
    pub config: GlobalConfig,
    pub sources: SourceMap,
}

/// The setting layers read from disk, each absent when its file is.
pub struct ConfigLayers {
    pub personal: Option<GlobalConfig>,
    pub team: Option<GlobalConfig>,
    pub project: Option<GlobalConfig>,
}

/// A source as a plain value.
pub ghost enum SourceView {
    Default,
    Personal,
    Team(Seq<char>),
    Project(Seq<char>),
}

impl View for ConfigSource {
    type V = SourceView;

    open spec fn view(&self) -> SourceView {
        match self {
            ConfigSource::Default => SourceView::Default,
            ConfigSource::Personal => SourceView::Personal,
            ConfigSource::Team(id) => SourceView::Team(id@),
            ConfigSource::Project(id) => SourceView::Project(id@),
        }
    }
}

/// An optional source as a plain value.
pub open spec fn source_opt_view(o: Option<ConfigSource>) -> Option<SourceView> {
    match o {
        Some(s) => Some(s@),
        None => None,
    }
}

/// `v` after applying `layer`, if there is one.
pub open spec fn apply_layer(v: SettingsView, layer: Option<GlobalConfig>, env: ConfigEnvironment) -> SettingsView {
    match layer {
        Some(l) => merged(v, l@, env),
        None => v,
    }
}

/// The source of setting `k` after applying `layer` as `st`, if there is one.
pub open spec fn apply_layer_source(
    src: Option<SourceView>,
    layer: Option<GlobalConfig>,
    env: ConfigEnvironment,
    st: SourceView,
    k: Seq<char>,
) -> Option<SourceView> {
    match layer {
        Some(l) => if layer_sets(l@, env, k) { Some(st) } else { src },
        None => src,
    }
}

/// The source recorded for `k` before any layer: the built-in one for each
/// setting.
pub open spec fn default_source(k: Seq<char>) -> Option<SourceView> {
    if setting_keys().contains(k) {
        Some(SourceView::Default)
    } else {
        None
    }
}

/// The team layer that applies: only with a team id.
pub open spec fn team_layer(team_id: Option<Seq<char>>, layers: ConfigLayers) -> Option<GlobalConfig> {
    if team_id is Some { layers.team } else { None }
}

/// The project layer that applies: only with a project id.
pub open spec fn project_layer(project_id: Option<Seq<char>>, layers: ConfigLayers) -> Option<GlobalConfig> {
    if project_id is Some { layers.project } else { None }
}

/// The optional characters of an optional string slice.
pub open spec fn opt_str_view(o: Option<&str>) -> Option<Seq<char>> {
    match o {
        Some(s) => Some(s@),
        None => None,
    }
}

/// The settings after all layers: built-in, personal, team, project.
pub open spec fn merged_settings(
    team_id: Option<Seq<char>>,
    project_id: Option<Seq<char>>,
    env: ConfigEnvironment,
    layers: ConfigLayers,
) -> SettingsView {
    apply_layer(
        apply_layer(
            apply_layer(defaults_view(env), layers.personal, env),
            team_layer(team_id, layers),
            env,
        ),
        project_layer(project_id, layers),
        env,
    )
}

/// The source of setting `k` after all layers.
pub open spec fn merged_settings_source(
    team_id: Option<Seq<char>>,
    project_id: Option<Seq<char>>,
    env: ConfigEnvironment,
    layers: ConfigLayers,
    k: Seq<char>,
) -> Option<SourceView> {
    apply_layer_source(
        apply_layer_source(
            apply_layer_source(default_source(k), layers.personal, env, SourceView::Personal, k),
            team_layer(team_id, layers),
            env,
            SourceView::Team(team_id->0),
            k,
        ),
        project_layer(project_id, layers),
        env,
        SourceView::Project(project_id->0),
        k,
    )
}

/// Merges the layers over the built-in settings of `env`: the personal
/// layer, then the team layer when a team is named, then the project layer
/// when a project is named; each changed setting overrides what came before
/// and is recorded with the layer it came from.
pub fn load_merged_config(
    team_id: Option<&str>,
    project_id: Option<&str>,
    env: &ConfigEnvironment,
    layers: ConfigLayers,
) -> (r: MergedConfig)
    ensures
        r.config@ == merged_settings(opt_str_view(team_id), opt_str_view(project_id), *env, layers),
        forall|k: Seq<char>|
            #![trigger r.sources.get_spec(k)]
            source_opt_view(r.sources.get_spec(k)) == merged_settings_source(
                opt_str_view(team_id),
                opt_str_view(project_id),
                *env,
                layers,
                k,
            ),
{
    let ghost l0 = layers;
    let mut config = GlobalConfig::defaults_for(env);
    let mut sources = SourceMap::new();
    track_sources_for_default(&mut sources);
    assert forall|k: Seq<char>| #![trigger sources.get_spec(k)] source_opt_view(sources.get_spec(k)) == default_source(k) by {}
    let ConfigLayers { personal, team, project } = layers;
    if let Some(p) = &personal {
        merge_config(&mut config, p, &mut sources, ConfigSource::Personal, env);
    }
    let ghost s1 = sources;
    if let Some(t) = team_id {
        if let Some(tc) = &team {
            merge_config(&mut config, tc, &mut sources, ConfigSource::Team(owned(t)), env);
        }
    }
    let ghost s2 = sources;
    if let Some(pid) = project_id {
        if let Some(pc) = &project {
            merge_config(&mut config, pc, &mut sources, ConfigSource::Project(owned(pid)), env);
        }
    }
    MergedConfig { config, sources }
}

/// The path of the personal settings file in directory `global_dir`.
pub fn personal_config_path(global_dir: &str) -> (r: String)
    ensures
        r@ == path_join_spec(global_dir@, "config.yaml"@),
{
    path_join(global_dir, "config.yaml")
}

/// The path of team `team`'s settings file in directory `global_dir`.
pub fn team_config_path(global_dir: &str, team: &str) -> (r: String)
    ensures
        r@ == path_join_spec(
            path_join_spec(path_join_spec(global_dir@, "teams"@), team@),
            "config.yaml"@,
        ),
{
    let a = path_join(global_dir, "teams");
    let b = path_join(a.as_str(), team);
    path_join(b.as_str(), "config.yaml")
}

/// The path of project `project`'s settings file in directory `global_dir`,
/// under team `team_id` or, when no team is named, team `default`.
pub fn project_config_path(global_dir: &str, team_id: Option<&str>, project: &str) -> (r: String)
    ensures
        r@ == path_join_spec(
            path_join_spec(
                path_join_spec(
                    path_join_spec(
                        path_join_spec(global_dir@, "teams"@),
                        match team_id {
                            Some(t) => t@,
                            None => "default"@,
                        },
                    ),
                    "projects"@,
                ),
                project@,
            ),
            "config.yaml"@,
        ),
{
    let a = path_join(global_dir, "teams");
    let b = match team_id {
        Some(t) => path_join(a.as_str(), t),
        None => path_join(a.as_str(), "default"),
    };
    let c = path_join(b.as_str(), "projects");
    let d = path_join(c.as_str(), project);
    path_join(d.as_str(), "config.yaml")
}

/// The library's directory `.pmsynapse` in home directory `home`.
pub fn pmsynapse_dir_in(home: &str) -> (r: String)
    ensures
        r@ == path_join_spec(home@, ".pmsynapse"@),
{
    path_join(home, ".pmsynapse")
}

/// The library's directory `.pmsynapse` in the home directory of this
/// process (the current directory's relative path when the home is unknown).
pub fn get_pmsynapse_global_dir() -> (r: String)
    ensures
        exists|env: ConfigEnvironment| r@ == path_join_spec(env.home@, ".pmsynapse"@),
{
    let env = current_environment();
    pmsynapse_dir_in(env.home.as_str())
}


/// Merging a layer takes from it exactly the settings it changes from their
/// built-in values: each such setting gets the layer's value, and every
/// setting the layer leaves at its built-in value keeps its earlier value.
pub proof fn lemma_merge_takes_changed_settings(t: SettingsView, s: SettingsView, env: ConfigEnvironment)
    ensures
        s.version != defaults_view(env).version ==> merged(t, s, env).version == s.version,
        s.version == defaults_view(env).version ==> merged(t, s, env).version == t.version,
        s.repositories_root != defaults_view(env).repositories_root ==> merged(t, s, env).repositories_root == s.repositories_root,
        s.repositories_root == defaults_view(env).repositories_root ==> merged(t, s, env).repositories_root == t.repositories_root,
        s.editor != defaults_view(env).editor ==> merged(t, s, env).editor == s.editor,
        s.editor == defaults_view(env).editor ==> merged(t, s, env).editor == t.editor,
        s.matter_type != defaults_view(env).matter_type ==> merged(t, s, env).matter_type == s.matter_type,
        s.matter_type == defaults_view(env).matter_type ==> merged(t, s, env).matter_type == t.matter_type,
        s.visibility != defaults_view(env).visibility ==> merged(t, s, env).visibility == s.visibility,
        s.visibility == defaults_view(env).visibility ==> merged(t, s, env).visibility == t.visibility,
        s.user_id != defaults_view(env).user_id ==> merged(t, s, env).user_id == s.user_id,
        s.user_id == defaults_view(env).user_id ==> merged(t, s, env).user_id == t.user_id,
        s.user_name != defaults_view(env).user_name ==> merged(t, s, env).user_name == s.user_name,
        s.user_name == defaults_view(env).user_name ==> merged(t, s, env).user_name == t.user_name,
        s.user_email != defaults_view(env).user_email ==> merged(t, s, env).user_email == s.user_email,
        s.user_email == defaults_view(env).user_email ==> merged(t, s, env).user_email == t.user_email,
        s.index_enabled != defaults_view(env).index_enabled ==> merged(t, s, env).index_enabled == s.index_enabled,
        s.index_enabled == defaults_view(env).index_enabled ==> merged(t, s, env).index_enabled == t.index_enabled,
        s.index_db != defaults_view(env).index_db ==> merged(t, s, env).index_db == s.index_db,
        s.index_db == defaults_view(env).index_db ==> merged(t, s, env).index_db == t.index_db,
        s.watch_for_changes != defaults_view(env).watch_for_changes ==> merged(t, s, env).watch_for_changes == s.watch_for_changes,
        s.watch_for_changes == defaults_view(env).watch_for_changes ==> merged(t, s, env).watch_for_changes == t.watch_for_changes,
        s.exclude_patterns != defaults_view(env).exclude_patterns ==> merged(t, s, env).exclude_patterns == s.exclude_patterns,
        s.exclude_patterns == defaults_view(env).exclude_patterns ==> merged(t, s, env).exclude_patterns == t.exclude_patterns,
        s.auto_sync != defaults_view(env).auto_sync ==> merged(t, s, env).auto_sync == s.auto_sync,
        s.auto_sync == defaults_view(env).auto_sync ==> merged(t, s, env).auto_sync == t.auto_sync,
        s.sync_interval_minutes != defaults_view(env).sync_interval_minutes ==> merged(t, s, env).sync_interval_minutes == s.sync_interval_minutes,
        s.sync_interval_minutes == defaults_view(env).sync_interval_minutes ==> merged(t, s, env).sync_interval_minutes == t.sync_interval_minutes,
        s.remote_portal_url != defaults_view(env).remote_portal_url ==> merged(t, s, env).remote_portal_url == s.remote_portal_url,
        s.remote_portal_url == defaults_view(env).remote_portal_url ==> merged(t, s, env).remote_portal_url == t.remote_portal_url,
{
}

/// Merging a layer records it as the source of exactly the settings it
/// changes from their built-in values; every other record is kept.
pub proof fn lemma_merge_records_changed_settings(
    o: Option<ConfigSource>,
    s: SettingsView,
    env: ConfigEnvironment,
    st: ConfigSource,
)
    ensures
        merged_source(o, s, env, st, "version"@) == if s.version != defaults_view(env).version {
            Some(st)
        } else {
            o
        },
        merged_source(o, s, env, st, "repositories_root"@) == if s.repositories_root != defaults_view(env).repositories_root {
            Some(st)
        } else {
            o
        },
        merged_source(o, s, env, st, "defaults.editor"@) == if s.editor != defaults_view(env).editor {
            Some(st)
        } else {
            o
        },
        merged_source(o, s, env, st, "defaults.matter_type"@) == if s.matter_type != defaults_view(env).matter_type {
            Some(st)
        } else {
            o
        },
        merged_source(o, s, env, st, "defaults.visibility"@) == if s.visibility != defaults_view(env).visibility {
            Some(st)
        } else {
            o
        },
        merged_source(o, s, env, st, "user.id"@) == if s.user_id != defaults_view(env).user_id {
            Some(st)
        } else {
            o
        },
        merged_source(o, s, env, st, "user.name"@) == if s.user_name != defaults_view(env).user_name {
            Some(st)
        } else {
            o
        },
        merged_source(o, s, env, st, "user.email"@) == if s.user_email != defaults_view(env).user_email {
            Some(st)
        } else {
            o
        },
        merged_source(o, s, env, st, "search.index_enabled"@) == if s.index_enabled != defaults_view(env).index_enabled {
            Some(st)
        } else {
            o
        },
        merged_source(o, s, env, st, "search.index_db"@) == if s.index_db != defaults_view(env).index_db {
            Some(st)
        } else {
            o
        },
        merged_source(o, s, env, st, "search.watch_for_changes"@) == if s.watch_for_changes != defaults_view(env).watch_for_changes {
            Some(st)
        } else {
            o
        },
        merged_source(o, s, env, st, "search.exclude_patterns"@) == if s.exclude_patterns != defaults_view(env).exclude_patterns {
            Some(st)
        } else {
            o
        },
        merged_source(o, s, env, st, "sync.auto_sync"@) == if s.auto_sync != defaults_view(env).auto_sync {
            Some(st)
        } else {
            o
        },
        merged_source(o, s, env, st, "sync.sync_interval_minutes"@) == if s.sync_interval_minutes != defaults_view(env).sync_interval_minutes {
            Some(st)
        } else {
            o
        },
        merged_source(o, s, env, st, "sync.remote_portal_url"@) == if s.remote_portal_url != defaults_view(env).remote_portal_url {
            Some(st)
        } else {
            o
        },
{
    reveal_strlit("version");
    reveal_strlit("repositories_root");
    reveal_strlit("defaults.editor");
    reveal_strlit("defaults.matter_type");
    reveal_strlit("defaults.visibility");
    reveal_strlit("user.id");
    reveal_strlit("user.name");
    reveal_strlit("user.email");
    reveal_strlit("search.index_enabled");
    reveal_strlit("search.index_db");
    reveal_strlit("search.watch_for_changes");
    reveal_strlit("search.exclude_patterns");
    reveal_strlit("sync.auto_sync");
    reveal_strlit("sync.sync_interval_minutes");
    reveal_strlit("sync.remote_portal_url");
    lemma_setting_keys_distinct();
    assert(setting_keys()[0] == "version"@);
    assert(setting_keys()[1] == "repositories_root"@);
    assert(setting_keys()[2] == "defaults.editor"@);
    assert(setting_keys()[3] == "defaults.matter_type"@);
    assert(setting_keys()[4] == "defaults.visibility"@);
    assert(setting_keys()[5] == "user.id"@);
    assert(setting_keys()[6] == "user.name"@);
    assert(setting_keys()[7] == "user.email"@);
    assert(setting_keys()[8] == "search.index_enabled"@);
    assert(setting_keys()[9] == "search.index_db"@);
    assert(setting_keys()[10] == "search.watch_for_changes"@);
    assert(setting_keys()[11] == "search.exclude_patterns"@);
    assert(setting_keys()[12] == "sync.auto_sync"@);
    assert(setting_keys()[13] == "sync.sync_interval_minutes"@);
    assert(setting_keys()[14] == "sync.remote_portal_url"@);
}

/// Merging a layer records nothing for a name that is not a setting.
pub proof fn lemma_merge_records_only_settings(
    o: Option<ConfigSource>,
    s: SettingsView,
    env: ConfigEnvironment,
    st: ConfigSource,
    k: Seq<char>,
)
    ensures
        !setting_keys().contains(k) ==> merged_source(o, s, env, st, k) == o,
{
    if layer_sets(s, env, k) {
        assert(setting_keys()[0] == "version"@);
        assert(setting_keys()[1] == "repositories_root"@);
        assert(setting_keys()[2] == "defaults.editor"@);
        assert(setting_keys()[3] == "defaults.matter_type"@);
        assert(setting_keys()[4] == "defaults.visibility"@);
        assert(setting_keys()[5] == "user.id"@);
        assert(setting_keys()[6] == "user.name"@);
        assert(setting_keys()[7] == "user.email"@);
        assert(setting_keys()[8] == "search.index_enabled"@);
        assert(setting_keys()[9] == "search.index_db"@);
        assert(setting_keys()[10] == "search.watch_for_changes"@);
        assert(setting_keys()[11] == "search.exclude_patterns"@);
        assert(setting_keys()[12] == "sync.auto_sync"@);
        assert(setting_keys()[13] == "sync.sync_interval_minutes"@);
        assert(setting_keys()[14] == "sync.remote_portal_url"@);
    }
}

/// Merging a layer a second time changes nothing more.
pub proof fn lemma_merge_idempotent(t: SettingsView, s: SettingsView, env: ConfigEnvironment)
    ensures
        merged(merged(t, s, env), s, env) == merged(t, s, env),
{
}

/// A layer that holds exactly the built-in settings changes nothing: no
/// setting is taken from it and no source is recorded for it.
pub proof fn lemma_builtin_layer_changes_nothing(t: SettingsView, env: ConfigEnvironment, k: Seq<char>)
    ensures
        merged(t, defaults_view(env), env) == t,
        !layer_sets(defaults_view(env), env, k),
{
    assert(merged(t, defaults_view(env), env) =~= t);
}

/// A later layer that changes a setting takes precedence over every earlier
/// one: when the project layer applies and changes `k`, `k` comes from the
/// project; when the team layer applies and changes `k` and the project
/// layer does not change it, `k` comes from the team.
pub proof fn lemma_later_layer_wins(
    team_id: Option<Seq<char>>,
    project_id: Option<Seq<char>>,
    env: ConfigEnvironment,
    layers: ConfigLayers,
    k: Seq<char>,
)
    ensures
        (project_layer(project_id, layers) matches Some(p) && layer_sets(p@, env, k))
            ==> merged_settings_source(team_id, project_id, env, layers, k) == Some(
            SourceView::Project(project_id->0),
        ),
        (team_layer(team_id, layers) matches Some(t) && layer_sets(t@, env, k) && !(project_layer(
            project_id,
            layers,
        ) matches Some(p) && layer_sets(p@, env, k))) ==> merged_settings_source(
            team_id,
            project_id,
            env,
            layers,
            k,
        ) == Some(SourceView::Team(team_id->0)),
{
}

/// The `Debug` text of string `s`: quoted, with quotes, backslashes and
/// control characters escaped (`str::escape_debug`).
pub uninterp spec fn debug_text(s: Seq<char>) -> Seq<char>;

/// Formats a string as `{:?}` does.
#[verifier::external_body]
fn debug_string(s: &str) -> (r: String)
    ensures
        r@ == debug_text(s@),
{
    format!("{:?}", s)
}

/// The `Debug` text of a list of strings: their texts between brackets,
/// separated by a comma and a space.
pub open spec fn debug_list(v: Seq<Seq<char>>) -> Seq<char> {
    "["@ + debug_items(v) + "]"@
}

/// The texts of `v` separated by a comma and a space.
pub open spec fn debug_items(v: Seq<Seq<char>>) -> Seq<char>
    decreases v.len(),
{
    if v.len() == 0 {
        Seq::empty()
    } else if v.len() == 1 {
        debug_text(v[0])
    } else {
        debug_items(v.drop_last()) + ", "@ + debug_text(v.last())
    }
}

/// The `Debug` text of an optional string.
pub open spec fn debug_option(o: Option<Seq<char>>) -> Seq<char> {
    match o {
        Some(s) => "Some("@ + debug_text(s) + ")"@,
        None => "None"@,
    }
}

/// The text of a flag.
pub open spec fn bool_text(b: bool) -> Seq<char> {
    if b {
        "true"@
    } else {
        "false"@
    }
}

/// A line of the settings report: a section heading, or a setting.
pub enum ReportLine {
    Section(String),
    Setting(String),
}

/// A line of the settings report as plain values.
pub ghost enum ReportLineView {
    Section(Seq<char>),
    Setting(Seq<char>),
}

impl View for ReportLine {
    type V = ReportLineView;

    open spec fn view(&self) -> ReportLineView {
        match self {
            ReportLine::Section(s) => ReportLineView::Section(s@),
            ReportLine::Setting(s) => ReportLineView::Setting(s@),
        }
    }
}

/// The line of setting `label` (recorded under `key`) with value `value`,
/// followed by its source in brackets when `show_source`.
pub open spec fn setting_line(
    label: Seq<char>,
    value: Seq<char>,
    key: Seq<char>,
    sources: SourceMap,
    show_source: bool,
) -> ReportLineView {
    ReportLineView::Setting(
        "  "@ + label + ": "@ + value + if show_source {
            " ("@ + match sources.get_spec(key) {
                Some(src) => source_text(src),
                None => Seq::empty(),
            } + ")"@
        } else {
            Seq::empty()
        },
    )
}

/// The settings report: every setting under its section, in a fixed order.
pub open spec fn config_report_spec(m: MergedConfig, show_source: bool) -> Seq<ReportLineView> {
    let c = m.config;
    let s = m.sources;
    seq![
        ReportLineView::Section("[Version]"@),
        setting_line("version"@, c.version@, "version"@, s, show_source),
        ReportLineView::Section("[Repositories]"@),
        setting_line("repositories_root"@, c.repositories_root@, "repositories_root"@, s, show_source),
        ReportLineView::Section("[Defaults]"@),
        setting_line("editor"@, c.defaults.editor@, "defaults.editor"@, s, show_source),
        setting_line("matter_type"@, c.defaults.matter_type@, "defaults.matter_type"@, s, show_source),
        setting_line("visibility"@, c.defaults.visibility@, "defaults.visibility"@, s, show_source),
        ReportLineView::Section("[User]"@),
        setting_line("id"@, c.user.id@, "user.id"@, s, show_source),
        setting_line("name"@, c.user.name@, "user.name"@, s, show_source),
        setting_line("email"@, c.user.email@, "user.email"@, s, show_source),
        ReportLineView::Section("[Search]"@),
        setting_line("index_enabled"@, bool_text(c.search.index_enabled), "search.index_enabled"@, s, show_source),
        setting_line("index_db"@, c.search.index_db@, "search.index_db"@, s, show_source),
        setting_line(
            "watch_for_changes"@,
            bool_text(c.search.watch_for_changes),
            "search.watch_for_changes"@,
            s,
            show_source,
        ),
        setting_line(
            "exclude_patterns"@,
            debug_list(views(c.search.exclude_patterns@)),
            "search.exclude_patterns"@,
            s,
            show_source,
        ),
        ReportLineView::Section("[Sync]"@),
        setting_line("auto_sync"@, bool_text(c.sync.auto_sync), "sync.auto_sync"@, s, show_source),
        setting_line(
            "sync_interval_minutes"@,
            crate::text::decimal(c.sync.sync_interval_minutes as nat),
            "sync.sync_interval_minutes"@,
            s,
            show_source,
        ),
        setting_line(
            "remote_portal_url"@,
            debug_option(opt_view(c.sync.remote_portal_url)),
            "sync.remote_portal_url"@,
            s,
            show_source,
        ),
    ]
}

fn setting_line_of(label: &str, value: &str, key: &str, sources: &SourceMap, show_source: bool) -> (r: ReportLine)
    ensures
        r@ == setting_line(label@, value@, key@, *sources, show_source),
{
    let mut t = owned("  ");
    crate::text::push_str(&mut t, label);
    crate::text::push_str(&mut t, ": ");
    crate::text::push_str(&mut t, value);
    if show_source {
        let mut src = owned(" (");
        match sources.get(key) {
            Some(s) => {
                let text = s.to_string();
                crate::text::push_str(&mut src, text.as_str());
            },
            None => {},
        }
        crate::text::push_str(&mut src, ")");
        crate::text::push_str(&mut t, src.as_str());
    } else {
        assert(t@ + Seq::<char>::empty() =~= t@);
    }
    ReportLine::Setting(t)
}

fn bool_string(b: bool) -> (r: &'static str)
    ensures
        r@ == bool_text(b),
{
    if b {
        "true"
    } else {
        "false"
    }
}

/// The `Debug` text of a list of strings.
fn debug_list_of(v: &Vec<String>) -> (r: String)
    ensures
        r@ == debug_list(views(v@)),
{
    let ghost vs = views(v@);
    let mut items = String::new();
    let mut i: usize = 0;
    assert(vs.take(0) =~= Seq::<Seq<char>>::empty());
    while i < v.len()
        invariant
            i <= v.len(),
            vs == views(v@),
            items@ == debug_items(vs.take(i as int)),
        decreases v.len() - i,
    {
        proof {
            let t1 = vs.take(i + 1);
            assert(t1.drop_last() =~= vs.take(i as int));
            assert(t1.last() == v@[i as int]@);
            if i == 0 {
                assert(t1[0] == v@[0]@);
            }
        }
        let d = debug_string(v[i].as_str());
        if i > 0 {
            crate::text::push_str(&mut items, ", ");
            crate::text::push_str(&mut items, d.as_str());
        } else {
            assert(items@ == Seq::<char>::empty());
            crate::text::push_str(&mut items, d.as_str());
            assert(items@ =~= d@);
        }
        i = i + 1;
    }
    assert(vs.take(vs.len() as int) =~= vs);
    let mut r = owned("[");
    crate::text::push_str(&mut r, items.as_str());
    crate::text::push_str(&mut r, "]");
    r
}

/// The `Debug` text of an optional string.
fn debug_option_of(o: &Option<String>) -> (r: String)
    ensures
        r@ == debug_option(opt_view(*o)),
{
    match o {
        Some(s) => {
            let d = debug_string(s.as_str());
            let mut r = owned("Some(");
            crate::text::push_str(&mut r, d.as_str());
            crate::text::push_str(&mut r, ")");
            r
        },
        None => owned("None"),
    }
}

/// The settings report of `merged`: each setting with its value and, when
/// `show_source`, the layer it came from, under section headings.
pub fn config_report(merged: &MergedConfig, show_source: bool) -> (r: Vec<ReportLine>)
    ensures
        r@.map_values(|l: ReportLine| l@) == config_report_spec(*merged, show_source),
{
    let c = &merged.config;
    let s = &merged.sources;
    let mut out: Vec<ReportLine> = Vec::new();
    out.push(ReportLine::Section(owned("[Version]")));
    out.push(setting_line_of("version", c.version.as_str(), "version", s, show_source));
    out.push(ReportLine::Section(owned("[Repositories]")));
    out.push(setting_line_of("repositories_root", c.repositories_root.as_str(), "repositories_root", s, show_source));
    out.push(ReportLine::Section(owned("[Defaults]")));
    out.push(setting_line_of("editor", c.defaults.editor.as_str(), "defaults.editor", s, show_source));
    out.push(setting_line_of("matter_type", c.defaults.matter_type.as_str(), "defaults.matter_type", s, show_source));
    out.push(setting_line_of("visibility", c.defaults.visibility.as_str(), "defaults.visibility", s, show_source));
    out.push(ReportLine::Section(owned("[User]")));
    out.push(setting_line_of("id", c.user.id.as_str(), "user.id", s, show_source));
    out.push(setting_line_of("name", c.user.name.as_str(), "user.name", s, show_source));
    out.push(setting_line_of("email", c.user.email.as_str(), "user.email", s, show_source));
    out.push(ReportLine::Section(owned("[Search]")));
    out.push(setting_line_of("index_enabled", bool_string(c.search.index_enabled), "search.index_enabled", s, show_source));
    out.push(setting_line_of("index_db", c.search.index_db.as_str(), "search.index_db", s, show_source));
    out.push(
        setting_line_of(
            "watch_for_changes",
            bool_string(c.search.watch_for_changes),
            "search.watch_for_changes",
            s,
            show_source,
        ),
    );
    let patterns = debug_list_of(&c.search.exclude_patterns);
    out.push(setting_line_of("exclude_patterns", patterns.as_str(), "search.exclude_patterns", s, show_source));
    out.push(ReportLine::Section(owned("[Sync]")));
    out.push(setting_line_of("auto_sync", bool_string(c.sync.auto_sync), "sync.auto_sync", s, show_source));
    let interval = crate::text::u64_to_string(c.sync.sync_interval_minutes as u64);
    out.push(
        setting_line_of("sync_interval_minutes", interval.as_str(), "sync.sync_interval_minutes", s, show_source),
    );
    let url = debug_option_of(&c.sync.remote_portal_url);
    out.push(setting_line_of("remote_portal_url", url.as_str(), "sync.remote_portal_url", s, show_source));
    assert(out@.map_values(|l: ReportLine| l@) =~= config_report_spec(*merged, show_source));
    out
}

} // verus!
