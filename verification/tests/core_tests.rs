use snps_core::config::{
    get_pmsynapse_global_dir, load_merged_config, merge_config, personal_config_path,
    project_config_path, team_config_path, track_sources_for_default, ConfigEnvironment, ConfigLayers, ConfigSource,
    GlobalConfig, SourceMap,
};
use snps_core::knowledge::{
    build_sync_plan, compute_file_hash, generate_repo_id, get_repos_by_precedence, git_exclude_content,
    paths_to_exclude, scan_shadow_repo, ExistingFile, KnowledgeConfig, KnowledgeContext, ScannedFile,
    ShadowRepository, SyncOperation,
};
use snps_core::repository::{
    add_repository, clone_dir_name, filter_repositories, find_repository_for, registration_from_context,
    remove_repository, repo_sync_step, select_repositories, ContextType, RepoSyncStep, RepositoriesConfig,
    RepositoryMapping, RepositorySyncConfig, Visibility,
};
use snps_core::templates::{get_template, list_templates, DEFAULT_TEMPLATE};
use snps_core::{init, SynapseError, VERSION};

#[test]
fn test_init() {
    assert!(init().is_ok());
}

#[test]
fn lib_test_version() {
    assert!(!VERSION.is_empty());
}

#[test]
fn config_test_default_config() {
    let config = GlobalConfig::default();
    assert_eq!(config.version, "1.0");
    assert_eq!(config.defaults.matter_type, "document");
    assert_eq!(config.defaults.visibility, "private");
    assert!(!config.sync.auto_sync);
    assert!(config.search.index_enabled);
}

#[test]
fn test_get_global_dir() {
    let dir = get_pmsynapse_global_dir();
    assert!(dir.ends_with(".pmsynapse"));
}

#[test]
fn test_config_source_display() {
    assert_eq!(ConfigSource::Default.to_string(), "default");
    assert_eq!(ConfigSource::Personal.to_string(), "personal");
    assert_eq!(ConfigSource::Team("eng".to_string()).to_string(), "team:eng");
    assert_eq!(ConfigSource::Project("web-app".to_string()).to_string(), "project:web-app");
}

fn no_layers() -> ConfigLayers {
    ConfigLayers { personal: None, team: None, project: None }
}

#[test]
fn test_merged_config_default_only() {
    let env = test_env();
    let merged = load_merged_config(None, None, &env, no_layers());
    assert_eq!(merged.config.version, "1.0");
    assert_eq!(merged.sources.get("version"), Some(&ConfigSource::Default));
    assert_eq!(merged.sources.get("defaults.editor"), Some(&ConfigSource::Default));
}

fn test_env() -> ConfigEnvironment {
    ConfigEnvironment { home: "/home/ana".to_string(), username: "ana".to_string(), realname: "Ana Lee".to_string() }
}

#[test]
fn test_merge_config_precedence() {
    let env = test_env();
    let mut target = GlobalConfig::defaults_for(&env);
    let mut sources = SourceMap::new();
    track_sources_for_default(&mut sources);

    let mut source = GlobalConfig::defaults_for(&env);
    source.defaults.editor = "vim".to_string();
    source.user.name = "Test User".to_string();

    merge_config(&mut target, &source, &mut sources, ConfigSource::Personal, &env);

    assert_eq!(target.defaults.editor, "vim");
    assert_eq!(target.user.name, "Test User");
    assert_eq!(sources.get("defaults.editor"), Some(&ConfigSource::Personal));
    assert_eq!(sources.get("user.name"), Some(&ConfigSource::Personal));
}

#[test]
fn test_merge_config_team_overrides_personal() {
    let env = test_env();
    let mut target = GlobalConfig::defaults_for(&env);
    let mut sources = SourceMap::new();
    track_sources_for_default(&mut sources);

    let mut personal = GlobalConfig::defaults_for(&env);
    personal.defaults.editor = "vim".to_string();
    merge_config(&mut target, &personal, &mut sources, ConfigSource::Personal, &env);

    let mut team = GlobalConfig::defaults_for(&env);
    team.defaults.editor = "emacs".to_string();
    merge_config(&mut target, &team, &mut sources, ConfigSource::Team("eng".to_string()), &env);

    assert_eq!(target.defaults.editor, "emacs");
    assert_eq!(sources.get("defaults.editor"), Some(&ConfigSource::Team("eng".to_string())));
}

#[test]
fn defaults_follow_environment() {
    let env = test_env();
    let config = GlobalConfig::defaults_for(&env);
    assert_eq!(config.user.id, "ana");
    assert_eq!(config.user.name, "Ana Lee");
    assert_eq!(config.user.email, "ana@example.com");
    assert_eq!(config.repositories_root, "/home/ana/repos");
}

#[test]
fn builtin_layer_records_no_source() {
    let env = test_env();
    let layers = ConfigLayers { personal: Some(GlobalConfig::defaults_for(&env)), team: None, project: None };
    let merged = load_merged_config(None, None, &env, layers);
    assert_eq!(merged.sources.get("user.email"), Some(&ConfigSource::Default));
}

#[test]
fn project_layer_wins_over_team() {
    let env = test_env();
    let mut team = GlobalConfig::defaults_for(&env);
    team.defaults.editor = "emacs".to_string();
    let mut project = GlobalConfig::defaults_for(&env);
    project.defaults.editor = "nano".to_string();
    let layers = ConfigLayers { personal: None, team: Some(team), project: Some(project) };
    let merged = load_merged_config(Some("eng"), Some("web"), &env, layers);
    assert_eq!(merged.config.defaults.editor, "nano");
    assert_eq!(merged.sources.get("defaults.editor"), Some(&ConfigSource::Project("web".to_string())));
}

#[test]
fn team_layer_ignored_without_team_id() {
    let env = test_env();
    let mut team = GlobalConfig::defaults_for(&env);
    team.defaults.editor = "emacs".to_string();
    let layers = ConfigLayers { personal: None, team: Some(team), project: None };
    let merged = load_merged_config(None, None, &env, layers);
    assert_ne!(merged.config.defaults.editor, "emacs");
}

#[test]
fn config_file_paths() {
    assert_eq!(personal_config_path("/g"), "/g/config.yaml");
    assert_eq!(team_config_path("/g", "eng"), "/g/teams/eng/config.yaml");
    assert_eq!(project_config_path("/g", Some("eng"), "web"), "/g/teams/eng/projects/web/config.yaml");
}

#[test]
fn knowledge_test_default_config() {
    let config = KnowledgeConfig::default();
    assert_eq!(config.version, "1.0");
    assert!(config.repositories.is_empty());
    assert!(!config.git_exclude_patterns.is_empty());
}

#[test]
fn test_generate_repo_id() {
    let id = generate_repo_id(&KnowledgeContext::User, "/Users/test/my-knowledge");
    assert_eq!(id, "user-my-knowledge");
}

#[test]
fn generate_repo_id_by_scope_and_directory_name() {
    assert_eq!(
        generate_repo_id(&KnowledgeContext::User, "/a/notes"),
        generate_repo_id(&KnowledgeContext::User, "/b/notes")
    );
    assert_ne!(
        generate_repo_id(&KnowledgeContext::User, "/a/notes"),
        generate_repo_id(&KnowledgeContext::Team, "/a/notes")
    );
    assert_ne!(
        generate_repo_id(&KnowledgeContext::User, "/a/notes"),
        generate_repo_id(&KnowledgeContext::User, "/a/docs")
    );
}

#[test]
fn generate_repo_id_without_name() {
    assert_eq!(generate_repo_id(&KnowledgeContext::Team, "/"), "team-repo");
    assert_eq!(generate_repo_id(&KnowledgeContext::Project, "/a/.."), "project-repo");
}

fn repo(path: &str, id: Option<&str>, context: KnowledgeContext, enabled: bool) -> ShadowRepository {
    ShadowRepository {
        path: path.to_string(),
        id: id.map(|s| s.to_string()),
        description: None,
        repo_type: "folder".to_string(),
        context,
        enabled,
    }
}

#[test]
fn test_get_repos_by_precedence() {
    let config = KnowledgeConfig {
        version: "1.0".to_string(),
        git_exclude_patterns: vec![],
        repositories: vec![
            repo("/project", Some("project-main"), KnowledgeContext::Project, true),
            repo("/user", Some("user-personal"), KnowledgeContext::User, true),
        ],
    };

    let repos = get_repos_by_precedence(&config);
    assert_eq!(repos.len(), 2);
    assert!(matches!(repos[0].context, KnowledgeContext::User));
    assert!(matches!(repos[1].context, KnowledgeContext::Project));
}

#[test]
fn precedence_skips_disabled_and_keeps_order() {
    let config = KnowledgeConfig {
        version: "1.0".to_string(),
        git_exclude_patterns: vec![],
        repositories: vec![
            repo("/t1", Some("t1"), KnowledgeContext::Team, true),
            repo("/u1", Some("u1"), KnowledgeContext::User, false),
            repo("/t2", Some("t2"), KnowledgeContext::Team, true),
            repo("/u2", Some("u2"), KnowledgeContext::User, true),
        ],
    };
    let repos = get_repos_by_precedence(&config);
    let ids: Vec<&str> = repos.iter().map(|r| r.id.as_deref().unwrap()).collect();
    assert_eq!(ids, vec!["u2", "t1", "t2"]);
}

#[test]
fn test_compute_file_hash() {
    let hash = compute_file_hash(b"hello world");
    assert!(!hash.is_empty());
    assert_eq!(hash, compute_file_hash(b"hello world"));
    assert_eq!(hash, "b94d27b9934d3e08a52e52d7da7dabfac484efe37a5380ee9088f7ace2efcde9");
    assert_ne!(hash, compute_file_hash(b"hello world!"));
}

fn scanned(path: &str, hash: &str) -> ScannedFile {
    ScannedFile { path: path.to_string(), hash: hash.to_string(), modified: std::time::SystemTime::UNIX_EPOCH }
}

#[test]
fn scan_locates_files_relative_to_repository() {
    let r = repo("/k/team", None, KnowledgeContext::Team, true);
    let entries = scan_shadow_repo(&r, vec![scanned("/k/team/a.md", "h1"), scanned("/k/team/d/b.md", "h2")]).unwrap();
    assert_eq!(entries.len(), 2);
    assert_eq!(entries[0].relative_path, "a.md");
    assert_eq!(entries[1].relative_path, "d/b.md");
    assert_eq!(entries[1].source_repo_id, "unknown");
    assert_eq!(entries[1].hash, "h2");
}

#[test]
fn scan_rejects_file_outside_repository() {
    let r = repo("/k/team", Some("t"), KnowledgeContext::Team, true);
    let result = scan_shadow_repo(&r, vec![scanned("/elsewhere/a.md", "h1")]);
    assert!(matches!(result, Err(SynapseError::Knowledge(_))));
}

#[test]
fn sync_plan_later_repository_wins() {
    let config = KnowledgeConfig {
        version: "1.0".to_string(),
        git_exclude_patterns: vec![],
        repositories: vec![
            repo("/team", Some("team-repo"), KnowledgeContext::Team, true),
            repo("/user", Some("user-repo"), KnowledgeContext::User, true),
        ],
    };
    let scans = vec![
        vec![scanned("/user/notes.md", "u"), scanned("/user/only-user.md", "x")],
        vec![scanned("/team/notes.md", "t")],
    ];
    let existing = vec![ExistingFile { path: "/proj/only-user.md".to_string(), hash: "x".to_string() }];
    let ops = build_sync_plan(&config, "/proj", false, scans, &existing).unwrap();
    assert_eq!(ops.len(), 3);
    match &ops[0] {
        SyncOperation::Override { from, to, repo_id, overridden_repo } => {
            assert_eq!(from, "/team/notes.md");
            assert_eq!(to, "/proj/notes.md");
            assert_eq!(repo_id, "team-repo");
            assert_eq!(overridden_repo, "user-repo");
        },
        _ => panic!("expected an override first"),
    }
    match &ops[1] {
        SyncOperation::Copy { from, to, repo_id } => {
            assert_eq!(from, "/team/notes.md");
            assert_eq!(to, "/proj/notes.md");
            assert_eq!(repo_id, "team-repo");
        },
        _ => panic!("expected a copy of the winning entry"),
    }
    match &ops[2] {
        SyncOperation::Skip { path, reason } => {
            assert_eq!(path, "/proj/only-user.md");
            assert_eq!(reason, "unchanged");
        },
        _ => panic!("expected an unchanged file to be skipped"),
    }
}

#[test]
fn sync_plan_force_copies_unchanged() {
    let config = KnowledgeConfig {
        version: "1.0".to_string(),
        git_exclude_patterns: vec![],
        repositories: vec![repo("/user", Some("u"), KnowledgeContext::User, true)],
    };
    let existing = vec![ExistingFile { path: "/proj/a.md".to_string(), hash: "x".to_string() }];
    let ops = build_sync_plan(&config, "/proj", true, vec![vec![scanned("/user/a.md", "x")]], &existing).unwrap();
    assert_eq!(ops.len(), 1);
    assert!(matches!(&ops[0], SyncOperation::Copy { .. }));
}

#[test]
fn sync_plan_fails_on_foreign_file() {
    let config = KnowledgeConfig {
        version: "1.0".to_string(),
        git_exclude_patterns: vec![],
        repositories: vec![repo("/user", Some("u"), KnowledgeContext::User, true)],
    };
    let result = build_sync_plan(&config, "/proj", false, vec![vec![scanned("/other/a.md", "x")]], &vec![]);
    assert!(matches!(result, Err(SynapseError::Knowledge(_))));
}

#[test]
fn exclusions_skip_matching_and_add_fixed_paths() {
    let mut config = KnowledgeConfig::default();
    config.git_exclude_patterns.push("[".to_string());
    let synced = vec![
        ".pmsynapse/x.md".to_string(),
        "docs/a.md".to_string(),
        "docs/a.md".to_string(),
        "knowledge/k.md".to_string(),
    ];
    let paths = paths_to_exclude(&config, &synced);
    assert_eq!(paths, vec!["docs/a.md", ".pmsynapse/", "knowledge/"]);
}

#[test]
fn exclude_file_keeps_user_section() {
    let existing = "*.log\n\n# BEGIN snps-know auto-generated\nold/\n# END snps-know auto-generated\n\nbuild/\n";
    let content = git_exclude_content(existing, &vec!["docs/".to_string(), "knowledge/".to_string()]);
    assert_eq!(
        content,
        "*.log\nbuild/\n\n# BEGIN snps-know auto-generated\n# DO NOT EDIT - Changes will be overwritten by 'snps know sync'\ndocs/\nknowledge/\n# END snps-know auto-generated\n"
    );
}

#[test]
fn exclude_file_keeps_lines_around_block_apart() {
    let existing = "a\n# BEGIN snps-know auto-generated\nold\n# END snps-know auto-generated\nb\n";
    let content = git_exclude_content(existing, &vec![".pmsynapse/".to_string(), "knowledge/".to_string()]);
    assert_eq!(
        content,
        "a\nb\n\n# BEGIN snps-know auto-generated\n# DO NOT EDIT - Changes will be overwritten by 'snps know sync'\n.pmsynapse/\nknowledge/\n# END snps-know auto-generated\n"
    );
}

#[test]
fn exclude_file_from_nothing() {
    let content = git_exclude_content("", &vec![".pmsynapse/".to_string()]);
    assert_eq!(
        content,
        "\n# BEGIN snps-know auto-generated\n# DO NOT EDIT - Changes will be overwritten by 'snps know sync'\n.pmsynapse/\n# END snps-know auto-generated\n"
    );
}

#[test]
fn test_default_sync_config() {
    let sync = RepositorySyncConfig::default();
    assert!(!sync.enabled);
    assert_eq!(sync.branch, "main");
    assert!(sync.remote.is_none());
}

fn mapping(id: &str, context: ContextType, context_id: &str) -> RepositoryMapping {
    RepositoryMapping {
        id: id.to_string(),
        path: format!("/repos/{}", id),
        context_type: context,
        context_id: context_id.to_string(),
        visibility: Visibility::Private,
        role: None,
        auto_index: true,
        sync: RepositorySyncConfig::default(),
    }
}

#[test]
fn add_then_remove_repository() {
    let mut config = RepositoriesConfig { repositories: vec![] };
    assert!(add_repository(&mut config, mapping("a", ContextType::User, "me")).is_ok());
    assert!(add_repository(&mut config, mapping("b", ContextType::Team, "eng")).is_ok());
    let dup = add_repository(&mut config, mapping("a", ContextType::Team, "eng"));
    assert!(matches!(dup, Err(SynapseError::Config(_))));
    assert_eq!(config.repositories.len(), 2);
    assert!(remove_repository(&mut config, "a").is_ok());
    assert_eq!(config.repositories.len(), 1);
    assert_eq!(config.repositories[0].id, "b");
    assert!(matches!(remove_repository(&mut config, "a"), Err(SynapseError::Config(_))));
}

#[test]
fn repositories_for_context() {
    let config = RepositoriesConfig {
        repositories: vec![
            mapping("a", ContextType::User, "me"),
            mapping("b", ContextType::Team, "eng"),
            mapping("c", ContextType::Team, "ops"),
        ],
    };
    assert_eq!(find_repository_for(&config, "team", None), Some(1));
    assert_eq!(find_repository_for(&config, "team", Some("ops")), Some(2));
    assert_eq!(find_repository_for(&config, "project", None), None);
    assert_eq!(filter_repositories(&config, Some("team"), None), vec![1, 2]);
    assert_eq!(filter_repositories(&config, None, Some("me")), vec![0]);
    assert_eq!(filter_repositories(&config, None, None), vec![0, 1, 2]);
}

#[test]
fn test_template_loading() {
    let default_template = get_template("default");
    assert!(default_template.is_some());

    let unknown = get_template("unknown");
    assert!(unknown.is_none());
}

#[test]
fn template_list_and_placeholders() {
    let list = list_templates();
    assert_eq!(list, vec![("default", "Standard software development workflow")]);
    assert!(DEFAULT_TEMPLATE.contains("{{team_id}}"));
    assert!(DEFAULT_TEMPLATE.contains("{{team_name}}"));
}

#[test]
fn error_texts() {
    assert_eq!(SynapseError::Idlc("bad".to_string()).to_string(), "IDLC error: bad");
    assert_eq!(SynapseError::Config("x".to_string()).to_string(), "Configuration error: x");
    let io = SynapseError::Io(std::io::Error::new(std::io::ErrorKind::Other, "disk"));
    assert_eq!(io.to_string(), "IO error: disk");
}

#[test]
fn registration_reads_context_file_values() {
    let m = registration_from_context("Team", "core", Some("SHARED"), Some("notes"), "/srv/notes").unwrap();
    assert_eq!(m.id, "Team-notes");
    assert_eq!(m.context_type, ContextType::Team);
    assert_eq!(m.visibility, Visibility::Shared);
    assert_eq!(m.context_id, "core");
    assert_eq!(m.path, "/srv/notes");
    assert!(m.auto_index);
    assert!(m.role.is_none());
    assert!(!m.sync.enabled);
    assert_eq!(m.sync.branch, "main");
    let p = registration_from_context("project", "p1", Some("odd"), None, "/x").unwrap();
    assert_eq!(p.id, "project-repo");
    assert_eq!(p.visibility, Visibility::Private);
    let u = registration_from_context("user", "me", None, Some("mine"), "/y").unwrap();
    assert_eq!(u.visibility, Visibility::Private);
    assert_eq!(u.context_type, ContextType::User);
    assert!(registration_from_context("org", "x", None, None, "/z").is_none());
}

#[test]
fn clone_dir_names() {
    assert_eq!(clone_dir_name("https://github.com/acme/notes.git"), "notes");
    assert_eq!(clone_dir_name("git@host:team/kb.git"), "kb");
    assert_eq!(clone_dir_name("https://github.com/acme/notes"), "repo");
    assert_eq!(clone_dir_name("plain.git"), "plain");
    assert_eq!(clone_dir_name("https://host/x/.git"), "");
    assert_eq!(clone_dir_name(""), "repo");
}

#[test]
fn sync_selection_and_steps() {
    let mut config = RepositoriesConfig { repositories: Vec::new() };
    for (id, enabled, remote) in [("a", true, Some("origin")), ("b", false, None), ("c", true, None)] {
        let mut m = registration_from_context("user", "me", None, Some(id), "/r").unwrap();
        m.id = id.to_string();
        m.sync.enabled = enabled;
        m.sync.remote = remote.map(String::from);
        add_repository(&mut config, m).unwrap();
    }
    assert_eq!(select_repositories(&config, None), vec![0, 1, 2]);
    assert_eq!(select_repositories(&config, Some("b")), vec![1]);
    assert!(select_repositories(&config, Some("z")).is_empty());
    assert_eq!(repo_sync_step(&config.repositories[0]), RepoSyncStep::PullPush);
    assert_eq!(repo_sync_step(&config.repositories[1]), RepoSyncStep::Disabled);
    assert_eq!(repo_sync_step(&config.repositories[2]), RepoSyncStep::NoRemote);
}

#[test]
fn exclude_update_twice_changes_nothing() {
    let paths = vec!["docs/a.md".to_string(), ".pmsynapse/".to_string(), "knowledge/".to_string()];
    for existing in ["", "target/\n*.log\n", "mine\n\n# BEGIN snps-know auto-generated\nold\n# END snps-know auto-generated\n\ntail\n"] {
        let once = git_exclude_content(existing, &paths);
        let twice = git_exclude_content(&once, &paths);
        assert_eq!(once, twice, "existing {:?}", existing);
    }
    let once = git_exclude_content("mine  \n", &paths);
    assert!(once.starts_with("mine\n\n# BEGIN snps-know auto-generated\n"));
}
