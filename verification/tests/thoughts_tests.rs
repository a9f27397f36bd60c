use snps_core::thoughts::select_listing;
use snps_core::text::lines_of;
use snps_core::thoughts::{
    configured_profile, profile_settings_text, switch_profile_text, hook_status, hook_step, ignore_file_with_thoughts, list_entry_kept, open_target, scope_dirs, search_hit_kept,
    searchable_name, short_age_text, sync_commit_message, sync_directions, thoughts_settings_text, HookStatus,
    HookStep, ThoughtType, POST_COMMIT_HOOK, PRE_COMMIT_HOOK,
};

#[test]
fn scope_dirs_cases() {
    assert_eq!(scope_dirs(Some("shared"), "ana"), vec!["thoughts/shared".to_string()]);
    assert_eq!(scope_dirs(Some("personal"), "ana"), vec!["thoughts/ana".to_string()]);
    assert_eq!(scope_dirs(Some("global"), "ana"), vec!["thoughts/global".to_string()]);
    let all = vec!["thoughts/shared".to_string(), "thoughts/ana".to_string(), "thoughts/global".to_string()];
    assert_eq!(scope_dirs(Some("all"), "ana"), all);
    assert_eq!(scope_dirs(None, "ana"), all);
}

#[test]
fn open_target_cases() {
    assert_eq!(open_target(Some("shared/plans"), Some("global"), "ana"), "thoughts/shared/plans");
    assert_eq!(open_target(None, Some("personal"), "ana"), "thoughts/ana");
    assert_eq!(open_target(None, Some("global"), "ana"), "thoughts/global");
    assert_eq!(open_target(None, Some("other"), "ana"), "thoughts/shared");
    assert_eq!(open_target(None, None, "ana"), "thoughts");
}

#[test]
fn searchable_names_flatten_paths() {
    assert_eq!(searchable_name("shared/research/topic.md"), "shared-research-topic.md");
    assert_eq!(searchable_name("note.md"), "note.md");
}

#[test]
fn search_and_list_filters() {
    assert!(search_hit_kept("thoughts/shared/plans/a.md", Some(ThoughtType::Plan)));
    assert!(!search_hit_kept("thoughts/shared/research/a.md", Some(ThoughtType::Plan)));
    assert!(search_hit_kept("thoughts/shared/a.md", Some(ThoughtType::Scratch)));
    assert!(search_hit_kept("anything", None));
    assert!(list_entry_kept("thoughts/shared/plans/a.md", Some(ThoughtType::Plan)));
    assert!(!list_entry_kept("thoughts/shared/tickets/a.md", Some(ThoughtType::Research)));
    assert!(list_entry_kept("x", None));
}

#[test]
fn short_ages() {
    assert_eq!(short_age_text(59), "0m ago");
    assert_eq!(short_age_text(3599), "59m ago");
    assert_eq!(short_age_text(3600), "1h ago");
    assert_eq!(short_age_text(86399), "23h ago");
    assert_eq!(short_age_text(2 * 86400), "2d ago");
}

#[test]
fn sync_settings() {
    assert_eq!(sync_directions("both"), (true, true));
    assert_eq!(sync_directions("to-central"), (false, true));
    assert_eq!(sync_directions("from-central"), (true, false));
    assert_eq!(sync_directions("none"), (false, false));
    assert_eq!(sync_commit_message(Some("mine"), "2025-01-02 03:04", "box"), "mine");
    assert_eq!(sync_commit_message(None, "2025-01-02 03:04", "box"), "Sync: 2025-01-02 03:04 from box");
}

#[test]
fn ignore_file_updates() {
    let entry = "# PMSynapse thoughts (symlinked, do not commit)\nthoughts/\n";
    assert_eq!(ignore_file_with_thoughts(None), Some(entry.to_string()));
    assert_eq!(ignore_file_with_thoughts(Some("target/\n")), Some(format!("target/\n\n{}", entry)));
    assert_eq!(ignore_file_with_thoughts(Some("target/\nthoughts/\n")), None);
}

#[test]
fn settings_text() {
    assert_eq!(
        thoughts_settings_text("personal", "local", None, "ana"),
        "# Thoughts configuration for this project\nprofile: personal\nstorage: local\nremote: null\nusername: ana\n"
    );
    assert!(thoughts_settings_text("p", "s", Some("git@x:y"), "u").contains("remote: git@x:y\n"));
}

#[test]
fn hook_steps_and_status() {
    assert_eq!(hook_step(None, false), HookStep::Install { backup: false });
    assert_eq!(hook_step(Some("#!/bin/sh\nlint\n"), false), HookStep::Keep);
    assert_eq!(hook_step(Some("#!/bin/sh\nlint\n"), true), HookStep::Install { backup: true });
    assert_eq!(hook_step(Some(PRE_COMMIT_HOOK), false), HookStep::Install { backup: false });
    assert_eq!(hook_step(Some(POST_COMMIT_HOOK), true), HookStep::Install { backup: false });
    assert_eq!(hook_status(Some(PRE_COMMIT_HOOK)), HookStatus::Installed);
    assert_eq!(hook_status(Some("#!/bin/sh\n")), HookStatus::Foreign);
    assert_eq!(hook_status(None), HookStatus::Missing);
    assert!(PRE_COMMIT_HOOK.starts_with("#!/bin/bash\n# PMSynapse: Prevent thoughts/"));
}

#[test]
fn lines_follow_str_lines() {
    for text in ["", "a", "a\n", "a\r\nb", "a\n\nb\n", "\n", "x\r", "one\r\ntwo\r\n"] {
        let expected: Vec<String> = text.lines().map(String::from).collect();
        assert_eq!(lines_of(text), expected, "text {:?}", text);
    }
}

#[test]
fn switching_profiles_rewrites_settings() {
    assert_eq!(
        switch_profile_text("version: 1\nthoughts:\n    profile: old\nteam: x\n", "work"),
        "version: 1\nthoughts:\n  profile: work\nteam: x"
    );
    assert_eq!(switch_profile_text("version: 1\n", "work"), "version: 1\n\nthoughts:\n  profile: work");
}

#[test]
fn configured_profile_reads_first_setting() {
    assert_eq!(configured_profile("a: 1\nthoughts:\n  profile: team \n"), Some("team".to_string()));
    assert_eq!(configured_profile("profile: a:b\n"), Some("a".to_string()));
    assert_eq!(configured_profile("a: 1\n"), None);
}

#[test]
fn profile_settings() {
    assert_eq!(
        profile_settings_text("work", None, "/home/ana/.pmsynapse/thoughts/profiles/work", None),
        "name: work\nrepo: /home/ana/.pmsynapse/thoughts/profiles/work\nremote: null\n"
    );
    assert_eq!(profile_settings_text("w", Some("/r"), "/d", Some("git@h:r")), "name: w\nrepo: /r\nremote: git@h:r\n");
}

#[test]
fn listing_is_newest_first_then_filtered_then_cut() {
    let entries = vec![
        ("thoughts/shared/plans/a.md".to_string(), 10i128),
        ("thoughts/shared/research/b.md".to_string(), 30),
        ("thoughts/shared/plans/c.md".to_string(), 20),
        ("thoughts/shared/plans/d.md".to_string(), 30),
        ("thoughts/global/e.md".to_string(), -5),
    ];
    let all = select_listing(entries.clone(), None, None);
    assert_eq!(
        all,
        vec![
            "thoughts/shared/research/b.md",
            "thoughts/shared/plans/d.md",
            "thoughts/shared/plans/c.md",
            "thoughts/shared/plans/a.md",
            "thoughts/global/e.md"
        ]
    );
    assert_eq!(
        select_listing(entries.clone(), Some(ThoughtType::Plan), Some(2)),
        vec!["thoughts/shared/plans/d.md", "thoughts/shared/plans/c.md"]
    );
    assert_eq!(select_listing(entries.clone(), Some(ThoughtType::Plan), None).len(), 3);
    assert_eq!(select_listing(entries.clone(), None, Some(10)).len(), 5);
    assert!(select_listing(entries, None, Some(0)).is_empty());
}
