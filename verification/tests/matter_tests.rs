use snps_core::matter::{
    deletion_confirmed,
    context_type_as_str, context_type_from_name, frame_matter_file, generate_matter_path, matter_path_for_date,
    matter_type_as_str, matter_type_from_name, new_matter_body, parse_tags, slugify, split_frontmatter,
    visibility_as_str, visibility_from_name, ContextType, MatterFrontmatter, MatterItem, MatterType, Visibility,
};
use snps_core::foreign::Timestamp;
use snps_core::SynapseError;

#[test]
fn test_generate_matter_path() {
    let path = generate_matter_path("/home/user/repo", &MatterType::Spec, "Test Specification", &Visibility::Shared);
    assert!(path.contains("/shared/specs/"));
    assert!(path.contains("-test-specification.md"));
}

#[test]
fn test_generate_matter_path_sanitizes_title() {
    let path = generate_matter_path("/home/user/repo", &MatterType::Document, "Test!@# Document$%^ 123", &Visibility::Private);
    let filename = path.rsplit('/').next().unwrap();
    assert!(filename.contains("test-document-123.md"));
}

#[test]
fn matter_path_on_a_date() {
    let path = matter_path_for_date("/r", &MatterType::Research, "Caching: A Plan", &Visibility::Public, "2024-03-01");
    assert_eq!(path, "/r/public/research/2024-03-01-caching-a-plan.md");
    assert_eq!(slugify("Über Café 2"), "über-café-2");
}

#[test]
fn test_parse_missing_delimiter() {
    let result = split_frontmatter("No frontmatter here");
    assert!(result.is_err());
    match result {
        Err(SynapseError::Matter(m)) => assert_eq!(m, "Content does not start with frontmatter delimiter '---'"),
        _ => panic!("expected a matter error"),
    }
}

#[test]
fn test_parse_missing_closing_delimiter() {
    let content = "---\nmatter_type: spec\ntitle: Test\n";
    let result = split_frontmatter(content);
    assert!(result.is_err());
    match result {
        Err(SynapseError::Matter(m)) => assert_eq!(m, "Could not find closing frontmatter delimiter '---'"),
        _ => panic!("expected a matter error"),
    }
}

#[test]
fn test_parse_valid_frontmatter() {
    let content = "---\nmatter_type: spec\ntitle: Test Spec\ncontext_type: user\ncontext_id: igor\nvisibility: private\ntags:\n  - test\n  - spec\ncreated_at: '2024-01-01T00:00:00Z'\ncreated_by: igor\n---\n\nThis is the content of the spec.";
    let (front, remaining) = split_frontmatter(content).unwrap();
    let yaml: serde_yaml::Value = serde_yaml::from_str(&front).unwrap();
    assert_eq!(yaml["title"].as_str(), Some("Test Spec"));
    assert_eq!(yaml["matter_type"].as_str(), Some("spec"));
    assert_eq!(yaml["context_type"].as_str(), Some("user"));
    assert_eq!(yaml["visibility"].as_str(), Some("private"));
    let tags: Vec<&str> = yaml["tags"].as_sequence().unwrap().iter().map(|t| t.as_str().unwrap()).collect();
    assert_eq!(tags, vec!["test", "spec"]);
    assert_eq!(remaining, "This is the content of the spec.");
}

#[test]
fn test_round_trip() {
    let frontmatter = MatterFrontmatter {
        matter_type: MatterType::Document,
        title: "Round Trip Test".to_string(),
        context_type: ContextType::User,
        context_id: "test".to_string(),
        visibility: Visibility::Private,
        tags: vec!["test".to_string()],
        created_at: Timestamp { secs: 1_700_000_000, nanos: 0 },
        created_by: "test".to_string(),
        updated_at: None,
        updated_by: None,
        version: Some(1),
        status: None,
        folder_path: None,
    };
    let item = MatterItem { frontmatter, content: "Test content".to_string(), file_path: "/tmp/test.md".to_string() };
    let front = "matter_type: document\ntitle: Round Trip Test\ntags:\n- test\n";
    let file = item.file_text(front);
    assert_eq!(file, frame_matter_file(front, "Test content"));
    assert_eq!(file, "---\nmatter_type: document\ntitle: Round Trip Test\ntags:\n- test\n---\n\nTest content");
    let (parsed_front, parsed_content) = split_frontmatter(&file).unwrap();
    assert_eq!(parsed_front, front.trim());
    assert!(parsed_front.contains(&item.frontmatter.title));
    assert_eq!(parsed_content, item.content);
}

#[test]
fn new_draft_metadata() {
    let at = Timestamp { secs: 1_700_000_000, nanos: 5 };
    let fm = MatterFrontmatter::new_draft(
        MatterType::Spec,
        "My Spec",
        ContextType::Team,
        Some("core-team"),
        "igor",
        Visibility::Shared,
        vec!["a".to_string(), "b".to_string()],
        Timestamp { secs: at.secs, nanos: at.nanos },
        "Igor",
    );
    assert_eq!(fm.matter_type, MatterType::Spec);
    assert_eq!(fm.title, "My Spec");
    assert_eq!(fm.context_type, ContextType::Team);
    assert_eq!(fm.context_id, "core-team");
    assert_eq!(fm.visibility, Visibility::Shared);
    assert_eq!(fm.tags, vec!["a", "b"]);
    assert_eq!((fm.created_at.secs, fm.created_at.nanos), (1_700_000_000, 5));
    assert_eq!(fm.created_by, "Igor");
    assert!(fm.updated_at.is_none());
    assert!(fm.updated_by.is_none());
    assert_eq!(fm.version, Some(1));
    assert_eq!(fm.status.as_deref(), Some("draft"));
    assert!(fm.folder_path.is_none());

    let own = MatterFrontmatter::new_draft(
        MatterType::Plan,
        "Plan",
        ContextType::User,
        None,
        "igor",
        Visibility::Private,
        vec![],
        Timestamp { secs: 0, nanos: 0 },
        "Igor",
    );
    assert_eq!(own.context_id, "igor");

    let item = MatterItem::new_draft(own, "/repo/private/plans/2024-01-01-plan.md");
    assert_eq!(item.content, new_matter_body("Plan"));
    assert_eq!(item.content, "# Plan\n\n<!-- Start writing your content here -->\n");
    assert_eq!(item.file_path, "/repo/private/plans/2024-01-01-plan.md");
    assert_eq!(item.frontmatter.title, "Plan");
}

#[test]
fn new_imported_metadata() {
    let fm = MatterFrontmatter::new_imported(
        MatterType::Document,
        "notes",
        ContextType::User,
        "igor",
        Timestamp { secs: 42, nanos: 0 },
        "Igor",
    );
    assert_eq!(fm.matter_type, MatterType::Document);
    assert_eq!(fm.title, "notes");
    assert_eq!(fm.context_type, ContextType::User);
    assert_eq!(fm.context_id, "igor");
    assert_eq!(fm.visibility, Visibility::Private);
    assert!(fm.tags.is_empty());
    assert_eq!(fm.created_at.secs, 42);
    assert_eq!(fm.created_by, "Igor");
    assert_eq!(fm.version, Some(1));
    assert_eq!(fm.status.as_deref(), Some("imported"));
    assert!(fm.updated_at.is_none() && fm.updated_by.is_none() && fm.folder_path.is_none());
}

#[test]
fn matter_type_names_round_trip() {
    for t in [
        MatterType::Spec,
        MatterType::Document,
        MatterType::Brainstorming,
        MatterType::Mindmap,
        MatterType::Insight,
        MatterType::Research,
        MatterType::Plan,
    ] {
        assert_eq!(matter_type_from_name(matter_type_as_str(&t)), Some(t));
    }
    assert_eq!(matter_type_as_str(&MatterType::Spec), "spec");
    assert_eq!(matter_type_from_name("specs"), None);
}

#[test]
fn matter_test_context_type_serialization() {
    assert_eq!(context_type_as_str(&ContextType::Team), "team");
    assert_eq!(context_type_from_name("team"), Some(ContextType::Team));
}

#[test]
fn matter_test_visibility_serialization() {
    assert_eq!(visibility_as_str(&Visibility::Private), "private");
    assert_eq!(visibility_from_name("public"), Some(Visibility::Public));
    assert_eq!(visibility_from_name("Public"), None);
}

#[test]
fn tags_are_split_and_trimmed() {
    assert_eq!(parse_tags(Some("a, b ,c")), vec!["a", "b", "c"]);
    assert_eq!(parse_tags(Some("")), vec![""]);
    assert_eq!(parse_tags(Some("x,,y")), vec!["x", "", "y"]);
    assert!(parse_tags(None).is_empty());
}

#[test]
fn new_matter_content() {
    assert_eq!(new_matter_body("Plan"), "# Plan\n\n<!-- Start writing your content here -->\n");
}

#[test]
fn deletion_answers() {
    assert!(deletion_confirmed("y\n"));
    assert!(deletion_confirmed("  Y "));
    assert!(!deletion_confirmed("yes"));
    assert!(!deletion_confirmed(""));
    assert!(!deletion_confirmed("n"));
}

#[test]
fn test_matter_type_serialization() {
    let name = matter_type_as_str(&MatterType::Spec);
    assert_eq!(format!("\"{}\"", name), r#""spec""#);
    assert_eq!(matter_type_from_name(name), Some(MatterType::Spec));
}
