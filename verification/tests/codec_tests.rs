use twin::codec::parse_registry;
use twin::codec::render_registry;
use twin::registry::EnvironmentRegistry;
use twin::types::AgentEnvironment;
use twin::types::EnvironmentStatus;
use twin::types::SymlinkInfo;

fn sample_registry() -> EnvironmentRegistry {
    let mut registry = EnvironmentRegistry::new();
    let mut one = AgentEnvironment::new(
        "one".to_string(),
        "agent/one".to_string(),
        "worktrees/one".to_string(),
        Some("twin.toml".to_string()),
    );
    let mut link = SymlinkInfo::new("/repo/.env".to_string(), "worktrees/one/.env".to_string());
    link.set_success();
    one.add_symlink(link);
    registry.add(one);
    registry.add(AgentEnvironment::new(
        "two \"quoted\"\n".to_string(),
        "agent/two".to_string(),
        "worktrees/two".to_string(),
        None,
    ));
    registry.set_active(Some("one".to_string()));
    registry
}

#[test]
fn test_registry_round_trip_preserves_names_branches_active() {
    let registry = sample_registry();
    let document = render_registry(&registry);
    let reloaded = parse_registry(document.as_str()).expect("the rendered document parses");

    let names: Vec<String> = registry.environments.iter().map(|e| e.name.clone()).collect();
    let reloaded_names: Vec<String> =
        reloaded.environments.iter().map(|e| e.name.clone()).collect();
    assert_eq!(names, reloaded_names);

    let branches: Vec<String> =
        registry.environments.iter().map(|e| e.branch.clone()).collect();
    let reloaded_branches: Vec<String> =
        reloaded.environments.iter().map(|e| e.branch.clone()).collect();
    assert_eq!(branches, reloaded_branches);

    assert_eq!(reloaded.active, registry.active);
    assert_eq!(reloaded.last_updated, registry.last_updated);
    assert!(matches!(
        reloaded.environments[0].status,
        EnvironmentStatus::Active
    ));
    assert_eq!(reloaded.environments[0].symlinks.len(), 1);
    assert_eq!(reloaded.environments[0].symlinks[0].source, "/repo/.env");
}

#[test]
fn test_empty_registry_round_trip() {
    let registry = EnvironmentRegistry::new();
    let document = render_registry(&registry);
    assert_eq!(
        document,
        "{\"environments\":{},\"active\":null,\"last_updated\":null}"
    );
    let reloaded = parse_registry(document.as_str()).unwrap();
    assert!(reloaded.environments.is_empty());
    assert!(reloaded.active.is_none());
    assert!(reloaded.last_updated.is_none());
}

#[test]
fn test_exact_document_for_known_record() {
    let mut registry = EnvironmentRegistry::new();
    registry.environments.push(AgentEnvironment {
        name: "a".to_string(),
        branch: "agent/a".to_string(),
        worktree_path: "worktrees/a".to_string(),
        symlinks: vec![],
        status: EnvironmentStatus::Inactive,
        created_at: 42,
        updated_at: 43,
        config_path: None,
    });
    registry.active = None;
    registry.last_updated = Some(99);
    let document = render_registry(&registry);
    assert_eq!(
        document,
        "{\"environments\":{\"a\":{\"name\":\"a\",\"branch\":\"agent/a\",\"worktree_path\":\"worktrees/a\",\"symlinks\":[],\"status\":\"inactive\",\"created_at\":42,\"updated_at\":43,\"config_path\":null}},\"active\":null,\"last_updated\":99}"
    );
    let reloaded = parse_registry(document.as_str()).unwrap();
    assert_eq!(reloaded.environments[0].created_at, 42);
    assert_eq!(reloaded.environments[0].updated_at, 43);
    assert_eq!(reloaded.last_updated, Some(99));
}

#[test]
fn test_malformed_document_is_rejected() {
    assert!(parse_registry("").is_none());
    assert!(parse_registry("{\"environments\":{}").is_none());
    assert!(parse_registry("not json at all").is_none());
}
