use twin::errors::TwinError;
use twin::registry::EnvironmentRegistry;
use twin::saga::FaultPlan;
use twin::saga::RemoveFaultPlan;
use twin::saga::SimWorld;
use twin::saga::run_create_sim;
use twin::saga::run_remove_sim;
use twin::types::ConfigSettings;
use twin::types::EnvironmentStatus;
use twin::types::FileMapping;
use twin::types::HookCommand;
use twin::types::MappingType;

fn hook(continue_on_error: bool) -> HookCommand {
    HookCommand {
        command: "echo ready".to_string(),
        args: vec![],
        env: vec![],
        timeout: 60,
        continue_on_error,
    }
}

fn settings_with_one_file() -> ConfigSettings {
    let mut settings = ConfigSettings::default();
    settings.files.push(FileMapping {
        path: ".env".to_string(),
        mapping_type: MappingType::Symlink,
        description: None,
        skip_if_exists: false,
    });
    settings
}

fn create(
    world: &mut SimWorld,
    registry: &mut EnvironmentRegistry,
    settings: &ConfigSettings,
    name: &str,
    faults: &FaultPlan,
) -> Result<twin::types::AgentEnvironment, TwinError> {
    run_create_sim(
        world,
        registry,
        settings,
        None,
        name,
        None,
        "20240101-000000",
        "/repo",
        faults,
    )
}

#[test]
fn test_create_on_empty_registry_activates() {
    let mut world = SimWorld::new();
    let mut registry = EnvironmentRegistry::new();
    let settings = ConfigSettings::default();

    let env = create(&mut world, &mut registry, &settings, "agent-1", &FaultPlan::none())
        .expect("creation succeeds on an empty registry");

    assert_eq!(env.name, "agent-1");
    assert!(matches!(env.status, EnvironmentStatus::Active));
    assert_eq!(registry.active, Some("agent-1".to_string()));
    assert_eq!(registry.environments.len(), 1);
    assert_eq!(env.branch, "agent/agent-1");
    assert_eq!(env.worktree_path, "worktrees/agent-1");
    assert!(world.worktrees.contains(&"worktrees/agent-1".to_string()));
    assert!(world.branches.contains(&"agent/agent-1".to_string()));
    let saved = world.saved.as_ref().expect("registry was persisted");
    assert!(saved.get("agent-1").is_some());
}

#[test]
fn test_second_create_fails_already_exists() {
    let mut world = SimWorld::new();
    let mut registry = EnvironmentRegistry::new();
    let settings = ConfigSettings::default();

    create(&mut world, &mut registry, &settings, "agent-1", &FaultPlan::none()).unwrap();
    let second = create(&mut world, &mut registry, &settings, "agent-1", &FaultPlan::none());

    match second {
        Err(TwinError::AlreadyExists { name, .. }) => assert_eq!(name, "agent-1"),
        other => panic!("expected AlreadyExists, got {:?}", other.map(|e| e.name)),
    }
    assert_eq!(registry.environments.len(), 1);
}

#[test]
fn test_failing_post_create_hook_rolls_back_everything() {
    let mut world = SimWorld::new();
    let mut registry = EnvironmentRegistry::new();
    let mut settings = settings_with_one_file();
    settings.hooks.post_create.push(hook(false));

    let mut faults = FaultPlan::none();
    faults.post_hook_fail = Some(0);

    let result = create(&mut world, &mut registry, &settings, "agent-1", &faults);

    match result {
        Err(TwinError::Hook { exit_code, .. }) => assert_eq!(exit_code, Some(1)),
        other => panic!("expected HookError, got {:?}", other.map(|e| e.name)),
    }
    assert!(!world.worktrees.contains(&"worktrees/agent-1".to_string()));
    assert!(world.links.is_empty());
    assert_eq!(registry.environments.len(), 0);
    let saved = world.saved.as_ref().expect("rollback rewrote the registry");
    assert!(saved.get("agent-1").is_none());
}

#[test]
fn test_every_failure_point_leaves_no_orphan() {
    let plans: Vec<FaultPlan> = vec![
        FaultPlan {
            pre_hook_fail: None,
            worktree_fail: true,
            link_fail: None,
            persist_fail: false,
            post_hook_fail: None,
        },
        FaultPlan {
            pre_hook_fail: None,
            worktree_fail: false,
            link_fail: Some(0),
            persist_fail: false,
            post_hook_fail: None,
        },
        FaultPlan {
            pre_hook_fail: None,
            worktree_fail: false,
            link_fail: None,
            persist_fail: true,
            post_hook_fail: None,
        },
        FaultPlan {
            pre_hook_fail: None,
            worktree_fail: false,
            link_fail: None,
            persist_fail: false,
            post_hook_fail: Some(0),
        },
    ];
    for faults in plans {
        let mut world = SimWorld::new();
        let mut registry = EnvironmentRegistry::new();
        let mut settings = settings_with_one_file();
        settings.hooks.post_create.push(hook(false));

        let result = create(&mut world, &mut registry, &settings, "agent-1", &faults);
        let error = result.err().expect("an injected failure aborts creation");
        match (&faults, &error) {
            (FaultPlan { worktree_fail: true, .. }, TwinError::Git { .. }) => {}
            (FaultPlan { link_fail: Some(_), .. }, TwinError::Symlink { .. }) => {}
            (FaultPlan { persist_fail: true, .. }, TwinError::Config { .. }) => {}
            (FaultPlan { post_hook_fail: Some(_), .. }, TwinError::Hook { .. }) => {}
            (_, other) => panic!("unexpected error variant: {:?}", other),
        }
        assert!(!world.worktrees.contains(&"worktrees/agent-1".to_string()));
        assert!(world.links.is_empty());
        assert!(registry.get("agent-1").is_none());
    }
}

#[test]
fn test_tolerated_pre_hook_failure_still_creates() {
    let mut world = SimWorld::new();
    let mut registry = EnvironmentRegistry::new();
    let mut settings = ConfigSettings::default();
    settings.hooks.pre_create.push(hook(true));

    let mut faults = FaultPlan::none();
    faults.pre_hook_fail = Some(0);

    let env = create(&mut world, &mut registry, &settings, "agent-1", &faults)
        .expect("a tolerated hook failure does not abort");
    assert!(matches!(env.status, EnvironmentStatus::Active));
}

#[test]
fn test_remove_with_absent_link_target_succeeds() {
    let mut world = SimWorld::new();
    let mut registry = EnvironmentRegistry::new();
    let settings = settings_with_one_file();

    create(&mut world, &mut registry, &settings, "agent-1", &FaultPlan::none()).unwrap();
    world.links.clear();

    let result = run_remove_sim(
        &mut world,
        &mut registry,
        &settings,
        "agent-1",
        false,
        &RemoveFaultPlan::none(),
    );

    assert!(result.is_ok());
    assert!(!world.worktrees.contains(&"worktrees/agent-1".to_string()));
    assert!(registry.get("agent-1").is_none());
}

#[test]
fn test_remove_tolerates_fault_aimed_at_absent_target() {
    let mut world = SimWorld::new();
    let mut registry = EnvironmentRegistry::new();
    let settings = settings_with_one_file();

    create(&mut world, &mut registry, &settings, "agent-1", &FaultPlan::none()).unwrap();
    world.links.clear();

    let mut faults = RemoveFaultPlan::none();
    faults.link_fail = Some(0);

    let result = run_remove_sim(&mut world, &mut registry, &settings, "agent-1", false, &faults);
    assert!(result.is_ok());
    assert!(registry.get("agent-1").is_none());
}

#[test]
fn test_remove_unknown_name_fails_not_found() {
    let mut world = SimWorld::new();
    let mut registry = EnvironmentRegistry::new();
    let settings = ConfigSettings::default();
    let result = run_remove_sim(
        &mut world,
        &mut registry,
        &settings,
        "ghost",
        false,
        &RemoveFaultPlan::none(),
    );
    assert!(matches!(result, Err(TwinError::NotFound { .. })));
}
