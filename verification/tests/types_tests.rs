use twin::types::AgentEnvironment;
use twin::types::EnvironmentStatus;
use twin::types::FileMapping;
use twin::types::HookCommand;
use twin::types::HookConfig;
use twin::types::MappingType;
use twin::types::SymlinkInfo;
use twin::types::default_mapping_type;

#[test]
fn test_agent_environment_creation() {
    let env = AgentEnvironment::new(
        "test-agent".to_string(),
        "feature/test".to_string(),
        "/tmp/test-agent".to_string(),
        None,
    );

    assert_eq!(env.name, "test-agent");
    assert_eq!(env.branch, "feature/test");
    assert_eq!(env.worktree_path, "/tmp/test-agent");
    assert_eq!(env.symlinks.len(), 0);
    assert!(matches!(env.status, EnvironmentStatus::Creating));
    assert!(env.config_path.is_none());
}

#[test]
fn test_agent_environment_is_active() {
    let mut env = AgentEnvironment::new(
        "test".to_string(),
        "test".to_string(),
        "/tmp".to_string(),
        None,
    );

    assert!(!env.is_active());

    env.status = EnvironmentStatus::Active;
    assert!(env.is_active());

    env.status = EnvironmentStatus::Inactive;
    assert!(!env.is_active());

    env.status = EnvironmentStatus::Error("error".to_string());
    assert!(!env.is_active());
}

#[test]
fn test_environment_status_display() {
    assert_eq!(format!("{:?}", EnvironmentStatus::Active), "Active");
    assert_eq!(format!("{:?}", EnvironmentStatus::Inactive), "Inactive");
    assert_eq!(format!("{:?}", EnvironmentStatus::Creating), "Creating");
    assert_eq!(format!("{:?}", EnvironmentStatus::Removing), "Removing");
    assert_eq!(
        format!("{:?}", EnvironmentStatus::Error("test".to_string())),
        "Error(\"test\")"
    );
}

#[test]
fn test_mapping_type_default() {
    assert_eq!(default_mapping_type(), MappingType::Symlink);
}

#[test]
fn test_file_mapping_skip_if_exists_default() {
    let mapping = FileMapping {
        path: "test.txt".to_string(),
        mapping_type: MappingType::Symlink,
        description: None,
        skip_if_exists: false,
    };

    assert!(!mapping.skip_if_exists);
}

#[test]
fn test_file_mapping_with_description() {
    let mapping_with = FileMapping {
        path: "test.txt".to_string(),
        mapping_type: MappingType::Copy,
        description: Some("Test file".to_string()),
        skip_if_exists: true,
    };

    let mapping_without = FileMapping {
        path: "test2.txt".to_string(),
        mapping_type: MappingType::Symlink,
        description: None,
        skip_if_exists: false,
    };

    assert_eq!(mapping_with.description, Some("Test file".to_string()));
    assert!(mapping_without.description.is_none());
}

#[test]
fn test_hook_config_default_empty() {
    let config = HookConfig::default();
    assert!(config.pre_create.is_empty());
    assert!(config.post_create.is_empty());
    assert!(config.pre_remove.is_empty());
    assert!(config.post_remove.is_empty());
}

#[test]
fn test_hook_command_creation() {
    let cmd = HookCommand {
        command: "echo test".to_string(),
        args: vec![],
        env: vec![],
        timeout: 60,
        continue_on_error: false,
    };

    assert_eq!(cmd.command, "echo test");
    assert!(!cmd.continue_on_error);
    assert_eq!(cmd.timeout, 60);
    assert!(cmd.env.is_empty());
    assert!(cmd.args.is_empty());
}

#[test]
fn test_symlink_info_states() {
    let mut info = SymlinkInfo::new("/source".to_string(), "/target".to_string());

    assert!(!info.is_valid);
    assert!(info.error_message.is_none());

    info.set_success();
    assert!(info.is_valid);
    assert!(info.error_message.is_none());

    info.set_error("Test error".to_string());
    assert!(!info.is_valid);
    assert_eq!(info.error_message, Some("Test error".to_string()));
}
