use twin::config::Config;
use twin::types::Config as CoreConfig;
use twin::types::ConfigSettings;
use twin::types::MappingType;

#[test]
fn test_default_config() {
    let config = Config::default();
    assert_eq!(config.branch_prefix, "agent/");
    assert!(config.files.is_empty());
}

#[test]
fn test_example_config() {
    let config = Config::example();
    assert!(!config.files.is_empty());
    assert_eq!(config.files[0].path, ".env");
    assert!(matches!(config.files[0].mapping_type, MappingType::Symlink));
    assert!(matches!(config.files[1].mapping_type, MappingType::Copy));
    assert!(!config.hooks.post_create.is_empty());
}

#[test]
fn test_hook_command_example() {
    let config = Config::example();
    let first_hook = &config.hooks.post_create[0];
    assert_eq!(first_hook.command, "echo");
    assert_eq!(first_hook.timeout, 60);
    assert!(!first_hook.continue_on_error);
}

#[test]
fn test_config_new() {
    let config = CoreConfig::new();
    assert!(config.path.is_none());
    assert!(config.global_path.is_none());
    assert_eq!(config.settings.files.len(), 0);
    assert_eq!(config.settings.hooks.pre_create.len(), 0);
    assert_eq!(config.settings.hooks.post_create.len(), 0);
    assert_eq!(config.settings.hooks.pre_remove.len(), 0);
    assert_eq!(config.settings.hooks.post_remove.len(), 0);
    assert_eq!(config.settings.branch_prefix, Some("agent".to_string()));
}

#[test]
fn test_config_settings_default() {
    let settings = ConfigSettings::default();
    assert_eq!(settings.files.len(), 0);
    assert_eq!(settings.branch_prefix, Some("agent".to_string()));
    assert!(settings.worktree_base.is_none());
    assert_eq!(settings.hooks.pre_create.len(), 0);
    assert_eq!(settings.hooks.post_create.len(), 0);
    assert_eq!(settings.hooks.pre_remove.len(), 0);
    assert_eq!(settings.hooks.post_remove.len(), 0);
}

#[test]
fn test_config_merge_prefers_project() {
    let mut global = Config::default();
    global.branch_prefix = "team/".to_string();
    global.worktree_base = Some("../shared".to_string());
    let project = Config::default();
    let merged = Config::merge(global, project);
    assert_eq!(merged.branch_prefix, "team/");
    assert_eq!(merged.worktree_base, Some("../shared".to_string()));
}
