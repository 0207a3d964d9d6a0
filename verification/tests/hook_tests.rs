use twin::hooks::HookContext;
use twin::hooks::HookExecutor;
use twin::hooks::HookType;
use twin::hooks::SpawnOutcome;
use twin::types::HookCommand;

#[test]
fn test_hook_type_string() {
    assert_eq!(HookType::PreCreate.as_str(), "pre_create");
    assert_eq!(HookType::PostCreate.as_str(), "post_create");
    assert_eq!(HookType::PreRemove.as_str(), "pre_remove");
    assert_eq!(HookType::PostRemove.as_str(), "post_remove");
}

#[test]
fn test_context_env_vars() {
    let mut context = HookContext::new(
        "test-agent".to_string(),
        "/path/to/worktree".to_string(),
        "feature/test".to_string(),
        "/path/to/project".to_string(),
    );
    context.add_env_var("CUSTOM_VAR".to_string(), "custom_value".to_string());

    let env_vars = context.as_env_vars();
    let lookup = |key: &str| -> Option<String> {
        env_vars
            .iter()
            .find(|(k, _)| k == key)
            .map(|(_, v)| v.clone())
    };
    assert_eq!(lookup("TWIN_AGENT_NAME").unwrap(), "test-agent");
    assert_eq!(lookup("TWIN_BRANCH").unwrap(), "feature/test");
    assert_eq!(lookup("TWIN_WORKTREE_PATH").unwrap(), "/path/to/worktree");
    assert_eq!(lookup("TWIN_PROJECT_ROOT").unwrap(), "/path/to/project");
    assert_eq!(lookup("CUSTOM_VAR").unwrap(), "custom_value");
}

#[test]
fn test_command_expansion() {
    let context = HookContext::new(
        "my-agent".to_string(),
        "/workspace/my-agent".to_string(),
        "feature/my-agent".to_string(),
        "/workspace".to_string(),
    );

    let expanded = context.expand_command("echo 'Working on ${AGENT_NAME} in ${WORKTREE_PATH}'");

    assert_eq!(expanded, "echo 'Working on my-agent in /workspace/my-agent'");
}

#[test]
fn test_braced_expansion_leaves_no_tokens() {
    let context = HookContext::new(
        "AGENT-7".to_string(),
        "/WS/AGENT-7".to_string(),
        "TOPIC/AGENT-7".to_string(),
        "/WS".to_string(),
    );

    let expanded =
        context.expand_command("run {agent_name} on {branch} in {worktree_path} from {project_root}");

    assert_eq!(expanded, "run AGENT-7 on TOPIC/AGENT-7 in /WS/AGENT-7 from /WS");
    assert!(!expanded.contains("{agent_name}"));
    assert!(!expanded.contains("{branch}"));
    assert!(!expanded.contains("{worktree_path}"));
}

#[test]
fn test_dry_run_execution() {
    let mut executor = HookExecutor::new();
    executor.set_dry_run(true);

    let context = HookContext::new(
        "test".to_string(),
        "/test".to_string(),
        "test".to_string(),
        "/test".to_string(),
    );

    let hook = HookCommand {
        command: "echo test".to_string(),
        args: vec![],
        env: vec![],
        timeout: 60,
        continue_on_error: false,
    };

    let spawn = SpawnOutcome {
        spawned: false,
        exit_code: None,
        stdout: String::new(),
        stderr: String::new(),
        duration_ms: 0,
    };

    let result = executor
        .execute(HookType::PreCreate, &hook, &context, &spawn)
        .unwrap();
    assert!(result.success);
    assert_eq!(result.stdout, "[DRY RUN]");
}

#[test]
fn test_failing_hook_aborts_without_continue() {
    let executor = HookExecutor::new();
    let context = HookContext::new(
        "a".to_string(),
        "/a".to_string(),
        "b".to_string(),
        "/p".to_string(),
    );
    let hook = HookCommand {
        command: "false".to_string(),
        args: vec![],
        env: vec![],
        timeout: 60,
        continue_on_error: false,
    };
    let failed = SpawnOutcome {
        spawned: true,
        exit_code: Some(1),
        stdout: String::new(),
        stderr: "boom".to_string(),
        duration_ms: 3,
    };
    assert!(executor
        .execute(HookType::PostCreate, &hook, &context, &failed)
        .is_err());

    let mut tolerant_hook = hook;
    tolerant_hook.continue_on_error = true;
    let result = executor
        .execute(HookType::PostCreate, &tolerant_hook, &context, &failed)
        .unwrap();
    assert!(!result.success);
    assert_eq!(result.exit_code, Some(1));
}
