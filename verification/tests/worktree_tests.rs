use twin::branchgen::generate_branch_name;
use twin::branchgen::generate_unique_branch_name;
use twin::branchgen::generate_worktree_path;
use twin::worktree::branch_exists;
use twin::worktree::parse_branch_list;
use twin::worktree::parse_worktree_list;

#[test]
fn test_two_record_listing_second_detached() {
    let raw = "worktree /repo/main\nHEAD abcdef1234\nbranch refs/heads/main\n\nworktree /repo/wt-two\nHEAD 1234abcdef\n";
    let parsed = parse_worktree_list(raw);
    assert_eq!(parsed.len(), 2);
    assert_eq!(parsed[0].path, "/repo/main");
    assert_eq!(parsed[0].branch, "refs/heads/main");
    assert_eq!(parsed[0].commit, "abcdef1234");
    assert_eq!(parsed[1].path, "/repo/wt-two");
    assert_eq!(parsed[1].branch, "");
    assert_eq!(parsed[1].commit, "1234abcdef");
}

#[test]
fn test_listing_flags_and_agent_names() {
    let raw = "worktree /repo/agent-one\nHEAD 123456\nbranch agent/one\nlocked\n\nworktree /repo/stale\nprunable\n";
    let parsed = parse_worktree_list(raw);
    assert_eq!(parsed.len(), 2);
    assert_eq!(parsed[0].agent_name, Some("one".to_string()));
    assert!(parsed[0].locked);
    assert!(!parsed[0].prunable);
    assert!(parsed[1].prunable);
    assert_eq!(parsed[1].agent_name, None);
}

#[test]
fn test_parse_branch_list_marks_current() {
    let raw = "* main abc123 latest work\n  feature/x def456 more work\n";
    let branches = parse_branch_list(raw);
    assert_eq!(branches.len(), 2);
    assert!(branches[0].current);
    assert_eq!(branches[0].name, "main");
    assert_eq!(branches[0].commit, "abc123");
    assert!(!branches[1].current);
    assert_eq!(branches[1].name, "feature/x");
    assert!(branch_exists(&branches, "main"));
    assert!(!branch_exists(&branches, "agent/zzz"));
}

#[test]
fn test_branch_and_path_derivation() {
    assert_eq!(generate_branch_name("agent", "alpha"), "agent/alpha");
    assert_eq!(generate_branch_name("agent/", "alpha"), "agent/alpha");
    assert_eq!(generate_branch_name("", "alpha"), "alpha");
    assert_eq!(generate_worktree_path("worktrees", "alpha"), "worktrees/alpha");
}

#[test]
fn test_unique_branch_name_first_free() {
    let existing = vec!["agent/a".to_string()];
    let name = generate_unique_branch_name("agent/b", 10, &existing, "20240101-000000").unwrap();
    assert_eq!(name, "agent/b");

    let taken = vec!["agent/b".to_string(), "agent/b-1".to_string()];
    let name = generate_unique_branch_name("agent/b", 10, &taken, "20240101-000000").unwrap();
    assert_eq!(name, "agent/b-2");
}

#[test]
fn test_unique_branch_name_timestamp_fallback() {
    let mut existing = vec!["base".to_string()];
    for i in 1..=10 {
        existing.push(format!("base-{}", i));
    }
    let name = generate_unique_branch_name("base", 10, &existing, "20240101-000000").unwrap();
    assert_eq!(name, "base-20240101-000000");
}
