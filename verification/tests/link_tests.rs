use twin::links::LinkStrategy;
use twin::links::WindowsSymlinkManager;
use twin::links::create_symlink_manager;
use twin::links::link_is_valid;

#[test]
fn test_symlink_manager_initialization() {
    let manager = create_symlink_manager();
    assert!(!manager.get_manual_instructions("a", "b").is_empty());
}

#[test]
fn test_select_strategy_by_privilege() {
    let manager = create_symlink_manager();
    assert!(matches!(manager.select_strategy("s", "t"), LinkStrategy::Symlink));

    let plain = WindowsSymlinkManager::new(false, false);
    assert!(matches!(plain.select_strategy("s", "t"), LinkStrategy::Copy));
    let dev = WindowsSymlinkManager::new(true, false);
    assert!(matches!(dev.select_strategy("s", "t"), LinkStrategy::Symlink));
    let admin = WindowsSymlinkManager::new(false, true);
    assert!(matches!(admin.select_strategy("s", "t"), LinkStrategy::Symlink));
}

#[test]
fn test_link_validation_distinguishes_broken_links() {
    assert!(link_is_valid(true, true, true));
    assert!(!link_is_valid(false, false, false));
    assert!(!link_is_valid(true, true, false));
    assert!(!link_is_valid(true, false, true));
}
