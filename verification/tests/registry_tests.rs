use twin::registry::EnvironmentRegistry;
use twin::types::AgentEnvironment;
use twin::types::EnvironmentStatus;

fn env(name: &str, branch: &str, path: &str) -> AgentEnvironment {
    AgentEnvironment::new(name.to_string(), branch.to_string(), path.to_string(), None)
}

#[test]
fn test_registry_add_and_get() {
    let mut registry = EnvironmentRegistry::new();

    registry.add(env("test1", "branch1", "/tmp/test1"));

    let retrieved = registry.get("test1");
    assert!(retrieved.is_some());
    assert_eq!(retrieved.unwrap().name, "test1");

    assert!(registry.get("nonexistent").is_none());
}

#[test]
fn test_registry_remove() {
    let mut registry = EnvironmentRegistry::new();

    registry.add(env("test1", "branch1", "/tmp/test1"));
    registry.add(env("test2", "branch2", "/tmp/test2"));

    assert_eq!(registry.environments.len(), 2);

    let removed = registry.remove("test1");
    assert!(removed.is_some());
    assert_eq!(removed.unwrap().name, "test1");

    assert_eq!(registry.environments.len(), 1);
    assert!(registry.get("test1").is_none());
    assert!(registry.get("test2").is_some());

    assert!(registry.remove("nonexistent").is_none());
}

#[test]
fn test_registry_set_active_demotes_previous() {
    let mut registry = EnvironmentRegistry::new();
    registry.add(env("one", "b1", "/tmp/one"));
    registry.add(env("two", "b2", "/tmp/two"));

    registry.set_active(Some("one".to_string()));
    assert_eq!(registry.active, Some("one".to_string()));
    assert!(matches!(registry.get("one").unwrap().status, EnvironmentStatus::Active));

    registry.set_active(Some("two".to_string()));
    assert!(matches!(registry.get("one").unwrap().status, EnvironmentStatus::Inactive));
    assert!(matches!(registry.get("two").unwrap().status, EnvironmentStatus::Active));
    assert_eq!(registry.active, Some("two".to_string()));

    let active = registry.get_active().unwrap();
    assert_eq!(active.name, "two");
}
