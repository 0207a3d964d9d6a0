use twin::errors::TwinError;

#[test]
fn test_twin_error_git() {
    let error = TwinError::git("Failed to checkout branch".to_string());
    match &error {
        TwinError::Git { message } => {
            assert_eq!(message, "Failed to checkout branch");
        }
        _ => panic!("Expected Git error"),
    }

    let display_str = error.display_string();
    assert!(display_str.contains("Git error"));
    assert!(display_str.contains("Failed to checkout branch"));
}

#[test]
fn test_twin_error_symlink() {
    let path = "/tmp/test.txt".to_string();
    let error = TwinError::symlink("Failed to create symlink".to_string(), Some(path.clone()));

    match error {
        TwinError::Symlink { message, path: p } => {
            assert_eq!(message, "Failed to create symlink");
            assert_eq!(p, Some(path));
        }
        _ => panic!("Expected Symlink error"),
    }
}

#[test]
fn test_twin_error_config() {
    let path = "config.toml".to_string();
    let error = TwinError::Config {
        message: "Invalid TOML".to_string(),
        path: Some(path.clone()),
    };

    match &error {
        TwinError::Config { message, path: p } => {
            assert_eq!(message, "Invalid TOML");
            assert_eq!(p, &Some(path));
        }
        _ => panic!("Expected Config error"),
    }

    let display_str = error.display_string();
    assert!(display_str.contains("Config error"));
    assert!(display_str.contains("Invalid TOML"));
}

#[test]
fn test_twin_error_display() {
    let errors = vec![
        (TwinError::git("git error".to_string()), "Git error: git error"),
        (
            TwinError::symlink("symlink error".to_string(), None),
            "Symlink error: symlink error",
        ),
        (
            TwinError::Environment {
                message: "env error".to_string(),
                agent_name: Some("agent1".to_string()),
            },
            "Environment error: env error",
        ),
        (
            TwinError::Hook {
                message: "hook failed".to_string(),
                hook_type: "pre_create".to_string(),
                exit_code: Some(1),
            },
            "Hook execution failed: hook failed",
        ),
        (
            TwinError::AlreadyExists {
                resource: "Environment".to_string(),
                name: "test".to_string(),
            },
            "Environment already exists: test",
        ),
        (
            TwinError::NotFound {
                resource: "Branch".to_string(),
                name: "feature".to_string(),
            },
            "Branch not found: feature",
        ),
        (
            TwinError::InvalidArgument {
                message: "invalid arg".to_string(),
            },
            "Invalid argument: invalid arg",
        ),
        (TwinError::Other("other error".to_string()), "other error"),
    ];

    for (error, expected) in errors {
        assert_eq!(error.display_string(), expected);
    }
}

#[test]
fn test_error_classification() {
    assert!(TwinError::lock("busy".to_string(), None).is_retryable());
    assert!(TwinError::io("disk".to_string(), None).is_retryable());
    assert!(!TwinError::git("bad".to_string()).is_retryable());
    assert!(TwinError::git("bad".to_string()).is_fatal());
    assert!(!TwinError::hook("h".to_string(), "pre_create".to_string(), Some(1)).is_fatal());
}

#[test]
fn test_twin_error_from_io() {
    let io_error = std::io::Error::new(std::io::ErrorKind::NotFound, "File not found");
    let twin_error = TwinError::from(io_error);

    match twin_error {
        TwinError::Io { message, path } => {
            assert!(message.contains("not found") || message.contains("File not found"));
            assert!(path.is_none());
        }
        _ => panic!("Expected Io error"),
    }
}
