use workspace::host_event::HostError;
use workspace::logging::{base_variable, demo_log_directory, log_directory, TargetOs};

#[test]
fn log_directory_does_not_panic() {
    let path = log_directory(TargetOs::Linux, Some("/home/user"));
    assert!(path.is_ok(), "log_directory should not panic");
    let path = path.unwrap().join("/");
    assert!(path.contains("CoreOS"));
    assert!(path.contains("logs"));
}

#[test]
fn demo_log_directory_returns_valid_path() {
    if let Some(path) = demo_log_directory(TargetOs::Windows, Some("C:\\Users\\u\\AppData\\Local")) {
        let path = path.join("\\");
        assert!(path.contains("Workspace"));
        assert!(path.contains("logs"));
    }
}

#[test]
fn log_directory_segments_per_os() {
    assert_eq!(
        log_directory(TargetOs::Windows, Some("C:\\L")).unwrap(),
        vec!["C:\\L", "CoreOS", "logs"]
    );
    assert_eq!(
        log_directory(TargetOs::Linux, Some("/h")).unwrap(),
        vec!["/h", ".local", "share", "CoreOS", "logs"]
    );
    assert_eq!(
        log_directory(TargetOs::Macos, Some("/Users/u")).unwrap(),
        vec!["/Users/u", "Library", "Application Support", "CoreOS", "logs"]
    );
    assert_eq!(
        demo_log_directory(TargetOs::Linux, Some("/h")).unwrap(),
        vec!["/h", ".local", "share", "Workspace", "logs"]
    );
}

#[test]
fn log_directory_errors() {
    assert!(matches!(log_directory(TargetOs::Other, Some("/h")), Err(HostError::PlatformNotSupported)));
    match log_directory(TargetOs::Windows, None) {
        Err(HostError::WindowCreationFailed(m)) => assert_eq!(m, "LOCALAPPDATA not set"),
        _ => panic!("Expected WindowCreationFailed"),
    }
    match log_directory(TargetOs::Macos, None) {
        Err(HostError::WindowCreationFailed(m)) => assert_eq!(m, "HOME not set"),
        _ => panic!("Expected WindowCreationFailed"),
    }
    assert!(demo_log_directory(TargetOs::Other, Some("/h")).is_none());
    assert!(demo_log_directory(TargetOs::Linux, None).is_none());
}

#[test]
fn base_variables() {
    assert_eq!(base_variable(TargetOs::Windows), Some("LOCALAPPDATA"));
    assert_eq!(base_variable(TargetOs::Linux), Some("HOME"));
    assert_eq!(base_variable(TargetOs::Macos), Some("HOME"));
    assert_eq!(base_variable(TargetOs::Other), None);
}
