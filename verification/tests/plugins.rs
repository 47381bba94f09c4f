use monotools::plugins::loader::{backend_kind, check_manifest, BackendKind, PluginLoader};
use monotools::plugins::sandbox::{manager_permission_check, PluginGrant, PluginSandbox, SandboxError};

fn grant(perms: &[&str], builtin: bool) -> PluginGrant {
    PluginGrant { id: "p".into(), permissions: perms.iter().map(|s| s.to_string()).collect(), is_builtin: builtin }
}

#[test]
fn permission_format() {
    assert!(PluginSandbox::is_valid_permission_format("fs:read"));
    assert!(PluginSandbox::is_valid_permission_format("core:admin"));
    assert!(!PluginSandbox::is_valid_permission_format("fs"));
    assert!(!PluginSandbox::is_valid_permission_format("fs:"));
    assert!(!PluginSandbox::is_valid_permission_format("disk:read"));
    assert!(!PluginSandbox::is_valid_permission_format("fs:read:x"));
}

#[test]
fn check_permission_cases() {
    let g = grant(&["fs:read"], false);
    assert!(PluginSandbox::check_permission(&g, "fs:read").is_ok());
    assert_eq!(
        PluginSandbox::check_permission(&g, "fs:write"),
        Err(SandboxError::Undeclared { plugin: "p".into(), permission: "fs:write".into() })
    );
    assert_eq!(
        PluginSandbox::check_permission(&g, "core:x"),
        Err(SandboxError::CoreForbidden { plugin: "p".into(), permission: "core:x".into() })
    );
    let b = grant(&["core:x"], true);
    assert!(PluginSandbox::check_permission(&b, "core:x").is_ok());
}

#[test]
fn check_any_permission_cases() {
    let g = grant(&["ui:show"], false);
    assert!(PluginSandbox::check_any_permission(&g, &["fs:read", "ui:show"]).is_ok());
    assert_eq!(
        PluginSandbox::check_any_permission(&g, &["fs:read"]),
        Err(SandboxError::NoneDeclared { plugin: "p".into(), required: vec!["fs:read".into()] })
    );
}

#[test]
fn validate_permissions_cases() {
    assert!(PluginSandbox::validate_permissions(&grant(&["fs:read", "ui:show"], false)).is_ok());
    assert_eq!(
        PluginSandbox::validate_permissions(&grant(&["fs:read", "bad"], false)),
        Err(SandboxError::InvalidFormat("bad".into()))
    );
    assert_eq!(
        PluginSandbox::validate_permissions(&grant(&["core:x"], false)),
        Err(SandboxError::CoreRequested { plugin: "p".into(), permission: "core:x".into() })
    );
    assert!(PluginSandbox::validate_permissions(&grant(&["core:x"], true)).is_ok());
}

#[test]
fn manager_refuses_core_for_user_plugins() {
    assert_eq!(manager_permission_check(&grant(&["fs:a", "core:b"], false)), Err("core:b".to_string()));
    assert!(manager_permission_check(&grant(&["core:b"], true)).is_ok());
}

#[test]
fn manifest_fields_required() {
    assert_eq!(check_manifest("", "n", "1", "theme"), Err("Plugin ID is required".to_string()));
    assert_eq!(check_manifest("i", "", "1", "theme"), Err("Plugin name is required".to_string()));
    assert_eq!(check_manifest("i", "n", "", "theme"), Err("Plugin version is required".to_string()));
    assert_eq!(check_manifest("i", "n", "1", ""), Err("Plugin type is required".to_string()));
    assert_eq!(check_manifest("i", "n", "1", "weird"), Err("Invalid plugin type: weird".to_string()));
    assert!(check_manifest("i", "n", "1", "hybrid").is_ok());
}

#[test]
fn backend_kinds() {
    assert_eq!(backend_kind("plugins/x/backend.wasm"), Some(BackendKind::Wasm));
    assert_eq!(backend_kind("C:\\x\\run.exe"), Some(BackendKind::Sidecar));
    assert_eq!(backend_kind("x/run.EXE"), None);
    assert_eq!(backend_kind("x/run"), None);
    assert_eq!(PluginLoader::new("dir".into()).plugins_dir, "dir");
}
