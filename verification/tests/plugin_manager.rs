use monotools::models::plugin::{
    PluginCapabilities, PluginDependencies, PluginEntry, PluginHooks, PluginManifest, PluginResources,
};
use monotools::plugins::manager::PluginManager;
use monotools::plugins::registry::{CommandEntry, PluginRegistry, SearchProviderEntry, ThemeEntry, ViewEntry};

fn manifest(id: &str, perms: &[&str], builtin: bool) -> PluginManifest {
    PluginManifest {
        id: id.into(),
        name: format!("{id} name"),
        version: "1.0.0".into(),
        description: Some("d".into()),
        author: None,
        license: None,
        plugin_type: "command".into(),
        entry: PluginEntry { frontend: Some("index.js".into()), backend: None },
        permissions: perms.iter().map(|s| s.to_string()).collect(),
        capabilities: PluginCapabilities::default(),
        hooks: PluginHooks::default(),
        config_schema: None,
        dependencies: PluginDependencies::default(),
        resources: PluginResources::default(),
        is_builtin: builtin,
    }
}

#[test]
fn load_enable_disable_list() {
    let mut m = PluginManager::new();
    assert!(m.load_plugin(manifest("a", &["fs:read"], false)).is_ok());
    assert!(m.load_plugin(manifest("b", &[], false)).is_ok());
    assert_eq!(m.list_plugins(false, false).len(), 2);
    assert!(m.disable_plugin("a").is_ok());
    let enabled = m.list_plugins(true, false);
    assert_eq!(enabled.len(), 1);
    assert_eq!(enabled[0].manifest.id, "b");
    assert!(enabled[0].enabled);
    assert_eq!(enabled[0].load_order, 0);
    assert!(enabled[0].installed_at.is_none());
    assert!(m.enable_plugin("a").is_ok());
    assert_eq!(m.list_plugins(true, false).len(), 2);
    assert_eq!(m.enable_plugin("zz"), Err("Plugin not found: zz".to_string()));
    assert_eq!(m.disable_plugin("zz"), Err("Plugin not found: zz".to_string()));
}

#[test]
fn user_plugins_may_not_ask_core() {
    let mut m = PluginManager::default();
    assert_eq!(
        m.load_plugin(manifest("x", &["fs:read", "core:admin", "core:other"], false)),
        Err("Forbidden permission: core:admin".to_string())
    );
    assert!(m.list_plugins(false, false).is_empty());
    assert!(m.load_plugin(manifest("y", &["core:admin"], true)).is_ok());
}

#[test]
fn builtins_listed_enabled() {
    let mut m = PluginManager::new();
    m.load_builtin(manifest("core-theme", &[], true));
    m.load_builtin(manifest("core-theme", &["ui:show"], true));
    let l = m.list_plugins(false, true);
    assert_eq!(l.len(), 1);
    assert_eq!(l[0].manifest.id, "core-theme");
    assert_eq!(l[0].manifest.permissions, vec!["ui:show".to_string()]);
    assert!(l[0].enabled);
    assert!(m.list_plugins(false, false).is_empty());
}

#[test]
fn loading_again_replaces() {
    let mut m = PluginManager::new();
    m.load_plugin(manifest("a", &[], false)).unwrap();
    m.disable_plugin("a").unwrap();
    m.load_plugin(manifest("a", &["fs:read"], false)).unwrap();
    let l = m.list_plugins(false, false);
    assert_eq!(l.len(), 1);
    assert!(l[0].enabled);
    assert_eq!(l[0].manifest.name, "a name");
}

#[test]
fn registry_keys_and_clear() {
    let mut r = PluginRegistry::new();
    r.register_search_provider(
        "p".into(),
        SearchProviderEntry { manifest: manifest("p", &[], false), triggers: vec!["!p".into()], priority: 3 },
    );
    r.register_search_provider(
        "p".into(),
        SearchProviderEntry { manifest: manifest("p", &[], false), triggers: vec![], priority: 7 },
    );
    let providers = r.get_search_providers();
    assert_eq!(providers.len(), 1);
    assert_eq!(providers[0].0, "p");
    assert_eq!(providers[0].1.priority, 7);
    r.register_command(
        "p".into(),
        CommandEntry { manifest: manifest("p", &[], false), id: "run".into(), title: "Run".into(), description: None, shortcut: None },
    );
    let cmds = r.get_commands();
    assert_eq!(cmds.len(), 1);
    assert_eq!(cmds[0].0, "p:run");
    assert_eq!(cmds[0].1.title, "Run");
    r.register_view("p".into(), "/v".into(), ViewEntry { manifest: manifest("p", &[], false), route: "/v".into(), component_path: "v.js".into() });
    r.register_theme("p".into(), ThemeEntry { manifest: manifest("p", &[], false), css_path: "t.css".into() });
    r.unregister_command("p", "run");
    assert!(r.get_commands().is_empty());
    r.unregister_search_provider("p");
    assert!(r.get_search_providers().is_empty());
    r.register_search_provider("q".into(), SearchProviderEntry { manifest: manifest("q", &[], false), triggers: vec![], priority: 1 });
    r.clear();
    assert!(r.get_search_providers().is_empty());
    assert!(PluginRegistry::default().get_commands().is_empty());
}

#[test]
fn manifest_copy_keeps_fields() {
    let m = manifest("a", &["fs:read"], false);
    let c = m.duplicate();
    assert_eq!(c.id, "a");
    assert_eq!(c.name, "a name");
    assert_eq!(c.description, Some("d".to_string()));
    assert_eq!(c.entry.frontend, Some("index.js".to_string()));
    assert_eq!(c.permissions, vec!["fs:read".to_string()]);
    assert!(!c.is_builtin);
}
