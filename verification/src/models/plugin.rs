//! Parts of a plugin manifest.

use vstd::prelude::*;
use crate::text::{copy_text, copy_texts, texts};

verus! {

/// The code a plugin brings.
#[derive(Debug, Clone)]
pub struct PluginEntry {
    pub frontend: Option<String>,
    pub backend: Option<String>,
}

/// What a plugin offers.
#[derive(Debug, Clone)]
pub struct PluginCapabilities {
    pub search: Option<SearchCapability>,
    pub commands: Vec<CommandCapability>,
}

impl Default for PluginCapabilities {
    /// Nothing offered.
    fn default() -> (r: Self)
        ensures
            r.search is None,
            r.commands@.len() == 0,
    {
        PluginCapabilities { search: None, commands: Vec::new() }
    }
}

/// A plugin's search source.
#[derive(Debug, Clone)]
pub struct SearchCapability {
    pub enabled: bool,
    pub triggers: Vec<String>,
    pub priority: u32,
}

/// A command that a plugin offers.
#[derive(Debug, Clone)]
pub struct CommandCapability {
    pub id: String,
    pub title: String,
    pub description: Option<String>,
    pub shortcut: Option<String>,
}

/// What a plugin needs.
#[derive(Debug, Clone)]
pub struct PluginDependencies {
    pub monotools: Option<String>,
    pub plugins: Vec<String>,
}

impl Default for PluginDependencies {
    /// Nothing needed.
    fn default() -> (r: Self)
        ensures
            r.monotools is None,
            r.plugins@.len() == 0,
    {
        PluginDependencies { monotools: None, plugins: Vec::new() }
    }
}

/// Limits a plugin asks for.
#[derive(Debug, Clone)]
pub struct PluginResources {
    pub memory_limit: Option<String>,
    pub cpu_limit: Option<String>,
}

impl Default for PluginResources {
    /// No limits.
    fn default() -> (r: Self)
        ensures
            r.memory_limit is None,
            r.cpu_limit is None,
    {
        PluginResources { memory_limit: None, cpu_limit: None }
    }
}

/// The hooks a plugin's back end implements, by entry point name.
#[derive(Debug, Clone)]
pub struct PluginHooks {
    pub activate: Option<String>,
    pub deactivate: Option<String>,
    pub search: Option<String>,
    pub execute: Option<String>,
    pub config_change: Option<String>,
    pub theme_change: Option<String>,
}

impl Default for PluginHooks {
    /// No hooks.
    fn default() -> (r: Self)
        ensures
            r.activate is None && r.deactivate is None && r.search is None && r.execute is None
                && r.config_change is None && r.theme_change is None,
    {
        PluginHooks {
            activate: None,
            deactivate: None,
            search: None,
            execute: None,
            config_change: None,
            theme_change: None,
        }
    }
}

/// What a plugin declares about itself.  Its configuration schema is kept as
/// JSON text.
#[derive(Debug)]
pub struct PluginManifest {
    pub id: String,
    pub name: String,
    pub version: String,
    pub description: Option<String>,
    pub author: Option<String>,
    pub license: Option<String>,
    pub plugin_type: String,
    pub entry: PluginEntry,
    pub permissions: Vec<String>,
    pub capabilities: PluginCapabilities,
    pub hooks: PluginHooks,
    pub config_schema: Option<String>,
    pub dependencies: PluginDependencies,
    pub resources: PluginResources,
    pub is_builtin: bool,
}

/// A loaded plugin: its manifest, whether it is enabled, its place in the
/// load order and when it was installed (Unix seconds).
#[derive(Debug)]
pub struct PluginInfo {
    pub manifest: PluginManifest,
    pub enabled: bool,
    pub load_order: u32,
    pub installed_at: Option<i64>,
}

/// `b` holds what `a` holds: the same texts, flags and numbers throughout.
pub open spec fn same_command(a: CommandCapability, b: CommandCapability) -> bool {
    a.id@ == b.id@ && a.title@ == b.title@ && a.description == b.description && a.shortcut == b.shortcut
}

/// `b` holds what `a` holds.
pub open spec fn same_search(a: Option<SearchCapability>, b: Option<SearchCapability>) -> bool {
    match (a, b) {
        (Some(x), Some(y)) => x.enabled == y.enabled && x.priority == y.priority && texts(x.triggers@) == texts(
            y.triggers@,
        ),
        (None, None) => true,
        _ => false,
    }
}

/// `b` holds what `a` holds.
pub open spec fn same_manifest(a: PluginManifest, b: PluginManifest) -> bool {
    &&& a.id@ == b.id@ && a.name@ == b.name@ && a.version@ == b.version@
    &&& a.description == b.description && a.author == b.author && a.license == b.license
    &&& a.plugin_type@ == b.plugin_type@
    &&& a.entry.frontend == b.entry.frontend && a.entry.backend == b.entry.backend
    &&& texts(a.permissions@) == texts(b.permissions@)
    &&& same_search(a.capabilities.search, b.capabilities.search)
    &&& a.capabilities.commands@.len() == b.capabilities.commands@.len()
    &&& forall|i: int|
        0 <= i < a.capabilities.commands@.len() ==> #[trigger] same_command(
            a.capabilities.commands@[i],
            b.capabilities.commands@[i],
        )
    &&& a.hooks == b.hooks
    &&& a.config_schema == b.config_schema
    &&& a.dependencies.monotools == b.dependencies.monotools
    &&& texts(a.dependencies.plugins@) == texts(b.dependencies.plugins@)
    &&& a.resources.memory_limit == b.resources.memory_limit && a.resources.cpu_limit == b.resources.cpu_limit
    &&& a.is_builtin == b.is_builtin
}

impl PluginManifest {
    /// A copy of the manifest.
    pub fn duplicate(&self) -> (r: PluginManifest)
        ensures
            same_manifest(*self, r),
    {
        let search = match &self.capabilities.search {
            Some(s) => Some(SearchCapability { enabled: s.enabled, triggers: copy_texts(&s.triggers), priority: s.priority }),
            None => None,
        };
        let mut commands: Vec<CommandCapability> = Vec::new();
        let mut i: usize = 0;
        while i < self.capabilities.commands.len()
            invariant
                i <= self.capabilities.commands@.len(),
                commands@.len() == i,
                forall|j: int| 0 <= j < i ==> #[trigger] same_command(self.capabilities.commands@[j], commands@[j]),
            decreases self.capabilities.commands@.len() - i,
        {
            let c = &self.capabilities.commands[i];
            commands.push(CommandCapability {
                id: c.id.clone(),
                title: c.title.clone(),
                description: copy_text(&c.description),
                shortcut: copy_text(&c.shortcut),
            });
            i += 1;
        }
        PluginManifest {
            id: self.id.clone(),
            name: self.name.clone(),
            version: self.version.clone(),
            description: copy_text(&self.description),
            author: copy_text(&self.author),
            license: copy_text(&self.license),
            plugin_type: self.plugin_type.clone(),
            entry: PluginEntry { frontend: copy_text(&self.entry.frontend), backend: copy_text(&self.entry.backend) },
            permissions: copy_texts(&self.permissions),
            capabilities: PluginCapabilities { search, commands },
            hooks: PluginHooks {
                activate: copy_text(&self.hooks.activate),
                deactivate: copy_text(&self.hooks.deactivate),
                search: copy_text(&self.hooks.search),
                execute: copy_text(&self.hooks.execute),
                config_change: copy_text(&self.hooks.config_change),
                theme_change: copy_text(&self.hooks.theme_change),
            },
            config_schema: copy_text(&self.config_schema),
            dependencies: PluginDependencies {
                monotools: copy_text(&self.dependencies.monotools),
                plugins: copy_texts(&self.dependencies.plugins),
            },
            resources: PluginResources {
                memory_limit: copy_text(&self.resources.memory_limit),
                cpu_limit: copy_text(&self.resources.cpu_limit),
            },
            is_builtin: self.is_builtin,
        }
    }
}

} // verus!
