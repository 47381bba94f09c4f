//! Programs that start with the system.

use vstd::prelude::*;
use crate::text::{copy_text, copy_texts, texts};

verus! {

/// Where a startup entry is registered.
#[derive(Debug, Clone, Copy, PartialEq, Eq, Structural)]
pub enum StartupSource {
    /// A value under a registry `Run` key.
    RegistryRun,
    /// A link in a startup folder.
    StartupFolder,
    /// An entry the user added.
    Custom,
}

/// A program started with the system.
#[derive(Debug)]
pub struct StartupItem {
    pub id: String,
    pub name: String,
    pub command: String,
    pub args: Vec<String>,
    pub working_dir: Option<String>,
    pub enabled: bool,
    pub delay_seconds: u32,
    pub run_as_admin: bool,
    pub source: StartupSource,
    /// Seconds since the Unix epoch.
    pub created_at: i64,
}

/// What the user gives to add a startup entry.
#[derive(Debug)]
pub struct NewStartupItem {
    pub name: String,
    pub command: String,
    pub args: Vec<String>,
    pub working_dir: Option<String>,
    pub delay_seconds: u32,
    pub run_as_admin: bool,
}

/// `b` holds what `a` holds: the same texts, flags and numbers.
pub open spec fn same_item(a: StartupItem, b: StartupItem) -> bool {
    &&& a.id@ == b.id@ && a.name@ == b.name@ && a.command@ == b.command@
    &&& texts(a.args@) == texts(b.args@)
    &&& a.working_dir == b.working_dir
    &&& a.enabled == b.enabled && a.delay_seconds == b.delay_seconds && a.run_as_admin == b.run_as_admin
    &&& a.source == b.source && a.created_at == b.created_at
}

/// `b` holds, item by item, what `a` holds.
pub open spec fn same_items(a: Seq<StartupItem>, b: Seq<StartupItem>) -> bool {
    a.len() == b.len() && forall|i: int| 0 <= i < a.len() ==> #[trigger] same_item(a[i], b[i])
}

impl StartupItem {
    /// A copy of the entry.
    pub fn duplicate(&self) -> (r: StartupItem)
        ensures
            same_item(*self, r),
    {
        StartupItem {
            id: self.id.clone(),
            name: self.name.clone(),
            command: self.command.clone(),
            args: copy_texts(&self.args),
            working_dir: copy_text(&self.working_dir),
            enabled: self.enabled,
            delay_seconds: self.delay_seconds,
            run_as_admin: self.run_as_admin,
            source: self.source,
            created_at: self.created_at,
        }
    }

    /// The entry for `n`, as given, enabled, added by the user, with the
    /// identifier `id` and the creation time `created_at`.
    pub fn from_new_with(n: NewStartupItem, id: String, created_at: i64) -> (r: StartupItem)
        ensures
            r.id == id,
            r.name == n.name,
            r.command == n.command,
            r.args == n.args,
            r.working_dir == n.working_dir,
            r.delay_seconds == n.delay_seconds,
            r.run_as_admin == n.run_as_admin,
            r.enabled,
            r.source == StartupSource::Custom,
            r.created_at == created_at,
    {
        StartupItem {
            id,
            name: n.name,
            command: n.command,
            args: n.args,
            working_dir: n.working_dir,
            delay_seconds: n.delay_seconds,
            run_as_admin: n.run_as_admin,
            enabled: true,
            source: StartupSource::Custom,
            created_at,
        }
    }
}

impl StartupItem {
    /// The entry for `n`, enabled, added by the user, with a fresh random
    /// identifier and the current time (`From<NewStartupItem>`).
    pub fn from_new(n: NewStartupItem) -> (r: StartupItem)
        ensures
            r.id@.len() == 36,
            r.name == n.name,
            r.command == n.command,
            r.args == n.args,
            r.working_dir == n.working_dir,
            r.delay_seconds == n.delay_seconds,
            r.run_as_admin == n.run_as_admin,
            r.enabled,
            r.source == StartupSource::Custom,
    {
        let id = crate::repositories::commands::new_command_id();
        let now = crate::clock::now_seconds();
        StartupItem::from_new_with(n, id, now)
    }
}

/// `it` is a discovered entry named `name` that runs `command`: no
/// arguments, no working directory, no delay, not elevated, registered at
/// `source`, enabled as `enabled`, with a fresh identifier.
pub open spec fn discovered_as(
    it: StartupItem,
    name: Seq<char>,
    command: Seq<char>,
    enabled: bool,
    source: StartupSource,
) -> bool {
    &&& it.name@ == name && it.command@ == command && it.enabled == enabled && it.source == source
    &&& it.args@.len() == 0 && it.working_dir is None && it.delay_seconds == 0 && !it.run_as_admin
    &&& it.id@.len() == 36
}

impl StartupItem {
    /// A discovered entry; see `discovered_as`.  Its creation time is now.
    pub fn discovered(name: String, command: String, enabled: bool, source: StartupSource) -> (r: StartupItem)
        ensures
            discovered_as(r, name@, command@, enabled, source),
    {
        StartupItem {
            id: crate::repositories::commands::new_command_id(),
            name,
            command,
            args: Vec::new(),
            working_dir: None,
            enabled,
            delay_seconds: 0,
            run_as_admin: false,
            source,
            created_at: crate::clock::now_seconds(),
        }
    }
}

} // verus!
