//! The plugin manager: the built-in plugins, the loaded ones and whether
//! each is enabled.

use vstd::prelude::*;
use crate::text::{copy_texts, same_str};
use crate::command::prefixed;
use crate::keyed::{distinct_by, lemma_map_by, lemma_map_by_push, lemma_map_by_update, map_by};
use crate::models::plugin::{same_manifest, PluginInfo, PluginManifest};
use crate::plugins::sandbox::{first_forbidden, manager_permission_check, PluginGrant};

verus! {

/// The key of a loaded plugin: its id.
pub open spec fn info_key() -> spec_fn(PluginInfo) -> Seq<char> {
    |p: PluginInfo| p.manifest.id@
}

/// The key of a built-in manifest: its id.
pub open spec fn manifest_key() -> spec_fn(PluginManifest) -> Seq<char> {
    |m: PluginManifest| m.id@
}

/// `b` holds what `a` holds.
pub open spec fn same_info(a: PluginInfo, b: PluginInfo) -> bool {
    same_manifest(a.manifest, b.manifest) && a.enabled == b.enabled && a.load_order == b.load_order
        && a.installed_at == b.installed_at
}

/// Some entry of `r` has the plugin id `id`.
pub open spec fn lists_id(r: Seq<PluginInfo>, id: Seq<char>) -> bool {
    exists|i: int| 0 <= i < r.len() && r[i].manifest.id@ == id
}

/// The permission the manager refuses in `m`, if any: the first core
/// permission of a plugin that is not built in.
pub open spec fn forbidden_permission(m: PluginManifest) -> Option<Seq<char>> {
    match first_forbidden(PluginGrant { id: m.id, permissions: m.permissions, is_builtin: m.is_builtin }, 0) {
        Some(i) => Some(m.permissions@[i]@),
        None => None,
    }
}

proof fn lemma_same_grant(a: PluginGrant, b: PluginGrant, i: int)
    requires
        a.permissions@ == b.permissions@,
        a.is_builtin == b.is_builtin,
    ensures
        first_forbidden(a, i) == first_forbidden(b, i),
    decreases a.permissions@.len() - i,
{
    if 0 <= i < a.permissions@.len() {
        lemma_same_grant(a, b, i + 1);
    }
}

/// The plugins known to the launcher.
pub struct PluginManager {
    plugins: Vec<PluginInfo>,
    builtin_plugins: Vec<PluginManifest>,
}

impl PluginManager {
    /// The loaded plugins, by id.
    pub closed spec fn loaded(&self) -> Map<Seq<char>, PluginInfo> {
        map_by(self.plugins@, info_key())
    }

    /// The built-in plugins, by id.
    pub closed spec fn builtins(&self) -> Map<Seq<char>, PluginManifest> {
        map_by(self.builtin_plugins@, manifest_key())
    }

    /// One entry per id.
    pub closed spec fn wf(&self) -> bool {
        distinct_by(self.plugins@, info_key()) && distinct_by(self.builtin_plugins@, manifest_key())
    }

    /// No plugins.
    pub fn new() -> (r: Self)
        ensures
            r.wf(),
            r.loaded() == Map::<Seq<char>, PluginInfo>::empty(),
            r.builtins() == Map::<Seq<char>, PluginManifest>::empty(),
    {
        PluginManager { plugins: Vec::new(), builtin_plugins: Vec::new() }
    }

    fn plugin_position(&self, id: &str) -> (r: Option<usize>)
        requires
            self.wf(),
        ensures
            match r {
                Some(i) => i < self.plugins@.len() && self.plugins@[i as int].manifest.id@ == id@,
                None => !self.loaded().contains_key(id@),
            },
    {
        let mut i: usize = 0;
        while i < self.plugins.len()
            invariant
                i <= self.plugins@.len(),
                forall|j: int| 0 <= j < i ==> self.plugins@[j].manifest.id@ != id@,
            decreases self.plugins@.len() - i,
        {
            if same_str(self.plugins[i].manifest.id.as_str(), id) {
                return Some(i);
            }
            i += 1;
        }
        proof {
            lemma_map_by(self.plugins@, info_key());
            if self.loaded().contains_key(id@) {
                let j = choose|j: int| 0 <= j < self.plugins@.len() && (info_key())(self.plugins@[j]) == id@;
            }
        }
        None
    }

    fn builtin_position(&self, id: &str) -> (r: Option<usize>)
        requires
            self.wf(),
        ensures
            match r {
                Some(i) => i < self.builtin_plugins@.len() && self.builtin_plugins@[i as int].id@ == id@,
                None => !self.builtins().contains_key(id@),
            },
    {
        let mut i: usize = 0;
        while i < self.builtin_plugins.len()
            invariant
                i <= self.builtin_plugins@.len(),
                forall|j: int| 0 <= j < i ==> self.builtin_plugins@[j].id@ != id@,
            decreases self.builtin_plugins@.len() - i,
        {
            if same_str(self.builtin_plugins[i].id.as_str(), id) {
                return Some(i);
            }
            i += 1;
        }
        proof {
            lemma_map_by(self.builtin_plugins@, manifest_key());
            if self.builtins().contains_key(id@) {
                let j = choose|j: int| 0 <= j < self.builtin_plugins@.len() && (manifest_key())(
                    self.builtin_plugins@[j],
                ) == id@;
            }
        }
        None
    }

    /// Records a built-in plugin, replacing one with the same id.
    pub fn load_builtin(&mut self, manifest: PluginManifest)
        requires
            old(self).wf(),
        ensures
            final(self).wf(),
            final(self).builtins() == old(self).builtins().insert(manifest.id@, manifest),
            final(self).loaded() == old(self).loaded(),
    {
        match self.builtin_position(manifest.id.as_str()) {
            Some(i) => {
                proof {
                    lemma_map_by_update(self.builtin_plugins@, i as int, manifest, manifest_key());
                }
                self.builtin_plugins.set(i, manifest);
            },
            None => {
                proof {
                    lemma_map_by_push(self.builtin_plugins@, manifest, manifest_key());
                }
                self.builtin_plugins.push(manifest);
            },
        }
    }

    fn put(&mut self, info: PluginInfo)
        requires
            old(self).wf(),
        ensures
            final(self).wf(),
            final(self).loaded() == old(self).loaded().insert(info.manifest.id@, info),
            final(self).builtins() == old(self).builtins(),
    {
        match self.plugin_position(info.manifest.id.as_str()) {
            Some(i) => {
                proof {
                    lemma_map_by_update(self.plugins@, i as int, info, info_key());
                }
                self.plugins.set(i, info);
            },
            None => {
                proof {
                    lemma_map_by_push(self.plugins@, info, info_key());
                }
                self.plugins.push(info);
            },
        }
    }

    /// Loads a user plugin, enabled, first in the load order, with no install
    /// time; a plugin that is not built in may not ask for a core permission,
    /// and the error names the first it asks for.
    pub fn load_plugin(&mut self, manifest: PluginManifest) -> (r: Result<(), String>)
        requires
            old(self).wf(),
        ensures
            final(self).wf(),
            final(self).builtins() == old(self).builtins(),
            match forbidden_permission(manifest) {
                Some(p) => r matches Err(m) && m@ == "Forbidden permission: "@ + p && final(self).loaded() == old(
                    self,
                ).loaded(),
                None => r is Ok && final(self).loaded() == old(self).loaded().insert(
                    manifest.id@,
                    PluginInfo { manifest, enabled: true, load_order: 0, installed_at: None },
                ),
            },
    {
        let grant = PluginGrant {
            id: manifest.id.clone(),
            permissions: copy_texts(&manifest.permissions),
            is_builtin: manifest.is_builtin,
        };
        proof {
            assert(grant.permissions@ =~= manifest.permissions@);
            lemma_same_grant(
                grant,
                PluginGrant { id: manifest.id, permissions: manifest.permissions, is_builtin: manifest.is_builtin },
                0,
            );
        }
        match manager_permission_check(&grant) {
            Err(p) => Err(prefixed("Forbidden permission: ", p.as_str())),
            Ok(()) => {
                self.put(PluginInfo { manifest, enabled: true, load_order: 0, installed_at: None });
                Ok(())
            },
        }
    }

    fn set_enabled(&mut self, id: &str, on: bool) -> (r: Result<(), String>)
        requires
            old(self).wf(),
        ensures
            final(self).wf(),
            final(self).builtins() == old(self).builtins(),
            old(self).loaded().contains_key(id@) ==> r is Ok && final(self).loaded() == old(self).loaded().insert(
                id@,
                PluginInfo { enabled: on, ..old(self).loaded()[id@] },
            ),
            !old(self).loaded().contains_key(id@) ==> (r matches Err(m) && m@ == "Plugin not found: "@ + id@)
                && final(self).loaded() == old(self).loaded(),
    {
        match self.plugin_position(id) {
            Some(i) => {
                proof {
                    lemma_map_by(self.plugins@, info_key());
                    assert(map_by(self.plugins@, info_key()).contains_key((info_key())(self.plugins@[i as int])));
                }
                let mut plugins: Vec<PluginInfo> = Vec::new();
                std::mem::swap(&mut plugins, &mut self.plugins);
                let ghost before = plugins@;
                let mut info = plugins.remove(i);
                info.enabled = on;
                plugins.insert(i, info);
                proof {
                    assert(plugins@ =~= before.update(i as int, PluginInfo { enabled: on, ..before[i as int] }));
                    lemma_map_by_update(before, i as int, PluginInfo { enabled: on, ..before[i as int] }, info_key());
                }
                self.plugins = plugins;
                Ok(())
            },
            None => Err(prefixed("Plugin not found: ", id)),
        }
    }

    /// Enables the loaded plugin `id`.
    pub fn enable_plugin(&mut self, id: &str) -> (r: Result<(), String>)
        requires
            old(self).wf(),
        ensures
            final(self).wf(),
            final(self).builtins() == old(self).builtins(),
            old(self).loaded().contains_key(id@) ==> r is Ok && final(self).loaded() == old(self).loaded().insert(
                id@,
                PluginInfo { enabled: true, ..old(self).loaded()[id@] },
            ),
            !old(self).loaded().contains_key(id@) ==> (r matches Err(m) && m@ == "Plugin not found: "@ + id@)
                && final(self).loaded() == old(self).loaded(),
    {
        self.set_enabled(id, true)
    }

    /// Disables the loaded plugin `id`.
    pub fn disable_plugin(&mut self, id: &str) -> (r: Result<(), String>)
        requires
            old(self).wf(),
        ensures
            final(self).wf(),
            final(self).builtins() == old(self).builtins(),
            old(self).loaded().contains_key(id@) ==> r is Ok && final(self).loaded() == old(self).loaded().insert(
                id@,
                PluginInfo { enabled: false, ..old(self).loaded()[id@] },
            ),
            !old(self).loaded().contains_key(id@) ==> (r matches Err(m) && m@ == "Plugin not found: "@ + id@)
                && final(self).loaded() == old(self).loaded(),
    {
        self.set_enabled(id, false)
    }

    /// The built-in plugins, each enabled and first in the load order, when
    /// `builtin_only`; else the loaded plugins, only the enabled ones when
    /// `enabled_only`.  Each plugin once.
    pub fn list_plugins(&self, enabled_only: bool, builtin_only: bool) -> (r: Vec<PluginInfo>)
        requires
            self.wf(),
        ensures
            forall|a: int, b: int| 0 <= a < b < r@.len() ==> r@[a].manifest.id@ != r@[b].manifest.id@,
            builtin_only ==> {
                &&& forall|i: int|
                    0 <= i < r@.len() ==> self.builtins().contains_key(#[trigger] r@[i].manifest.id@)
                        && same_manifest(self.builtins()[r@[i].manifest.id@], r@[i].manifest) && r@[i].enabled
                        && r@[i].load_order == 0 && r@[i].installed_at is None
                &&& forall|id: Seq<char>| #[trigger] self.builtins().contains_key(id) ==> lists_id(r@, id)
            },
            !builtin_only ==> {
                &&& forall|i: int|
                    0 <= i < r@.len() ==> self.loaded().contains_key(#[trigger] r@[i].manifest.id@) && same_info(
                        self.loaded()[r@[i].manifest.id@],
                        r@[i],
                    ) && (enabled_only ==> r@[i].enabled)
                &&& forall|id: Seq<char>|
                    #[trigger] self.loaded().contains_key(id) && (!enabled_only || self.loaded()[id].enabled)
                        ==> lists_id(r@, id)
            },
    {
        let mut r: Vec<PluginInfo> = Vec::new();
        proof {
            lemma_map_by(self.plugins@, info_key());
            lemma_map_by(self.builtin_plugins@, manifest_key());
        }
        if builtin_only {
            let mut i: usize = 0;
            while i < self.builtin_plugins.len()
                invariant
                    self.wf(),
                    i <= self.builtin_plugins@.len(),
                    r@.len() == i,
                    forall|j: int|
                        0 <= j < i ==> #[trigger] r@[j].manifest.id@ == self.builtin_plugins@[j].id@ && same_manifest(
                            self.builtin_plugins@[j],
                            r@[j].manifest,
                        ) && r@[j].enabled && r@[j].load_order == 0 && r@[j].installed_at is None,
                decreases self.builtin_plugins@.len() - i,
            {
                let m = self.builtin_plugins[i].duplicate();
                r.push(PluginInfo { manifest: m, enabled: true, load_order: 0, installed_at: None });
                i += 1;
            }
            proof {
                let s = self.builtin_plugins@;
                assert forall|a: int, b: int| 0 <= a < b < r@.len() implies r@[a].manifest.id@ != r@[b].manifest.id@ by {
                    assert((manifest_key())(s[a]) != (manifest_key())(s[b]));
                }
                assert forall|j: int| 0 <= j < r@.len() implies self.builtins().contains_key(
                    #[trigger] r@[j].manifest.id@,
                ) && same_manifest(self.builtins()[r@[j].manifest.id@], r@[j].manifest) by {
                    assert(map_by(s, manifest_key()).contains_key((manifest_key())(s[j])));
                }
                assert forall|id: Seq<char>| #[trigger] self.builtins().contains_key(id) implies lists_id(r@, id) by {
                    let j = choose|j: int| 0 <= j < s.len() && (manifest_key())(s[j]) == id;
                    assert(r@[j].manifest.id@ == id);
                }
            }
        } else {
            let mut i: usize = 0;
            let ghost mut picked: Seq<int> = Seq::empty();
            while i < self.plugins.len()
                invariant
                    self.wf(),
                    i <= self.plugins@.len(),
                    r@.len() == picked.len(),
                    forall|a: int| 0 <= a < picked.len() ==> 0 <= #[trigger] picked[a] < i,
                    forall|a: int, b: int| 0 <= a < b < picked.len() ==> picked[a] < picked[b],
                    forall|a: int|
                        0 <= a < picked.len() ==> same_info(self.plugins@[picked[a]], #[trigger] r@[a]) && (enabled_only
                            ==> r@[a].enabled),
                    forall|j: int|
                        0 <= j < i && (!enabled_only || self.plugins@[j].enabled) ==> exists|a: int|
                            0 <= a < picked.len() && #[trigger] picked[a] == j,
                decreases self.plugins@.len() - i,
            {
                let p = &self.plugins[i];
                if !enabled_only || p.enabled {
                    let ghost before = picked;
                    let ghost r0 = r@;
                    r.push(
                        PluginInfo {
                            manifest: p.manifest.duplicate(),
                            enabled: p.enabled,
                            load_order: p.load_order,
                            installed_at: p.installed_at,
                        },
                    );
                    proof {
                        picked = picked.push(i as int);
                        assert forall|a: int| 0 <= a < picked.len() implies same_info(
                            self.plugins@[picked[a]],
                            #[trigger] r@[a],
                        ) && (enabled_only ==> r@[a].enabled) by {
                            if a < before.len() {
                                assert(r@[a] == r0[a]);
                                assert(picked[a] == before[a]);
                                assert(same_info(self.plugins@[before[a]], r0[a]));
                            } else {
                                assert(picked[a] == i as int);
                                assert(r@[a] == r@[r0.len() as int]);
                            }
                        }
                        assert forall|j: int|
                            0 <= j < i + 1 && (!enabled_only || self.plugins@[j].enabled) implies exists|a: int|
                            0 <= a < picked.len() && #[trigger] picked[a] == j by {
                            if j < i {
                                let a = choose|a: int| 0 <= a < before.len() && before[a] == j;
                                assert(picked[a] == j);
                            } else {
                                assert(picked[before.len() as int] == j);
                            }
                        }
                    }
                }
                i += 1;
            }
            proof {
                let s = self.plugins@;
                assert forall|a: int, b: int| 0 <= a < b < r@.len() implies r@[a].manifest.id@ != r@[b].manifest.id@ by {
                    assert((info_key())(s[picked[a]]) != (info_key())(s[picked[b]]));
                }
                assert forall|a: int| 0 <= a < r@.len() implies self.loaded().contains_key(
                    #[trigger] r@[a].manifest.id@,
                ) && same_info(self.loaded()[r@[a].manifest.id@], r@[a]) && (enabled_only ==> r@[a].enabled) by {
                    assert(map_by(s, info_key()).contains_key((info_key())(s[picked[a]])));
                }
                assert forall|id: Seq<char>|
                    #[trigger] self.loaded().contains_key(id) && (!enabled_only || self.loaded()[id].enabled)
                        implies lists_id(r@, id) by {
                    let j = choose|j: int| 0 <= j < s.len() && (info_key())(s[j]) == id;
                    assert(map_by(s, info_key()).contains_key((info_key())(s[j])));
                    let a = choose|a: int| 0 <= a < picked.len() && picked[a] == j;
                    assert(r@[a].manifest.id@ == id);
                }
            }
        }
        r
    }
}

impl Default for PluginManager {
    /// No plugins.
    fn default() -> (r: Self)
        ensures
            r.wf(),
            r.loaded() == Map::<Seq<char>, PluginInfo>::empty(),
            r.builtins() == Map::<Seq<char>, PluginManifest>::empty(),
    {
        PluginManager::new()
    }
}

} // verus!
