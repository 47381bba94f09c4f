//! What plugins register: search providers, commands, views and themes.

use vstd::prelude::*;
use crate::text::{copy_text, copy_texts, same_str, texts};
use crate::command::framed;
use crate::keyed::{distinct_by, lemma_map_by, lemma_map_by_push, lemma_map_by_update, map_by};
use crate::models::plugin::{same_manifest, PluginManifest};

verus! {

/// A plugin's search source.
#[derive(Debug)]
pub struct SearchProviderEntry {
    pub manifest: PluginManifest,
    pub triggers: Vec<String>,
    pub priority: u32,
}

/// A command a plugin offers.
#[derive(Debug)]
pub struct CommandEntry {
    pub manifest: PluginManifest,
    pub id: String,
    pub title: String,
    pub description: Option<String>,
    pub shortcut: Option<String>,
}

/// A view a plugin offers at a route.
#[derive(Debug)]
pub struct ViewEntry {
    pub manifest: PluginManifest,
    pub route: String,
    pub component_path: String,
}

/// A theme a plugin offers.
#[derive(Debug)]
pub struct ThemeEntry {
    pub manifest: PluginManifest,
    pub css_path: String,
}

/// `b` holds what `a` holds.
pub open spec fn same_provider(a: SearchProviderEntry, b: SearchProviderEntry) -> bool {
    same_manifest(a.manifest, b.manifest) && texts(a.triggers@) == texts(b.triggers@) && a.priority == b.priority
}

/// `b` holds what `a` holds.
pub open spec fn same_command_entry(a: CommandEntry, b: CommandEntry) -> bool {
    same_manifest(a.manifest, b.manifest) && a.id@ == b.id@ && a.title@ == b.title@ && a.description
        == b.description && a.shortcut == b.shortcut
}

/// The key of a registered item.
pub open spec fn entry_key<E>() -> spec_fn((String, E)) -> Seq<char> {
    |e: (String, E)| e.0@
}

/// The key of an item `id` of plugin `plugin`: `plugin:id`.
pub open spec fn scoped_key(plugin: Seq<char>, id: Seq<char>) -> Seq<char> {
    plugin + ":"@ + id
}

fn position<E>(s: &Vec<(String, E)>, key: &str) -> (r: Option<usize>)
    requires
        distinct_by(s@, entry_key::<E>()),
    ensures
        match r {
            Some(i) => i < s@.len() && s@[i as int].0@ == key@,
            None => !map_by(s@, entry_key::<E>()).contains_key(key@),
        },
{
    let mut i: usize = 0;
    while i < s.len()
        invariant
            i <= s@.len(),
            forall|j: int| 0 <= j < i ==> s@[j].0@ != key@,
        decreases s@.len() - i,
    {
        if same_str(s[i].0.as_str(), key) {
            return Some(i);
        }
        i += 1;
    }
    proof {
        lemma_map_by(s@, entry_key::<E>());
        if map_by(s@, entry_key::<E>()).contains_key(key@) {
            let j = choose|j: int| 0 <= j < s@.len() && (entry_key::<E>())(s@[j]) == key@;
        }
    }
    None
}

fn put<E>(s: &mut Vec<(String, E)>, key: String, e: E)
    requires
        distinct_by(old(s)@, entry_key::<E>()),
    ensures
        distinct_by(final(s)@, entry_key::<E>()),
        map_by(final(s)@, entry_key::<E>()) == map_by(old(s)@, entry_key::<E>()).insert(key@, (key, e)),
{
    match position(s, key.as_str()) {
        Some(i) => {
            proof {
                lemma_map_by_update(s@, i as int, (key, e), entry_key::<E>());
            }
            s.set(i, (key, e));
        },
        None => {
            proof {
                lemma_map_by_push(s@, (key, e), entry_key::<E>());
            }
            s.push((key, e));
        },
    }
}

fn drop_key<E>(s: &mut Vec<(String, E)>, key: &str)
    requires
        distinct_by(old(s)@, entry_key::<E>()),
    ensures
        distinct_by(final(s)@, entry_key::<E>()),
        map_by(final(s)@, entry_key::<E>()) == map_by(old(s)@, entry_key::<E>()).remove(key@),
{
    match position(s, key) {
        Some(i) => {
            let ghost before = s@;
            let ghost removed = before[i as int];
            s.remove(i);
            proof {
                let after = s@;
                lemma_map_by(before, entry_key::<E>());
                assert(distinct_by(after, entry_key::<E>())) by {
                    assert forall|a: int, b: int| 0 <= a < b < after.len() implies (entry_key::<E>())(after[a])
                        != (entry_key::<E>())(after[b]) by {
                        let a0 = if a < i { a } else { a + 1 };
                        let b0 = if b < i { b } else { b + 1 };
                        assert(after[a] == before[a0] && after[b] == before[b0]);
                    }
                }
                lemma_map_by(after, entry_key::<E>());
                assert forall|k: Seq<char>| #[trigger] map_by(after, entry_key::<E>()).contains_key(k) == map_by(
                    before,
                    entry_key::<E>(),
                ).remove(key@).contains_key(k) by {
                    if map_by(after, entry_key::<E>()).contains_key(k) {
                        let j = choose|j: int| 0 <= j < after.len() && (entry_key::<E>())(after[j]) == k;
                        let j0 = if j < i { j } else { j + 1 };
                        assert(after[j] == before[j0]);
                        assert(map_by(before, entry_key::<E>()).contains_key((entry_key::<E>())(before[j0])));
                    }
                    if map_by(before, entry_key::<E>()).remove(key@).contains_key(k) {
                        let j = choose|j: int| 0 <= j < before.len() && (entry_key::<E>())(before[j]) == k;
                        let j1 = if j < i { j } else { j - 1 };
                        assert(after[j1] == before[j]);
                        assert(map_by(after, entry_key::<E>()).contains_key((entry_key::<E>())(after[j1])));
                    }
                }
                assert forall|k: Seq<char>| #[trigger] map_by(after, entry_key::<E>()).contains_key(k) implies map_by(
                    after,
                    entry_key::<E>(),
                )[k] == map_by(before, entry_key::<E>())[k] by {
                    let j = choose|j: int| 0 <= j < after.len() && (entry_key::<E>())(after[j]) == k;
                    let j0 = if j < i { j } else { j + 1 };
                    assert(after[j] == before[j0]);
                    assert(map_by(after, entry_key::<E>()).contains_key((entry_key::<E>())(after[j])));
                    assert(map_by(before, entry_key::<E>()).contains_key((entry_key::<E>())(before[j0])));
                }
                assert(map_by(after, entry_key::<E>()) =~= map_by(before, entry_key::<E>()).remove(key@));
            }
        },
        None => {
            proof {
                assert(map_by(s@, entry_key::<E>()).remove(key@) =~= map_by(s@, entry_key::<E>()));
            }
        },
    }
}

/// What plugins have registered.
pub struct PluginRegistry {
    search_providers: Vec<(String, SearchProviderEntry)>,
    commands: Vec<(String, CommandEntry)>,
    views: Vec<(String, ViewEntry)>,
    themes: Vec<(String, ThemeEntry)>,
}

impl PluginRegistry {
    /// The search providers, by plugin id.
    pub closed spec fn providers(&self) -> Map<Seq<char>, (String, SearchProviderEntry)> {
        map_by(self.search_providers@, entry_key())
    }

    /// The commands, by `plugin:command`.
    pub closed spec fn command_map(&self) -> Map<Seq<char>, (String, CommandEntry)> {
        map_by(self.commands@, entry_key())
    }

    /// The views, by `plugin:route`.
    pub closed spec fn view_map(&self) -> Map<Seq<char>, (String, ViewEntry)> {
        map_by(self.views@, entry_key())
    }

    /// The themes, by plugin id.
    pub closed spec fn theme_map(&self) -> Map<Seq<char>, (String, ThemeEntry)> {
        map_by(self.themes@, entry_key())
    }

    /// One entry per key in each table.
    pub closed spec fn wf(&self) -> bool {
        &&& distinct_by(self.search_providers@, entry_key())
        &&& distinct_by(self.commands@, entry_key())
        &&& distinct_by(self.views@, entry_key())
        &&& distinct_by(self.themes@, entry_key())
    }

    /// Nothing registered.
    pub fn new() -> (r: Self)
        ensures
            r.wf(),
            r.providers().dom().len() == 0 && r.command_map().dom().len() == 0,
            r.view_map().dom().len() == 0 && r.theme_map().dom().len() == 0,
    {
        let r = PluginRegistry { search_providers: Vec::new(), commands: Vec::new(), views: Vec::new(), themes: Vec::new() };
        assert(r.providers().dom() =~= Set::<Seq<char>>::empty());
        assert(r.command_map().dom() =~= Set::<Seq<char>>::empty());
        assert(r.view_map().dom() =~= Set::<Seq<char>>::empty());
        assert(r.theme_map().dom() =~= Set::<Seq<char>>::empty());
        r
    }

    /// Registers the search provider of `plugin_id`, replacing its earlier one.
    pub fn register_search_provider(&mut self, plugin_id: String, provider: SearchProviderEntry)
        requires
            old(self).wf(),
        ensures
            final(self).wf(),
            final(self).providers() == old(self).providers().insert(plugin_id@, (plugin_id, provider)),
            final(self).command_map() == old(self).command_map(),
            final(self).view_map() == old(self).view_map(),
            final(self).theme_map() == old(self).theme_map(),
    {
        put(&mut self.search_providers, plugin_id, provider);
    }

    /// Removes the search provider of `plugin_id`.
    pub fn unregister_search_provider(&mut self, plugin_id: &str)
        requires
            old(self).wf(),
        ensures
            final(self).wf(),
            final(self).providers() == old(self).providers().remove(plugin_id@),
            final(self).command_map() == old(self).command_map(),
            final(self).view_map() == old(self).view_map(),
            final(self).theme_map() == old(self).theme_map(),
    {
        drop_key(&mut self.search_providers, plugin_id);
    }

    /// Registers a command of `plugin_id` under `plugin_id:command-id`.
    pub fn register_command(&mut self, plugin_id: String, command: CommandEntry)
        requires
            old(self).wf(),
        ensures
            final(self).wf(),
            exists|k: String|
                k@ == scoped_key(plugin_id@, command.id@) && final(self).command_map() == old(self).command_map().insert(
                    k@,
                    (k, command),
                ),
            final(self).providers() == old(self).providers(),
            final(self).view_map() == old(self).view_map(),
            final(self).theme_map() == old(self).theme_map(),
    {
        let key = framed(plugin_id.as_str(), ":", command.id.as_str());
        let ghost k = key;
        let ghost c = command;
        put(&mut self.commands, key, command);
        assert(k@ == scoped_key(plugin_id@, c.id@) && self.command_map() == old(self).command_map().insert(k@, (k, c)));
    }

    /// Removes the command `plugin_id:command_id`.
    pub fn unregister_command(&mut self, plugin_id: &str, command_id: &str)
        requires
            old(self).wf(),
        ensures
            final(self).wf(),
            final(self).command_map() == old(self).command_map().remove(scoped_key(plugin_id@, command_id@)),
            final(self).providers() == old(self).providers(),
            final(self).view_map() == old(self).view_map(),
            final(self).theme_map() == old(self).theme_map(),
    {
        let key = framed(plugin_id, ":", command_id);
        drop_key(&mut self.commands, key.as_str());
    }

    /// Registers a view of `plugin_id` under `plugin_id:route`.
    pub fn register_view(&mut self, plugin_id: String, route: String, view: ViewEntry)
        requires
            old(self).wf(),
        ensures
            final(self).wf(),
            exists|k: String|
                k@ == scoped_key(plugin_id@, route@) && final(self).view_map() == old(self).view_map().insert(k@, (k, view)),
            final(self).providers() == old(self).providers(),
            final(self).command_map() == old(self).command_map(),
            final(self).theme_map() == old(self).theme_map(),
    {
        let key = framed(plugin_id.as_str(), ":", route.as_str());
        let ghost k = key;
        let ghost v = view;
        put(&mut self.views, key, view);
        assert(k@ == scoped_key(plugin_id@, route@) && self.view_map() == old(self).view_map().insert(k@, (k, v)));
    }

    /// Registers the theme of `plugin_id`, replacing its earlier one.
    pub fn register_theme(&mut self, plugin_id: String, theme: ThemeEntry)
        requires
            old(self).wf(),
        ensures
            final(self).wf(),
            final(self).theme_map() == old(self).theme_map().insert(plugin_id@, (plugin_id, theme)),
            final(self).providers() == old(self).providers(),
            final(self).command_map() == old(self).command_map(),
            final(self).view_map() == old(self).view_map(),
    {
        put(&mut self.themes, plugin_id, theme);
    }

    /// Every search provider with its plugin id, each once.
    pub fn get_search_providers(&self) -> (r: Vec<(String, SearchProviderEntry)>)
        requires
            self.wf(),
        ensures
            distinct_by(r@, entry_key()),
            map_by(r@, entry_key()).dom() == self.providers().dom(),
            forall|i: int|
                0 <= i < r@.len() ==> #[trigger] same_provider(self.providers()[r@[i].0@].1, r@[i].1),
    {
        let s = &self.search_providers;
        let mut r: Vec<(String, SearchProviderEntry)> = Vec::new();
        let mut i: usize = 0;
        while i < s.len()
            invariant
                distinct_by(s@, entry_key()),
                i <= s@.len(),
                r@.len() == i,
                forall|j: int| 0 <= j < i ==> #[trigger] r@[j].0@ == s@[j].0@ && same_provider(s@[j].1, r@[j].1),
            decreases s@.len() - i,
        {
            let e = &s[i].1;
            r.push((
                s[i].0.clone(),
                SearchProviderEntry { manifest: e.manifest.duplicate(), triggers: copy_texts(&e.triggers), priority: e.priority },
            ));
            i += 1;
        }
        proof {
            lemma_keys_copied(s@, r@);
            lemma_map_by(s@, entry_key());
            assert forall|j: int| 0 <= j < r@.len() implies #[trigger] same_provider(
                self.providers()[r@[j].0@].1,
                r@[j].1,
            ) by {
                assert(map_by(s@, entry_key()).contains_key((entry_key::<SearchProviderEntry>())(s@[j])));
            }
        }
        r
    }

    /// Every command with its `plugin:command` key, each once.
    pub fn get_commands(&self) -> (r: Vec<(String, CommandEntry)>)
        requires
            self.wf(),
        ensures
            distinct_by(r@, entry_key()),
            map_by(r@, entry_key()).dom() == self.command_map().dom(),
            forall|i: int|
                0 <= i < r@.len() ==> #[trigger] same_command_entry(self.command_map()[r@[i].0@].1, r@[i].1),
    {
        let s = &self.commands;
        let mut r: Vec<(String, CommandEntry)> = Vec::new();
        let mut i: usize = 0;
        while i < s.len()
            invariant
                distinct_by(s@, entry_key()),
                i <= s@.len(),
                r@.len() == i,
                forall|j: int| 0 <= j < i ==> #[trigger] r@[j].0@ == s@[j].0@ && same_command_entry(s@[j].1, r@[j].1),
            decreases s@.len() - i,
        {
            let e = &s[i].1;
            r.push((
                s[i].0.clone(),
                CommandEntry {
                    manifest: e.manifest.duplicate(),
                    id: e.id.clone(),
                    title: e.title.clone(),
                    description: copy_text(&e.description),
                    shortcut: copy_text(&e.shortcut),
                },
            ));
            i += 1;
        }
        proof {
            lemma_keys_copied(s@, r@);
            lemma_map_by(s@, entry_key());
            assert forall|j: int| 0 <= j < r@.len() implies #[trigger] same_command_entry(
                self.command_map()[r@[j].0@].1,
                r@[j].1,
            ) by {
                assert(map_by(s@, entry_key()).contains_key((entry_key::<CommandEntry>())(s@[j])));
            }
        }
        r
    }

    /// Forgets everything registered, as before a reload.
    pub fn clear(&mut self)
        ensures
            final(self).wf(),
            final(self).providers().dom().len() == 0 && final(self).command_map().dom().len() == 0,
            final(self).view_map().dom().len() == 0 && final(self).theme_map().dom().len() == 0,
    {
        *self = PluginRegistry::new();
    }
}

proof fn lemma_keys_copied<E, F>(s: Seq<(String, E)>, r: Seq<(String, F)>)
    requires
        distinct_by(s, entry_key()),
        r.len() == s.len(),
        forall|j: int| 0 <= j < r.len() ==> #[trigger] r[j].0@ == s[j].0@,
    ensures
        distinct_by(r, entry_key()),
        map_by(r, entry_key()).dom() == map_by(s, entry_key()).dom(),
{
    assert forall|a: int, b: int| 0 <= a < b < r.len() implies (entry_key::<F>())(r[a]) != (entry_key::<F>())(r[b]) by {
        assert((entry_key::<E>())(s[a]) != (entry_key::<E>())(s[b]));
    }
    lemma_map_by(s, entry_key());
    lemma_map_by(r, entry_key());
    assert forall|k: Seq<char>| map_by(r, entry_key()).dom().contains(k) == map_by(s, entry_key()).dom().contains(k) by {
        if map_by(r, entry_key()).contains_key(k) {
            let j = choose|j: int| 0 <= j < r.len() && (entry_key::<F>())(r[j]) == k;
            assert(map_by(s, entry_key()).contains_key((entry_key::<E>())(s[j])));
        }
        if map_by(s, entry_key()).contains_key(k) {
            let j = choose|j: int| 0 <= j < s.len() && (entry_key::<E>())(s[j]) == k;
            assert(map_by(r, entry_key()).contains_key((entry_key::<F>())(r[j])));
        }
    }
    assert(map_by(r, entry_key()).dom() =~= map_by(s, entry_key()).dom());
}

impl Default for PluginRegistry {
    /// Nothing registered.
    fn default() -> (r: Self)
        ensures
            r.wf(),
    {
        PluginRegistry::new()
    }
}

} // verus!
