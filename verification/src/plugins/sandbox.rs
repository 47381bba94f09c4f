//! Permission checks of plugins.

use vstd::prelude::*;
use crate::text::{chars_of, has_prefix, is_lit, lemma_split_on_extend, lemma_split_on_pair, same_chars, split_char, split_on, starts_with};

verus! {

/// What the permission checks read of a plugin manifest.
#[derive(Debug, Clone)]
pub struct PluginGrant {
    pub id: String,
    /// Permissions the manifest declares.
    pub permissions: Vec<String>,
    pub is_builtin: bool,
}

/// Why a permission check failed.
#[derive(Debug, Clone, PartialEq, Eq)]
pub enum SandboxError {
    /// A `core:` permission was asked of a plugin that is not built in.
    CoreForbidden { plugin: String, permission: String },
    /// The manifest does not declare the permission.
    Undeclared { plugin: String, permission: String },
    /// The manifest declares none of the permissions.
    NoneDeclared { plugin: String, required: Vec<String> },
    /// A declared permission is not `namespace:action`.
    InvalidFormat(String),
    /// A plugin that is not built in declares a `core:` permission.
    CoreRequested { plugin: String, permission: String },
}

/// Namespaces a permission may name.
pub open spec fn namespaces() -> Seq<Seq<char>> {
    seq!["core"@, "fs"@, "ui"@, "system"@, "clipboard"@, "network"@, "storage"@, "plugin"@]
}

/// A permission is `namespace:action`: exactly one colon, a known namespace,
/// and an action that is not empty.
pub open spec fn valid_permission(p: Seq<char>) -> bool {
    let parts = split_on(p, ':');
    parts.len() == 2 && namespaces().contains(parts[0]) && parts[1].len() > 0
}

/// The permission is a core one.
pub open spec fn is_core(p: Seq<char>) -> bool {
    starts_with(p, "core:"@)
}

/// The grant declares `p`.
pub open spec fn declares(g: PluginGrant, p: Seq<char>) -> bool {
    exists|i: int| 0 <= i < g.permissions@.len() && #[trigger] g.permissions@[i]@ == p
}

/// The first declared permission, from `i` on, that is malformed or a core
/// one of a plugin that is not built in, with whether it is malformed.
pub open spec fn first_bad(g: PluginGrant, i: int) -> Option<(int, bool)>
    decreases g.permissions@.len() - i,
{
    if i < 0 || i >= g.permissions@.len() {
        None
    } else if !valid_permission(g.permissions@[i]@) {
        Some((i, true))
    } else if is_core(g.permissions@[i]@) && !g.is_builtin {
        Some((i, false))
    } else {
        first_bad(g, i + 1)
    }
}

fn starts_core(p: &String) -> (r: bool)
    ensures
        r == is_core(p@),
{
    let c = chars_of(p.as_str());
    let l = chars_of("core:");
    has_prefix(c.as_slice(), l.as_slice())
}

fn declared(g: &PluginGrant, p: &str) -> (r: bool)
    ensures
        r == declares(*g, p@),
{
    let pc = chars_of(p);
    let mut i: usize = 0;
    while i < g.permissions.len()
        invariant
            i <= g.permissions@.len(),
            pc@ == p@,
            forall|j: int| 0 <= j < i ==> #[trigger] g.permissions@[j]@ != p@,
        decreases g.permissions@.len() - i,
    {
        let c = chars_of(g.permissions[i].as_str());
        if same_chars(c.as_slice(), pc.as_slice()) {
            return true;
        }
        i += 1;
    }
    false
}

fn copy_string(s: &str) -> (r: String)
    ensures
        r@ == s@,
{
    let cs = chars_of(s);
    crate::text::string_of(cs.as_slice())
}

/// Permission checks of plugins.
#[derive(Debug, Clone, Copy)]
pub struct PluginSandbox;

impl Default for PluginSandbox {
    fn default() -> (r: Self) {
        PluginSandbox
    }
}

impl PluginSandbox {
    /// Whether `permission` is `namespace:action`; see `valid_permission`.
    pub fn is_valid_permission_format(permission: &str) -> (r: bool)
        ensures
            r == valid_permission(permission@),
    {
        let cs = chars_of(permission);
        let parts = split_char(cs.as_slice(), ':');
        let ghost pv = parts@.map_values(|p: Vec<char>| p@);
        if parts.len() != 2 {
            return false;
        }
        assert(pv[0] == parts@[0]@ && pv[1] == parts@[1]@);
        let ns = parts[0].as_slice();
        let known = is_lit(ns, "core") || is_lit(ns, "fs") || is_lit(ns, "ui") || is_lit(ns, "system")
            || is_lit(ns, "clipboard") || is_lit(ns, "network") || is_lit(ns, "storage") || is_lit(ns, "plugin");
        proof {
            let n = pv[0];
            if namespaces().contains(n) {
                let k = choose|k: int| 0 <= k < 8 && namespaces()[k] == n;
            }
            if n == "core"@ { assert(namespaces()[0] == n); }
            if n == "fs"@ { assert(namespaces()[1] == n); }
            if n == "ui"@ { assert(namespaces()[2] == n); }
            if n == "system"@ { assert(namespaces()[3] == n); }
            if n == "clipboard"@ { assert(namespaces()[4] == n); }
            if n == "network"@ { assert(namespaces()[5] == n); }
            if n == "storage"@ { assert(namespaces()[6] == n); }
            if n == "plugin"@ { assert(namespaces()[7] == n); }
        }
        known && parts[1].len() > 0
    }

    /// Checks that the plugin may use `required_permission`: a core one only
    /// when built in, and only when declared.
    pub fn check_permission(g: &PluginGrant, required_permission: &str) -> (r: Result<(), SandboxError>)
        ensures
            match r {
                Ok(()) => (!is_core(required_permission@) || g.is_builtin) && declares(*g, required_permission@),
                Err(SandboxError::CoreForbidden { plugin, permission }) => is_core(required_permission@)
                    && !g.is_builtin && plugin@ == g.id@ && permission@ == required_permission@,
                Err(SandboxError::Undeclared { plugin, permission }) => (!is_core(required_permission@) || g.is_builtin)
                    && !declares(*g, required_permission@) && plugin@ == g.id@ && permission@ == required_permission@,
                Err(_) => false,
            },
    {
        let rc = chars_of(required_permission);
        let core_lit = chars_of("core:");
        if has_prefix(rc.as_slice(), core_lit.as_slice()) && !g.is_builtin {
            return Err(SandboxError::CoreForbidden { plugin: g.id.clone(), permission: copy_string(required_permission) });
        }
        if !declared(g, required_permission) {
            return Err(SandboxError::Undeclared { plugin: g.id.clone(), permission: copy_string(required_permission) });
        }
        Ok(())
    }

    /// Checks that the plugin declares at least one of `required`.
    pub fn check_any_permission(g: &PluginGrant, required: &[&str]) -> (r: Result<(), SandboxError>)
        ensures
            match r {
                Ok(()) => exists|i: int| 0 <= i < required@.len() && declares(*g, #[trigger] required@[i]@),
                Err(SandboxError::NoneDeclared { plugin, required: req }) => (forall|i: int|
                    0 <= i < required@.len() ==> !declares(*g, #[trigger] required@[i]@)) && plugin@ == g.id@
                    && req@.map_values(|s: String| s@) == required@.map_values(|s: &str| s@),
                Err(_) => false,
            },
    {
        let mut i: usize = 0;
        while i < required.len()
            invariant
                i <= required@.len(),
                forall|j: int| 0 <= j < i ==> !declares(*g, #[trigger] required@[j]@),
            decreases required@.len() - i,
        {
            if declared(g, required[i]) {
                return Ok(());
            }
            i += 1;
        }
        let mut req: Vec<String> = Vec::new();
        let mut k: usize = 0;
        while k < required.len()
            invariant
                k <= required@.len(),
                req@.len() == k,
                forall|j: int| 0 <= j < k ==> #[trigger] req@[j]@ == required@[j]@,
            decreases required@.len() - k,
        {
            req.push(copy_string(required[k]));
            k += 1;
        }
        assert(req@.map_values(|s: String| s@) =~= required@.map_values(|s: &str| s@));
        Err(SandboxError::NoneDeclared { plugin: g.id.clone(), required: req })
    }

    /// Checks every declared permission in order: the first malformed one, or
    /// the first core one of a plugin that is not built in, is the error.
    pub fn validate_permissions(g: &PluginGrant) -> (r: Result<(), SandboxError>)
        ensures
            match r {
                Ok(()) => first_bad(*g, 0) is None,
                Err(SandboxError::InvalidFormat(p)) => first_bad(*g, 0) matches Some((i, true)) && p@ == g.permissions@[i]@,
                Err(SandboxError::CoreRequested { plugin, permission }) => first_bad(*g, 0) matches Some((i, false))
                    && permission@ == g.permissions@[i]@ && plugin@ == g.id@,
                Err(_) => false,
            },
    {
        let mut i: usize = 0;
        while i < g.permissions.len()
            invariant
                i <= g.permissions@.len(),
                first_bad(*g, 0) == first_bad(*g, i as int),
            decreases g.permissions@.len() - i,
        {
            let p = &g.permissions[i];
            if !Self::is_valid_permission_format(p.as_str()) {
                return Err(SandboxError::InvalidFormat(p.clone()));
            }
            if starts_core(p) && !g.is_builtin {
                return Err(SandboxError::CoreRequested { plugin: g.id.clone(), permission: p.clone() });
            }
            i += 1;
        }
        Ok(())
    }
}

/// The first declared permission, from `i` on, that is a core one of a
/// plugin that is not built in.
pub open spec fn first_forbidden(g: PluginGrant, i: int) -> Option<int>
    decreases g.permissions@.len() - i,
{
    if i < 0 || i >= g.permissions@.len() {
        None
    } else if is_core(g.permissions@[i]@) && !g.is_builtin {
        Some(i)
    } else {
        first_forbidden(g, i + 1)
    }
}

/// The plugin manager's check before loading a plugin: no core permission
/// unless built in; the error names the first forbidden one.
pub fn manager_permission_check(g: &PluginGrant) -> (r: Result<(), String>)
    ensures
        match r {
            Ok(()) => first_forbidden(*g, 0) is None,
            Err(p) => first_forbidden(*g, 0) matches Some(i) && p@ == g.permissions@[i]@,
        },
{
    let mut i: usize = 0;
    while i < g.permissions.len()
        invariant
            i <= g.permissions@.len(),
            first_forbidden(*g, 0) == first_forbidden(*g, i as int),
        decreases g.permissions@.len() - i,
    {
        if starts_core(&g.permissions[i]) && !g.is_builtin {
            return Err(g.permissions[i].clone());
        }
        i += 1;
    }
    Ok(())
}

/// Every permission `namespace:action` whose namespace is one of `core`,
/// `fs`, `ui`, `system`, `clipboard`, `network`, `storage` or `plugin` and
/// whose action is not empty and has no colon is well formed (such as
/// `clipboard:write`).
pub proof fn law_known_namespace_actions_are_valid(ns: Seq<char>, action: Seq<char>)
    requires
        ns == "core"@ || ns == "fs"@ || ns == "ui"@ || ns == "system"@ || ns == "clipboard"@ || ns == "network"@ || ns == "storage"@ || ns == "plugin"@,
        action.len() > 0,
        forall|i: int| 0 <= i < action.len() ==> action[i] != ':',
    ensures
        valid_permission(ns + seq![':'] + action),
{
    if ns == "core"@ {
        reveal_strlit("core");
        assert(namespaces()[0] == ns);
    }
    if ns == "fs"@ {
        reveal_strlit("fs");
        assert(namespaces()[1] == ns);
    }
    if ns == "ui"@ {
        reveal_strlit("ui");
        assert(namespaces()[2] == ns);
    }
    if ns == "system"@ {
        reveal_strlit("system");
        assert(namespaces()[3] == ns);
    }
    if ns == "clipboard"@ {
        reveal_strlit("clipboard");
        assert(namespaces()[4] == ns);
    }
    if ns == "network"@ {
        reveal_strlit("network");
        assert(namespaces()[5] == ns);
    }
    if ns == "storage"@ {
        reveal_strlit("storage");
        assert(namespaces()[6] == ns);
    }
    if ns == "plugin"@ {
        reveal_strlit("plugin");
        assert(namespaces()[7] == ns);
    }
    lemma_split_on_pair(ns, action, ':');
}

/// A permission `namespace:action` with one colon is well formed exactly when
/// its namespace is one of `core`, `fs`, `ui`, `system`, `clipboard`,
/// `network`, `storage`, `plugin` and its action is not empty; a permission
/// without a colon never is.
pub proof fn law_permission_format(ns: Seq<char>, action: Seq<char>)
    requires
        forall|i: int| 0 <= i < ns.len() ==> ns[i] != ':',
        forall|i: int| 0 <= i < action.len() ==> action[i] != ':',
    ensures
        valid_permission(ns + seq![':'] + action) <==> ((ns == "core"@ || ns == "fs"@ || ns == "ui"@ || ns == "system"@ || ns == "clipboard"@ || ns == "network"@ || ns == "storage"@ || ns == "plugin"@) && action.len() > 0),
        !valid_permission(ns),
{
    lemma_split_on_pair(ns, action, ':');
    lemma_split_on_extend(Seq::empty(), ns, ':');
    assert(Seq::<char>::empty() + ns =~= ns);
    assert(split_on(ns, ':') =~= seq![ns]);
    if namespaces().contains(ns) {
        let k = choose|k: int| 0 <= k < 8 && namespaces()[k] == ns;
    }
        if ns == "core"@ {
            reveal_strlit("core");
            assert(namespaces()[0] == ns);
        }
        if ns == "fs"@ {
            reveal_strlit("fs");
            assert(namespaces()[1] == ns);
        }
        if ns == "ui"@ {
            reveal_strlit("ui");
            assert(namespaces()[2] == ns);
        }
        if ns == "system"@ {
            reveal_strlit("system");
            assert(namespaces()[3] == ns);
        }
        if ns == "clipboard"@ {
            reveal_strlit("clipboard");
            assert(namespaces()[4] == ns);
        }
        if ns == "network"@ {
            reveal_strlit("network");
            assert(namespaces()[5] == ns);
        }
        if ns == "storage"@ {
            reveal_strlit("storage");
            assert(namespaces()[6] == ns);
        }
        if ns == "plugin"@ {
            reveal_strlit("plugin");
            assert(namespaces()[7] == ns);
        }
}

} // verus!
