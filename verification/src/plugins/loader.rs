//! Loading plugins: where they live, which manifests are complete, and what
//! kind of back end a plugin brings.  Reading files is outside this library.

use vstd::prelude::*;
use crate::text::{chars_of, is_lit, lit, push_str, same_chars};
use crate::paths::{extension_chars, file_ext, file_name_chars, file_name_of};

verus! {

/// Finds and loads plugins below a directory.
#[derive(Debug, Clone)]
pub struct PluginLoader {
    pub plugins_dir: String,
}

impl PluginLoader {
    /// A loader for the plugins below `plugins_dir`.
    pub fn new(plugins_dir: String) -> (r: Self)
        ensures
            r.plugins_dir == plugins_dir,
    {
        PluginLoader { plugins_dir }
    }
}

/// The front-end code of a plugin.
#[derive(Debug, Clone)]
pub struct FrontendCode {
    pub path: String,
    pub content: String,
}

/// The back-end code of a plugin.
#[derive(Debug, Clone)]
pub enum BackendCode {
    Wasm { bytes: Vec<u8> },
    Sidecar { path: String },
}

/// What kind of back end a file is.
#[derive(Debug, Clone, Copy, PartialEq, Eq, Structural)]
pub enum BackendKind {
    Wasm,
    Sidecar,
}

/// A back end is WebAssembly when its extension is exactly `wasm`, a
/// sidecar program when exactly `exe`; anything else is unsupported.
pub open spec fn backend_kind_of(path: Seq<char>) -> Option<BackendKind> {
    match file_ext(file_name_of(path)) {
        Some(e) => if e == "wasm"@ {
            Some(BackendKind::Wasm)
        } else if e == "exe"@ {
            Some(BackendKind::Sidecar)
        } else {
            None
        },
        None => None,
    }
}

/// The kind of back end at `path`; see `backend_kind_of`.
pub fn backend_kind(path: &str) -> (r: Option<BackendKind>)
    ensures
        r == backend_kind_of(path@),
{
    let name = file_name_chars(path);
    match extension_chars(name.as_slice()) {
        Some(e) => {
            if is_lit(e.as_slice(), "wasm") {
                Some(BackendKind::Wasm)
            } else if is_lit(e.as_slice(), "exe") {
                Some(BackendKind::Sidecar)
            } else {
                None
            }
        },
        None => None,
    }
}

/// Plugin types a manifest may name.
pub open spec fn plugin_types() -> Seq<Seq<char>> {
    seq!["theme"@, "provider"@, "command"@, "view"@, "integration"@, "hybrid"@]
}

/// The complaint about a manifest, if any: the first empty required field
/// (id, name, version, type), else an unknown type.
pub open spec fn manifest_problem(id: Seq<char>, name: Seq<char>, version: Seq<char>, plugin_type: Seq<char>) -> Option<Seq<char>> {
    if id.len() == 0 {
        Some("Plugin ID is required"@)
    } else if name.len() == 0 {
        Some("Plugin name is required"@)
    } else if version.len() == 0 {
        Some("Plugin version is required"@)
    } else if plugin_type.len() == 0 {
        Some("Plugin type is required"@)
    } else if !plugin_types().contains(plugin_type) {
        Some("Invalid plugin type: "@ + plugin_type)
    } else {
        None
    }
}

/// Checks the required fields of a parsed manifest; see `manifest_problem`.
pub fn check_manifest(id: &str, name: &str, version: &str, plugin_type: &str) -> (r: Result<(), String>)
    ensures
        match r {
            Ok(()) => manifest_problem(id@, name@, version@, plugin_type@) is None,
            Err(m) => manifest_problem(id@, name@, version@, plugin_type@) == Some(m@),
        },
{
    if id.is_empty() {
        return Err(lit("Plugin ID is required"));
    }
    if name.is_empty() {
        return Err(lit("Plugin name is required"));
    }
    if version.is_empty() {
        return Err(lit("Plugin version is required"));
    }
    if plugin_type.is_empty() {
        return Err(lit("Plugin type is required"));
    }
    let t = chars_of(plugin_type);
    let ts = t.as_slice();
    let known = is_lit(ts, "theme") || is_lit(ts, "provider") || is_lit(ts, "command") || is_lit(ts, "view")
        || is_lit(ts, "integration") || is_lit(ts, "hybrid");
    proof {
        let n = plugin_type@;
        if plugin_types().contains(n) {
            let k = choose|k: int| 0 <= k < 6 && plugin_types()[k] == n;
        }
        if n == "theme"@ { assert(plugin_types()[0] == n); }
        if n == "provider"@ { assert(plugin_types()[1] == n); }
        if n == "command"@ { assert(plugin_types()[2] == n); }
        if n == "view"@ { assert(plugin_types()[3] == n); }
        if n == "integration"@ { assert(plugin_types()[4] == n); }
        if n == "hybrid"@ { assert(plugin_types()[5] == n); }
    }
    if !known {
        let mut m = lit("Invalid plugin type: ");
        push_str(&mut m, plugin_type);
        return Err(m);
    }
    Ok(())
}

} // verus!
