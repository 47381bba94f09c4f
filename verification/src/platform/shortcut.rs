//! Shortcut strings such as `Ctrl+Shift+K` read into modifiers and a key,
//! as the global-shortcut plugin takes them.  The plugin's own key and
//! modifier types are made from these by the caller.

use vstd::prelude::*;
use crate::text::{chars_of, is_ascii_alpha, is_ascii_digit, is_lit, lit, lowercase, lowered, push_str, remove_char, same_chars, split_char, split_on, string_of, to_lowercase, to_uppercase, trim_chars, uppercase, without};
use crate::error::AppError;
use crate::platform::hotkey::{hotkey_parts, unknown_key_message};

verus! {

/// A key of a shortcut.
#[derive(Debug, Clone, Copy, PartialEq, Eq, Structural)]
pub enum KeyCode {
    /// A letter key, `'A'..='Z'`.
    Letter(char),
    /// A digit key, `'0'..='9'`.
    Digit(char),
    /// A function key, `F1..=F24`.
    Function(u8),
    Space,
    Tab,
    Escape,
    Enter,
    Backspace,
    Delete,
    Insert,
    Home,
    End,
    PageUp,
    PageDown,
    ArrowUp,
    ArrowDown,
    ArrowLeft,
    ArrowRight,
}

/// The modifiers and the key of a shortcut.
#[derive(Debug, Clone, Copy, PartialEq, Eq, Structural)]
pub struct Shortcut {
    pub ctrl: bool,
    pub shift: bool,
    pub alt: bool,
    pub meta: bool,
    pub key: KeyCode,
}

/// The function key a name such as `F7` denotes, `F1` to `F24`.
pub open spec fn function_key(n: Seq<char>) -> Option<u8> {
    if n.len() == 2 && n[0] == 'F' && '1' <= n[1] <= '9' {
        Some((n[1] as u32 - '0' as u32) as u8)
    } else if n.len() == 3 && n[0] == 'F' && n[1] == '1' && '0' <= n[2] <= '9' {
        Some((10 + (n[2] as u32 - '0' as u32)) as u8)
    } else if n.len() == 3 && n[0] == 'F' && n[1] == '2' && '0' <= n[2] <= '4' {
        Some((20 + (n[2] as u32 - '0' as u32)) as u8)
    } else {
        None
    }
}

/// The key a name (upper case, no spaces) denotes.
pub open spec fn named_key(n: Seq<char>) -> Option<KeyCode> {
    if n == "SPACE"@ {
        Some(KeyCode::Space)
    } else if n == "TAB"@ {
        Some(KeyCode::Tab)
    } else if n == "ESC"@ || n == "ESCAPE"@ {
        Some(KeyCode::Escape)
    } else if n == "ENTER"@ || n == "RETURN"@ {
        Some(KeyCode::Enter)
    } else if n == "BACKSPACE"@ || n == "BKSP"@ {
        Some(KeyCode::Backspace)
    } else if n == "DELETE"@ || n == "DEL"@ {
        Some(KeyCode::Delete)
    } else if n == "INSERT"@ || n == "INS"@ {
        Some(KeyCode::Insert)
    } else if n == "HOME"@ {
        Some(KeyCode::Home)
    } else if n == "END"@ {
        Some(KeyCode::End)
    } else if n == "PAGEUP"@ || n == "PGUP"@ {
        Some(KeyCode::PageUp)
    } else if n == "PAGEDOWN"@ || n == "PGDN"@ {
        Some(KeyCode::PageDown)
    } else if n == "UP"@ {
        Some(KeyCode::ArrowUp)
    } else if n == "DOWN"@ {
        Some(KeyCode::ArrowDown)
    } else if n == "LEFT"@ {
        Some(KeyCode::ArrowLeft)
    } else if n == "RIGHT"@ {
        Some(KeyCode::ArrowRight)
    } else {
        match function_key(n) {
            Some(f) => Some(KeyCode::Function(f)),
            None => None,
        }
    }
}

/// The key a part of a shortcut string names: upper-cased and without
/// spaces, a single ASCII letter or digit is that key; otherwise a named key.
pub open spec fn key_named(k: Seq<char>) -> Option<KeyCode> {
    let n = without(uppercase(k), ' ');
    if n.len() == 1 && is_ascii_alpha(n[0]) {
        Some(KeyCode::Letter(n[0]))
    } else if n.len() == 1 && is_ascii_digit(n[0]) {
        Some(KeyCode::Digit(n[0]))
    } else {
        named_key(n)
    }
}

/// Why a shortcut string was refused.
pub enum ShortcutFault {
    /// No part names a key.
    MissingKey,
    /// This part names no key.
    UnknownKey(Seq<char>),
}

/// Reads the parts of a shortcut from position `i` on, with the modifiers
/// and key found so far: `ctrl`/`control`, `shift`, `alt` and
/// `meta`/`win`/`super` (in any case) set their modifier; any other part is
/// a key, the last one wins, and the first that names no key is the fault.
pub open spec fn scan_shortcut(
    parts: Seq<Seq<char>>,
    i: int,
    ctrl: bool,
    shift: bool,
    alt: bool,
    meta: bool,
    key: Option<KeyCode>,
) -> Result<Shortcut, ShortcutFault>
    decreases parts.len() - i,
{
    if i < 0 || i >= parts.len() {
        match key {
            Some(k) => Ok(Shortcut { ctrl, shift, alt, meta, key: k }),
            None => Err(ShortcutFault::MissingKey),
        }
    } else {
        let l = lowercase(parts[i]);
        if l == "ctrl"@ || l == "control"@ {
            scan_shortcut(parts, i + 1, true, shift, alt, meta, key)
        } else if l == "shift"@ {
            scan_shortcut(parts, i + 1, ctrl, true, alt, meta, key)
        } else if l == "alt"@ {
            scan_shortcut(parts, i + 1, ctrl, shift, true, meta, key)
        } else if l == "meta"@ || l == "win"@ || l == "super"@ {
            scan_shortcut(parts, i + 1, ctrl, shift, alt, true, key)
        } else {
            match key_named(parts[i]) {
                Some(k) => scan_shortcut(parts, i + 1, ctrl, shift, alt, meta, Some(k)),
                None => Err(ShortcutFault::UnknownKey(parts[i])),
            }
        }
    }
}

/// The result of reading the shortcut string `s`; see `scan_shortcut`.
pub open spec fn shortcut_result(s: Seq<char>, r: Result<Shortcut, AppError>) -> bool {
    match scan_shortcut(hotkey_parts(s), 0, false, false, false, false, None) {
        Ok(sc) => r == Ok::<Shortcut, AppError>(sc),
        Err(ShortcutFault::MissingKey) => r matches Err(AppError::InvalidInput(m)) && m@ == "快捷键缺少主键"@,
        Err(ShortcutFault::UnknownKey(p)) => r matches Err(AppError::InvalidInput(m)) && m@ == unknown_key_message(p),
    }
}

fn function_key_of(n: &[char]) -> (r: Option<u8>)
    ensures
        r == function_key(n@),
{
    if n.len() == 2 && n[0] == 'F' && '1' <= n[1] && n[1] <= '9' {
        Some((n[1] as u32 - '0' as u32) as u8)
    } else if n.len() == 3 && n[0] == 'F' && n[1] == '1' && '0' <= n[2] && n[2] <= '9' {
        Some((10 + (n[2] as u32 - '0' as u32)) as u8)
    } else if n.len() == 3 && n[0] == 'F' && n[1] == '2' && '0' <= n[2] && n[2] <= '4' {
        Some((20 + (n[2] as u32 - '0' as u32)) as u8)
    } else {
        None
    }
}

fn named_key_of(n: &[char]) -> (r: Option<KeyCode>)
    ensures
        r == named_key(n@),
{
    if is_lit(n, "SPACE") {
        Some(KeyCode::Space)
    } else if is_lit(n, "TAB") {
        Some(KeyCode::Tab)
    } else if is_lit(n, "ESC") || is_lit(n, "ESCAPE") {
        Some(KeyCode::Escape)
    } else if is_lit(n, "ENTER") || is_lit(n, "RETURN") {
        Some(KeyCode::Enter)
    } else if is_lit(n, "BACKSPACE") || is_lit(n, "BKSP") {
        Some(KeyCode::Backspace)
    } else if is_lit(n, "DELETE") || is_lit(n, "DEL") {
        Some(KeyCode::Delete)
    } else if is_lit(n, "INSERT") || is_lit(n, "INS") {
        Some(KeyCode::Insert)
    } else if is_lit(n, "HOME") {
        Some(KeyCode::Home)
    } else if is_lit(n, "END") {
        Some(KeyCode::End)
    } else if is_lit(n, "PAGEUP") || is_lit(n, "PGUP") {
        Some(KeyCode::PageUp)
    } else if is_lit(n, "PAGEDOWN") || is_lit(n, "PGDN") {
        Some(KeyCode::PageDown)
    } else if is_lit(n, "UP") {
        Some(KeyCode::ArrowUp)
    } else if is_lit(n, "DOWN") {
        Some(KeyCode::ArrowDown)
    } else if is_lit(n, "LEFT") {
        Some(KeyCode::ArrowLeft)
    } else if is_lit(n, "RIGHT") {
        Some(KeyCode::ArrowRight)
    } else {
        match function_key_of(n) {
            Some(f) => Some(KeyCode::Function(f)),
            None => None,
        }
    }
}

/// The key that a part of a shortcut string names; see `key_named`.
pub fn parse_key(part: &str) -> (r: Result<KeyCode, AppError>)
    ensures
        match r {
            Ok(k) => key_named(part@) == Some(k),
            Err(e) => key_named(part@) is None && (e matches AppError::InvalidInput(m) && m@
                == unknown_key_message(part@)),
        },
{
    let upper = to_uppercase(part);
    let uc = chars_of(upper.as_str());
    let n = remove_char(uc.as_slice(), ' ');
    if n.len() == 1 {
        let c = n[0];
        if ('a' <= c && c <= 'z') || ('A' <= c && c <= 'Z') {
            return Ok(KeyCode::Letter(c));
        }
        if '0' <= c && c <= '9' {
            return Ok(KeyCode::Digit(c));
        }
    }
    match named_key_of(n.as_slice()) {
        Some(k) => Ok(k),
        None => {
            let mut m = lit("未知按键: ");
            push_str(&mut m, part);
            Err(AppError::InvalidInput(m))
        },
    }
}

/// Reads a shortcut string such as `Ctrl+Shift+K`; see `shortcut_result`.
pub fn parse_hotkey_str(s: &str) -> (r: Result<Shortcut, AppError>)
    ensures
        shortcut_result(s@, r),
{
    let cs = chars_of(s);
    let raw = split_char(cs.as_slice(), '+');
    let ghost pieces = raw@.map_values(|p: Vec<char>| p@);
    let ghost parts = hotkey_parts(s@);
    let mut ctrl = false;
    let mut shift = false;
    let mut alt = false;
    let mut meta = false;
    let mut key: Option<KeyCode> = None;
    let mut i: usize = 0;
    while i < raw.len()
        invariant
            pieces == raw@.map_values(|p: Vec<char>| p@),
            pieces == split_on(s@, '+'),
            parts == hotkey_parts(s@),
            parts.len() == raw@.len(),
            i <= raw@.len(),
            scan_shortcut(parts, 0, false, false, false, false, None) == scan_shortcut(
                parts,
                i as int,
                ctrl,
                shift,
                alt,
                meta,
                key,
            ),
        decreases raw@.len() - i,
    {
        assert(pieces[i as int] == raw@[i as int]@);
        let t = trim_chars(raw[i].as_slice());
        assert(t@ == parts[i as int]);
        let l = lowered(t.as_slice());
        let ls = l.as_slice();
        if is_lit(ls, "ctrl") || is_lit(ls, "control") {
            ctrl = true;
        } else if is_lit(ls, "shift") {
            shift = true;
        } else if is_lit(ls, "alt") {
            alt = true;
        } else if is_lit(ls, "meta") || is_lit(ls, "win") || is_lit(ls, "super") {
            meta = true;
        } else {
            let ts = string_of(t.as_slice());
            match parse_key(ts.as_str()) {
                Ok(k) => {
                    key = Some(k);
                },
                Err(e) => {
                    return Err(e);
                },
            }
        }
        i += 1;
    }
    match key {
        Some(k) => Ok(Shortcut { ctrl, shift, alt, meta, key: k }),
        None => Err(AppError::InvalidInput(lit("快捷键缺少主键"))),
    }
}

} // verus!
