//! Global hotkey strings such as `Alt+Space`: which key they name and
//! whether they hold Alt.

use vstd::prelude::*;
use crate::text::{chars_of, is_ascii_alpha, is_ascii_digit, is_lit, lit, lowercase, lowered, push_str, remove_char, same_chars, split_char, split_on, string_of, to_lowercase, to_uppercase, trim, trim_chars, uppercase, without};
use crate::error::AppError;

verus! {

/// The virtual-key code of a named key (upper case, no spaces).
pub open spec fn named_vk(n: Seq<char>) -> Option<u32> {
    if n == "SPACE"@ {
        Some(0x20u32)
    } else if n == "TAB"@ {
        Some(0x9u32)
    } else if n == "ESC"@ {
        Some(0x1bu32)
    } else if n == "ESCAPE"@ {
        Some(0x1bu32)
    } else if n == "ENTER"@ {
        Some(0xdu32)
    } else if n == "RETURN"@ {
        Some(0xdu32)
    } else if n == "BACKSPACE"@ {
        Some(0x8u32)
    } else if n == "BKSP"@ {
        Some(0x8u32)
    } else if n == "DELETE"@ {
        Some(0x2eu32)
    } else if n == "DEL"@ {
        Some(0x2eu32)
    } else if n == "INSERT"@ {
        Some(0x2du32)
    } else if n == "INS"@ {
        Some(0x2du32)
    } else if n == "HOME"@ {
        Some(0x24u32)
    } else if n == "END"@ {
        Some(0x23u32)
    } else if n == "PAGEUP"@ {
        Some(0x21u32)
    } else if n == "PGUP"@ {
        Some(0x21u32)
    } else if n == "PAGEDOWN"@ {
        Some(0x22u32)
    } else if n == "PGDN"@ {
        Some(0x22u32)
    } else if n == "UP"@ {
        Some(0x26u32)
    } else if n == "DOWN"@ {
        Some(0x28u32)
    } else if n == "LEFT"@ {
        Some(0x25u32)
    } else if n == "RIGHT"@ {
        Some(0x27u32)
    } else if n == "F1"@ {
        Some(0x70u32)
    } else if n == "F2"@ {
        Some(0x71u32)
    } else if n == "F3"@ {
        Some(0x72u32)
    } else if n == "F4"@ {
        Some(0x73u32)
    } else if n == "F5"@ {
        Some(0x74u32)
    } else if n == "F6"@ {
        Some(0x75u32)
    } else if n == "F7"@ {
        Some(0x76u32)
    } else if n == "F8"@ {
        Some(0x77u32)
    } else if n == "F9"@ {
        Some(0x78u32)
    } else if n == "F10"@ {
        Some(0x79u32)
    } else if n == "F11"@ {
        Some(0x7au32)
    } else if n == "F12"@ {
        Some(0x7bu32)
    } else {
        None
    }
}

/// The virtual-key code of the key `k`: upper-cased and without spaces, a
/// single ASCII letter or digit is its own code; otherwise a named key.
pub open spec fn key_vk(k: Seq<char>) -> Option<u32> {
    let n = without(uppercase(k), ' ');
    if n.len() == 1 && (is_ascii_alpha(n[0]) || is_ascii_digit(n[0])) {
        Some(n[0] as u32)
    } else {
        named_vk(n)
    }
}

/// The words that name modifiers (lower case).
pub open spec fn is_modifier(l: Seq<char>) -> bool {
    l == "alt"@ || l == "ctrl"@ || l == "control"@ || l == "shift"@ || l == "meta"@ || l == "win"@ || l == "super"@
}

/// The trimmed `+`-separated parts of a hotkey string.
pub open spec fn hotkey_parts(s: Seq<char>) -> Seq<Seq<char>> {
    split_on(s, '+').map_values(|p: Seq<char>| trim(p))
}

/// The last part among the first `n` that names no modifier.
pub open spec fn last_key(parts: Seq<Seq<char>>, n: int) -> Option<Seq<char>>
    decreases n,
{
    if n <= 0 {
        None
    } else if !is_modifier(lowercase(parts[n - 1])) {
        Some(parts[n - 1])
    } else {
        last_key(parts, n - 1)
    }
}

/// Some part names Alt.
pub open spec fn holds_alt(parts: Seq<Seq<char>>) -> bool {
    exists|i: int| 0 <= i < parts.len() && lowercase(#[trigger] parts[i]) == "alt"@
}

/// The message of an unknown key.
pub open spec fn unknown_key_message(k: Seq<char>) -> Seq<char> {
    "未知按键: "@ + k
}

/// What `hotkey_to_vk` gives for `s`: the code of the last part that names
/// no modifier, and whether some part names Alt; an error when every part
/// names a modifier or the key is unknown.
pub open spec fn hotkey_result(s: Seq<char>, r: Result<(u32, bool), AppError>) -> bool {
    let parts = hotkey_parts(s);
    match last_key(parts, parts.len() as int) {
        None => r matches Err(AppError::InvalidInput(m)) && m@ == "快捷键缺少主键"@,
        Some(k) => match key_vk(k) {
            Some(vk) => r == Ok::<(u32, bool), AppError>((vk, holds_alt(parts))),
            None => r matches Err(AppError::InvalidInput(m)) && m@ == unknown_key_message(k),
        },
    }
}

fn named_key_code(ns: &[char]) -> (r: Option<u32>)
    ensures
        r == named_vk(ns@),
{
    if is_lit(ns, "SPACE") {
        Some(0x20u32)
    } else if is_lit(ns, "TAB") {
        Some(0x9u32)
    } else if is_lit(ns, "ESC") {
        Some(0x1bu32)
    } else if is_lit(ns, "ESCAPE") {
        Some(0x1bu32)
    } else if is_lit(ns, "ENTER") {
        Some(0xdu32)
    } else if is_lit(ns, "RETURN") {
        Some(0xdu32)
    } else if is_lit(ns, "BACKSPACE") {
        Some(0x8u32)
    } else if is_lit(ns, "BKSP") {
        Some(0x8u32)
    } else if is_lit(ns, "DELETE") {
        Some(0x2eu32)
    } else if is_lit(ns, "DEL") {
        Some(0x2eu32)
    } else if is_lit(ns, "INSERT") {
        Some(0x2du32)
    } else if is_lit(ns, "INS") {
        Some(0x2du32)
    } else if is_lit(ns, "HOME") {
        Some(0x24u32)
    } else if is_lit(ns, "END") {
        Some(0x23u32)
    } else if is_lit(ns, "PAGEUP") {
        Some(0x21u32)
    } else if is_lit(ns, "PGUP") {
        Some(0x21u32)
    } else if is_lit(ns, "PAGEDOWN") {
        Some(0x22u32)
    } else if is_lit(ns, "PGDN") {
        Some(0x22u32)
    } else if is_lit(ns, "UP") {
        Some(0x26u32)
    } else if is_lit(ns, "DOWN") {
        Some(0x28u32)
    } else if is_lit(ns, "LEFT") {
        Some(0x25u32)
    } else if is_lit(ns, "RIGHT") {
        Some(0x27u32)
    } else if is_lit(ns, "F1") {
        Some(0x70u32)
    } else if is_lit(ns, "F2") {
        Some(0x71u32)
    } else if is_lit(ns, "F3") {
        Some(0x72u32)
    } else if is_lit(ns, "F4") {
        Some(0x73u32)
    } else if is_lit(ns, "F5") {
        Some(0x74u32)
    } else if is_lit(ns, "F6") {
        Some(0x75u32)
    } else if is_lit(ns, "F7") {
        Some(0x76u32)
    } else if is_lit(ns, "F8") {
        Some(0x77u32)
    } else if is_lit(ns, "F9") {
        Some(0x78u32)
    } else if is_lit(ns, "F10") {
        Some(0x79u32)
    } else if is_lit(ns, "F11") {
        Some(0x7au32)
    } else if is_lit(ns, "F12") {
        Some(0x7bu32)
    } else {
        None
    }
}

/// The virtual-key code of the key `k`; see `key_vk`.
fn key_to_vk_code(k: &str) -> (r: Result<u32, AppError>)
    ensures
        match r {
            Ok(vk) => key_vk(k@) == Some(vk),
            Err(e) => key_vk(k@) is None && (e matches AppError::InvalidInput(m) && m@ == unknown_key_message(k@)),
        },
{
    let upper = to_uppercase(k);
    let uc = chars_of(upper.as_str());
    let n = remove_char(uc.as_slice(), ' ');
    if n.len() == 1 {
        let c = n[0];
        if ('a' <= c && c <= 'z') || ('A' <= c && c <= 'Z') || ('0' <= c && c <= '9') {
            return Ok(c as u32);
        }
    }
    match named_key_code(n.as_slice()) {
        Some(vk) => Ok(vk),
        None => {
            let mut m = lit("未知按键: ");
            push_str(&mut m, k);
            Err(AppError::InvalidInput(m))
        },
    }
}

/// The key code and the Alt flag of a hotkey string such as `Alt+Space`;
/// see `hotkey_result`.
pub fn hotkey_to_vk(s: &str) -> (r: Result<(u32, bool), AppError>)
    ensures
        hotkey_result(s@, r),
{
    let cs = chars_of(s);
    let raw = split_char(cs.as_slice(), '+');
    let ghost pieces = raw@.map_values(|p: Vec<char>| p@);
    let ghost parts = hotkey_parts(s@);
    let mut needs_alt = false;
    let mut key: Option<usize> = None;
    let mut trimmed: Vec<Vec<char>> = Vec::new();
    let mut i: usize = 0;
    while i < raw.len()
        invariant
            pieces == raw@.map_values(|p: Vec<char>| p@),
            pieces == split_on(s@, '+'),
            parts == hotkey_parts(s@),
            parts.len() == raw@.len(),
            i <= raw@.len(),
            trimmed@.len() == i,
            forall|j: int| 0 <= j < i ==> #[trigger] trimmed@[j]@ == parts[j],
            needs_alt == exists|j: int| 0 <= j < i && lowercase(#[trigger] parts[j]) == "alt"@,
            match key {
                Some(k) => k < i && last_key(parts, i as int) == Some(parts[k as int]),
                None => last_key(parts, i as int) is None,
            },
        decreases raw@.len() - i,
    {
        assert(pieces[i as int] == raw@[i as int]@);
        let t = trim_chars(raw[i].as_slice());
        assert(t@ == parts[i as int]);
        let l = lowered(t.as_slice());
        let ls = l.as_slice();
        if is_lit(ls, "alt") {
            needs_alt = true;
        } else if is_lit(ls, "ctrl") || is_lit(ls, "control") || is_lit(ls, "shift") || is_lit(ls, "meta")
            || is_lit(ls, "win") || is_lit(ls, "super") {
        } else {
            key = Some(i);
        }
        trimmed.push(t);
        i += 1;
    }
    match key {
        None => Err(AppError::InvalidInput(lit("快捷键缺少主键"))),
        Some(k) => {
            assert(trimmed@[k as int]@ == parts[k as int]);
            let ks = string_of(trimmed[k].as_slice());
            match key_to_vk_code(ks.as_str()) {
                Ok(vk) => Ok((vk, needs_alt)),
                Err(e) => Err(e),
            }
        },
    }
}

/// Registering a global hotkey needs the Windows shell, which this build does
/// not link: always refused.
pub fn register_hotkey(_hotkey: &str) -> (r: Result<(), AppError>)
    ensures
        r matches Err(AppError::Other(m)) && m@ == "全局快捷键仅支持 Windows 平台"@,
{
    Err(AppError::Other(lit("全局快捷键仅支持 Windows 平台")))
}

/// Nothing is registered, so unregistering always succeeds.
pub fn unregister_hotkey() -> (r: Result<(), AppError>)
    ensures
        r is Ok,
{
    Ok(())
}

/// Each named key has its Windows virtual-key code: `VK_SPACE` 0x20,
/// `VK_TAB` 0x09, `VK_ESCAPE` 0x1B, `VK_RETURN` 0x0D, `VK_BACK` 0x08,
/// `VK_DELETE` 0x2E, `VK_INSERT` 0x2D, `VK_HOME` 0x24, `VK_END` 0x23,
/// `VK_PRIOR` 0x21, `VK_NEXT` 0x22, the arrows `VK_LEFT`, `VK_UP`,
/// `VK_RIGHT`, `VK_DOWN` from 0x25 to 0x28 in that order, and `VK_F1` to
/// `VK_F12` from 0x70 on; an alias names the same key as its long form.
pub proof fn law_named_keys_have_windows_codes()
    ensures
        named_vk("SPACE"@) == Some(0x20u32),
        named_vk("TAB"@) == Some(0x09u32),
        named_vk("ESCAPE"@) == Some(0x1bu32) && named_vk("ESC"@) == named_vk("ESCAPE"@),
        named_vk("ENTER"@) == Some(0x0du32) && named_vk("RETURN"@) == named_vk("ENTER"@),
        named_vk("BACKSPACE"@) == Some(0x08u32) && named_vk("BKSP"@) == named_vk("BACKSPACE"@),
        named_vk("DELETE"@) == Some(0x2eu32) && named_vk("DEL"@) == named_vk("DELETE"@),
        named_vk("INSERT"@) == Some(0x2du32) && named_vk("INS"@) == named_vk("INSERT"@),
        named_vk("HOME"@) == Some(0x24u32),
        named_vk("END"@) == Some(0x23u32),
        named_vk("PAGEUP"@) == Some(0x21u32) && named_vk("PGUP"@) == named_vk("PAGEUP"@),
        named_vk("PAGEDOWN"@) == Some(0x22u32) && named_vk("PGDN"@) == named_vk("PAGEDOWN"@),
        named_vk("LEFT"@) == Some(0x25u32),
        named_vk("UP"@) == Some(0x26u32),
        named_vk("RIGHT"@) == Some(0x27u32),
        named_vk("DOWN"@) == Some(0x28u32),
        named_vk("F1"@) == Some(0x70u32),
        named_vk("F2"@) == Some(0x71u32),
        named_vk("F3"@) == Some(0x72u32),
        named_vk("F4"@) == Some(0x73u32),
        named_vk("F5"@) == Some(0x74u32),
        named_vk("F6"@) == Some(0x75u32),
        named_vk("F7"@) == Some(0x76u32),
        named_vk("F8"@) == Some(0x77u32),
        named_vk("F9"@) == Some(0x78u32),
        named_vk("F10"@) == Some(0x79u32),
        named_vk("F11"@) == Some(0x7au32),
        named_vk("F12"@) == Some(0x7bu32),
{
    // Literals of one length differ at the first position shown.
    reveal_strlit("SPACE");
    reveal_strlit("TAB");
    reveal_strlit("ESC");
    reveal_strlit("ESCAPE");
    reveal_strlit("ENTER");
    reveal_strlit("RETURN");
    reveal_strlit("BACKSPACE");
    reveal_strlit("BKSP");
    reveal_strlit("DELETE");
    reveal_strlit("DEL");
    reveal_strlit("INSERT");
    reveal_strlit("INS");
    reveal_strlit("HOME");
    reveal_strlit("END");
    reveal_strlit("PAGEUP");
    reveal_strlit("PGUP");
    reveal_strlit("PAGEDOWN");
    reveal_strlit("PGDN");
    reveal_strlit("UP");
    reveal_strlit("DOWN");
    reveal_strlit("LEFT");
    reveal_strlit("RIGHT");
    reveal_strlit("F1");
    reveal_strlit("F2");
    reveal_strlit("F3");
    reveal_strlit("F4");
    reveal_strlit("F5");
    reveal_strlit("F6");
    reveal_strlit("F7");
    reveal_strlit("F8");
    reveal_strlit("F9");
    reveal_strlit("F10");
    reveal_strlit("F11");
    reveal_strlit("F12");
    assert({
        &&& "SPACE"@.len() == 5
        &&& "TAB"@.len() == 3
        &&& "ESC"@.len() == 3
        &&& "ESCAPE"@.len() == 6
        &&& "ENTER"@.len() == 5
        &&& "RETURN"@.len() == 6
        &&& "BACKSPACE"@.len() == 9
        &&& "BKSP"@.len() == 4
        &&& "DELETE"@.len() == 6
        &&& "DEL"@.len() == 3
        &&& "INSERT"@.len() == 6
        &&& "INS"@.len() == 3
        &&& "HOME"@.len() == 4
        &&& "END"@.len() == 3
        &&& "PAGEUP"@.len() == 6
        &&& "PGUP"@.len() == 4
        &&& "PAGEDOWN"@.len() == 8
        &&& "PGDN"@.len() == 4
        &&& "UP"@.len() == 2
        &&& "DOWN"@.len() == 4
        &&& "LEFT"@.len() == 4
        &&& "RIGHT"@.len() == 5
        &&& "F1"@.len() == 2
        &&& "F2"@.len() == 2
        &&& "F3"@.len() == 2
        &&& "F4"@.len() == 2
        &&& "F5"@.len() == 2
        &&& "F6"@.len() == 2
        &&& "F7"@.len() == 2
        &&& "F8"@.len() == 2
        &&& "F9"@.len() == 2
        &&& "F10"@.len() == 3
        &&& "F11"@.len() == 3
        &&& "F12"@.len() == 3
    });
    assert({
        &&& "ESC"@[0] != "TAB"@[0]
        &&& "ENTER"@[0] != "SPACE"@[0]
        &&& "RETURN"@[0] != "ESCAPE"@[0]
        &&& "DELETE"@[0] != "ESCAPE"@[0]
        &&& "DELETE"@[0] != "RETURN"@[0]
        &&& "DEL"@[0] != "TAB"@[0]
        &&& "DEL"@[0] != "ESC"@[0]
        &&& "INSERT"@[0] != "ESCAPE"@[0]
        &&& "INSERT"@[0] != "RETURN"@[0]
        &&& "INSERT"@[0] != "DELETE"@[0]
        &&& "INS"@[0] != "TAB"@[0]
        &&& "INS"@[0] != "ESC"@[0]
        &&& "INS"@[0] != "DEL"@[0]
        &&& "HOME"@[0] != "BKSP"@[0]
        &&& "END"@[0] != "TAB"@[0]
        &&& "END"@[1] != "ESC"@[1]
        &&& "END"@[0] != "DEL"@[0]
        &&& "END"@[0] != "INS"@[0]
        &&& "PAGEUP"@[0] != "ESCAPE"@[0]
        &&& "PAGEUP"@[0] != "RETURN"@[0]
        &&& "PAGEUP"@[0] != "DELETE"@[0]
        &&& "PAGEUP"@[0] != "INSERT"@[0]
        &&& "PGUP"@[0] != "BKSP"@[0]
        &&& "PGUP"@[0] != "HOME"@[0]
        &&& "PGDN"@[0] != "BKSP"@[0]
        &&& "PGDN"@[0] != "HOME"@[0]
        &&& "PGDN"@[2] != "PGUP"@[2]
        &&& "DOWN"@[0] != "BKSP"@[0]
        &&& "DOWN"@[0] != "HOME"@[0]
        &&& "DOWN"@[0] != "PGUP"@[0]
        &&& "DOWN"@[0] != "PGDN"@[0]
        &&& "LEFT"@[0] != "BKSP"@[0]
        &&& "LEFT"@[0] != "HOME"@[0]
        &&& "LEFT"@[0] != "PGUP"@[0]
        &&& "LEFT"@[0] != "PGDN"@[0]
        &&& "LEFT"@[0] != "DOWN"@[0]
        &&& "RIGHT"@[0] != "SPACE"@[0]
        &&& "RIGHT"@[0] != "ENTER"@[0]
        &&& "F1"@[0] != "UP"@[0]
        &&& "F2"@[0] != "UP"@[0]
        &&& "F2"@[1] != "F1"@[1]
        &&& "F3"@[0] != "UP"@[0]
        &&& "F3"@[1] != "F1"@[1]
        &&& "F3"@[1] != "F2"@[1]
        &&& "F4"@[0] != "UP"@[0]
        &&& "F4"@[1] != "F1"@[1]
        &&& "F4"@[1] != "F2"@[1]
        &&& "F4"@[1] != "F3"@[1]
        &&& "F5"@[0] != "UP"@[0]
        &&& "F5"@[1] != "F1"@[1]
        &&& "F5"@[1] != "F2"@[1]
        &&& "F5"@[1] != "F3"@[1]
        &&& "F5"@[1] != "F4"@[1]
        &&& "F6"@[0] != "UP"@[0]
        &&& "F6"@[1] != "F1"@[1]
        &&& "F6"@[1] != "F2"@[1]
        &&& "F6"@[1] != "F3"@[1]
        &&& "F6"@[1] != "F4"@[1]
        &&& "F6"@[1] != "F5"@[1]
        &&& "F7"@[0] != "UP"@[0]
        &&& "F7"@[1] != "F1"@[1]
        &&& "F7"@[1] != "F2"@[1]
        &&& "F7"@[1] != "F3"@[1]
        &&& "F7"@[1] != "F4"@[1]
        &&& "F7"@[1] != "F5"@[1]
        &&& "F7"@[1] != "F6"@[1]
        &&& "F8"@[0] != "UP"@[0]
        &&& "F8"@[1] != "F1"@[1]
        &&& "F8"@[1] != "F2"@[1]
        &&& "F8"@[1] != "F3"@[1]
        &&& "F8"@[1] != "F4"@[1]
        &&& "F8"@[1] != "F5"@[1]
        &&& "F8"@[1] != "F6"@[1]
        &&& "F8"@[1] != "F7"@[1]
        &&& "F9"@[0] != "UP"@[0]
        &&& "F9"@[1] != "F1"@[1]
        &&& "F9"@[1] != "F2"@[1]
        &&& "F9"@[1] != "F3"@[1]
        &&& "F9"@[1] != "F4"@[1]
        &&& "F9"@[1] != "F5"@[1]
        &&& "F9"@[1] != "F6"@[1]
        &&& "F9"@[1] != "F7"@[1]
        &&& "F9"@[1] != "F8"@[1]
        &&& "F10"@[0] != "TAB"@[0]
        &&& "F10"@[0] != "ESC"@[0]
        &&& "F10"@[0] != "DEL"@[0]
        &&& "F10"@[0] != "INS"@[0]
        &&& "F10"@[0] != "END"@[0]
        &&& "F11"@[0] != "TAB"@[0]
        &&& "F11"@[0] != "ESC"@[0]
        &&& "F11"@[0] != "DEL"@[0]
        &&& "F11"@[0] != "INS"@[0]
        &&& "F11"@[0] != "END"@[0]
        &&& "F11"@[2] != "F10"@[2]
        &&& "F12"@[0] != "TAB"@[0]
        &&& "F12"@[0] != "ESC"@[0]
        &&& "F12"@[0] != "DEL"@[0]
        &&& "F12"@[0] != "INS"@[0]
        &&& "F12"@[0] != "END"@[0]
        &&& "F12"@[2] != "F10"@[2]
        &&& "F12"@[2] != "F11"@[2]
    });
}

/// No named key takes the code of a letter or a digit (0x30 to 0x5A), so a
/// key name never shadows a single-character key.
pub proof fn law_named_codes_apart_from_characters(n: Seq<char>)
    ensures
        named_vk(n) matches Some(v) ==> v < 0x30 || 0x70 <= v <= 0x7b,
{
}

} // verus!
