//! The progress texts shown while the indexes are built.

use vstd::prelude::*;
use crate::command::{framed, prefixed};
use crate::pybridge::types::{decimal_unsigned, digits};
use crate::text::{lit, push_str, same_str};

verus! {

/// The progress text while volume `idx` of `total_volumes` is indexed, with
/// `cumulative` files indexed so far; only the drive when the number of
/// volumes is unknown (zero).
pub open spec fn volume_progress(drive: Seq<char>, idx: nat, cumulative: nat, total_volumes: nat) -> Seq<char> {
    if total_volumes == 0 {
        "正在索引 "@ + drive
    } else {
        "正在索引 "@ + drive + "（"@ + digits(idx) + "/"@ + digits(total_volumes) + "） — 已累计 "@ + digits(
            cumulative,
        ) + " 个文件"@
    }
}

/// The progress text of the file index; see `volume_progress`.
pub fn volume_progress_message(drive: &str, idx: u64, cumulative: u64, total_volumes: u64) -> (r: String)
    ensures
        r@ == volume_progress(drive@, idx as nat, cumulative as nat, total_volumes as nat),
{
    if total_volumes == 0 {
        return prefixed("正在索引 ", drive);
    }
    let mut r = framed("正在索引 ", drive, "（");
    push_str(&mut r, decimal_unsigned(idx).as_str());
    push_str(&mut r, "/");
    push_str(&mut r, decimal_unsigned(total_volumes).as_str());
    push_str(&mut r, "） — 已累计 ");
    push_str(&mut r, decimal_unsigned(cumulative).as_str());
    push_str(&mut r, " 个文件");
    r
}

/// The name shown for a phase of the application index.
pub open spec fn phase_name(phase: Seq<char>) -> Seq<char> {
    if phase == "common_start_menu"@ {
        "公共开始菜单"@
    } else if phase == "user_start_menu"@ {
        "用户开始菜单"@
    } else if phase == "desktop"@ {
        "桌面"@
    } else {
        phase
    }
}

/// The name shown for `phase`; see `phase_name`.
pub fn phase_label(phase: &str) -> (r: String)
    ensures
        r@ == phase_name(phase@),
{
    if same_str(phase, "common_start_menu") {
        lit("公共开始菜单")
    } else if same_str(phase, "user_start_menu") {
        lit("用户开始菜单")
    } else if same_str(phase, "desktop") {
        lit("桌面")
    } else {
        lit(phase)
    }
}

/// The progress text of the application index after `phase`, with `count`
/// applications loaded.
pub fn apps_progress_message(count: u64, phase: &str) -> (r: String)
    ensures
        r@ == "已加载 "@ + digits(count as nat) + " 个应用（"@ + phase_name(phase@) + "）"@,
{
    let mut r = framed("已加载 ", decimal_unsigned(count).as_str(), " 个应用（");
    push_str(&mut r, phase_label(phase).as_str());
    push_str(&mut r, "）");
    r
}

/// The text once `total` applications are loaded.
pub fn apps_loaded_message(total: u64) -> (r: String)
    ensures
        r@ == "已加载 "@ + digits(total as nat) + " 个应用"@,
{
    framed("已加载 ", decimal_unsigned(total).as_str(), " 个应用")
}

/// The text when loading the applications failed for `reason`.
pub fn apps_failed_message(reason: &str) -> (r: String)
    ensures
        r@ == "应用列表加载失败: "@ + reason@,
{
    prefixed("应用列表加载失败: ", reason)
}

/// The text when building the file index failed for `reason`.
pub fn index_failed_message(reason: &str) -> (r: String)
    ensures
        r@ == "索引构建失败: "@ + reason@,
{
    prefixed("索引构建失败: ", reason)
}

} // verus!
