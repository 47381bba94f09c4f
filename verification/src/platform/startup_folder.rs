//! Start-up entries in the start-up folders.

use vstd::prelude::*;
use crate::text::lit;
use crate::error::AppError;
use crate::models::startup::{discovered_as, StartupItem, StartupSource};

verus! {

/// Disabling a folder entry means renaming its shortcut to `.disabled`,
/// which is not done here: always refused with that explanation.
pub fn disable_item(_path: &str) -> (r: Result<(), AppError>)
    ensures
        r matches Err(AppError::Other(m)) && m@ == "需要将快捷方式重命名为 .disabled"@,
{
    Err(AppError::Other(lit("需要将快捷方式重命名为 .disabled")))
}

/// Enabling a folder entry means renaming `.disabled` back to `.lnk`, which
/// is not done here: always refused with that explanation.
pub fn enable_item(_path: &str) -> (r: Result<(), AppError>)
    ensures
        r matches Err(AppError::Other(m)) && m@ == "需要将 .disabled 重命名回 .lnk"@,
{
    Err(AppError::Other(lit("需要将 .disabled 重命名回 .lnk")))
}

/// The startup entries of the files `files` (name, path) of the start-up
/// folders: each with a non-empty name, enabled, running the file, in order
/// (the reading of `read_items`).
pub fn folder_items(files: &Vec<(String, String)>) -> (r: Vec<StartupItem>)
    ensures
        r@.len() == named_count(files@),
        forall|i: int|
            0 <= i < r@.len() ==> discovered_as(
                #[trigger] r@[i],
                named(files@)[i].0,
                named(files@)[i].1,
                true,
                StartupSource::StartupFolder,
            ),
{
    let mut r: Vec<StartupItem> = Vec::new();
    let mut i: usize = 0;
    while i < files.len()
        invariant
            i <= files@.len(),
            r@.len() == named_count(files@.take(i as int)),
            forall|j: int|
                0 <= j < r@.len() ==> discovered_as(
                    #[trigger] r@[j],
                    named(files@.take(i as int))[j].0,
                    named(files@.take(i as int))[j].1,
                    true,
                    StartupSource::StartupFolder,
                ),
        decreases files@.len() - i,
    {
        let ghost before = r@;
        proof {
            assert(files@.take(i + 1).drop_last() =~= files@.take(i as int));
        }
        let (name, path) = &files[i];
        if !name.as_str().is_empty() {
            r.push(StartupItem::discovered(name.clone(), path.clone(), true, StartupSource::StartupFolder));
            proof {
                assert forall|j: int| 0 <= j < r@.len() implies discovered_as(
                    #[trigger] r@[j],
                    named(files@.take(i + 1))[j].0,
                    named(files@.take(i + 1))[j].1,
                    true,
                    StartupSource::StartupFolder,
                ) by {
                    if j < before.len() {
                        assert(r@[j] == before[j]);
                    }
                }
            }
        }
        i += 1;
    }
    assert(files@.take(files@.len() as int) =~= files@);
    r
}

/// The files of `files` with a non-empty name, as plain values, in order.
pub open spec fn named(files: Seq<(String, String)>) -> Seq<(Seq<char>, Seq<char>)>
    decreases files.len(),
{
    if files.len() == 0 {
        Seq::empty()
    } else if files.last().0@.len() > 0 {
        named(files.drop_last()).push((files.last().0@, files.last().1@))
    } else {
        named(files.drop_last())
    }
}

/// How many files of `files` have a non-empty name.
pub open spec fn named_count(files: Seq<(String, String)>) -> nat {
    named(files).len()
}

} // verus!
