//! The decisions of the file indexer: which records a full build writes and
//! in what batches and order, and what an incremental update does with the
//! changes a volume reports.  The database work is the caller's.

use vstd::prelude::*;
use crate::platform::usn::{UsnChangeReason, UsnRecord};
use crate::text::lit;

verus! {

/// How many records a full build buffers before it writes them.
pub const INCREMENTAL_FLUSH_INTERVAL: usize = 5000;

/// What a change does to the index.
#[derive(Debug, Clone, Copy, PartialEq, Eq, Structural)]
pub enum IndexEdit {
    /// Add the entry.
    Insert,
    /// Remove the entry.
    Delete,
    /// Add the entry unless the index already holds its name in its folder.
    InsertIfMissing,
}

/// The edit a change calls for: creation and the new name of a rename add,
/// deletion and the old name of a rename remove, a modification adds what is
/// missing.
pub open spec fn edit_for(reason: UsnChangeReason) -> IndexEdit {
    match reason {
        UsnChangeReason::Created | UsnChangeReason::RenamedNewName => IndexEdit::Insert,
        UsnChangeReason::Deleted | UsnChangeReason::RenamedOldName => IndexEdit::Delete,
        UsnChangeReason::Modified => IndexEdit::InsertIfMissing,
    }
}

/// The edit for a change; see `edit_for`.
pub fn usn_edit(reason: &UsnChangeReason) -> (r: IndexEdit)
    ensures
        r == edit_for(*reason),
{
    match reason {
        UsnChangeReason::Created | UsnChangeReason::RenamedNewName => IndexEdit::Insert,
        UsnChangeReason::Deleted | UsnChangeReason::RenamedOldName => IndexEdit::Delete,
        UsnChangeReason::Modified => IndexEdit::InsertIfMissing,
    }
}

/// The largest of `start` and the sequence numbers of `records`.
pub open spec fn max_usn(start: u64, records: Seq<UsnRecord>) -> u64
    decreases records.len(),
{
    if records.len() == 0 {
        start
    } else {
        let m = max_usn(start, records.drop_last());
        if records.last().usn > m { records.last().usn } else { m }
    }
}

/// What an incremental update does with one volume.
#[derive(Debug)]
pub enum VolumePlan {
    /// No usable position or journal: stop and rebuild the whole index.
    FullRebuild,
    /// Apply `edits[i]` to record `i`, then remember `new_usn` as the
    /// volume's position.
    Apply { edits: Vec<IndexEdit>, new_usn: u64 },
}

/// The plan for a volume whose stored position is `last_usn` (0 when none
/// was stored) and whose journal gave `changes` (`None` when it could not be
/// read): a full rebuild without a position or without a journal; else one
/// edit per change and the largest position seen, starting from the stored
/// one.
pub open spec fn volume_plan_of(last_usn: i64, changes: Option<Seq<UsnRecord>>, r: VolumePlan) -> bool {
    match changes {
        Some(recs) if last_usn != 0 => r matches VolumePlan::Apply { edits, new_usn } && new_usn
            == max_usn(last_usn as u64, recs) && edits@.len() == recs.len() && forall|i: int|
            0 <= i < recs.len() ==> #[trigger] edits@[i] == edit_for(recs[i].reason),
        _ => r is FullRebuild,
    }
}

/// Decides what to do with one volume; see `volume_plan_of`.
pub fn plan_volume(last_usn: i64, changes: Option<&[UsnRecord]>) -> (r: VolumePlan)
    ensures
        volume_plan_of(
            last_usn,
            match changes {
                Some(c) => Some(c@),
                None => None,
            },
            r,
        ),
{
    if last_usn == 0 {
        return VolumePlan::FullRebuild;
    }
    match changes {
        None => VolumePlan::FullRebuild,
        Some(recs) => {
            let mut edits: Vec<IndexEdit> = Vec::new();
            let mut m: u64 = last_usn as u64;
            let mut i: usize = 0;
            while i < recs.len()
                invariant
                    i <= recs@.len(),
                    edits@.len() == i,
                    m == max_usn(last_usn as u64, recs@.take(i as int)),
                    forall|j: int| 0 <= j < i ==> #[trigger] edits@[j] == edit_for(recs@[j].reason),
                decreases recs@.len() - i,
            {
                assert(recs@.take(i + 1).drop_last() =~= recs@.take(i as int));
                if recs[i].usn > m {
                    m = recs[i].usn;
                }
                edits.push(usn_edit(&recs[i].reason));
                i += 1;
            }
            assert(recs@.take(i as int) =~= recs@);
            VolumePlan::Apply { edits, new_usn: m }
        },
    }
}

/// The error of an incremental update when no volume is known.
pub fn no_volumes_error() -> (r: String)
    ensures
        r@ == "no volumes to update"@,
{
    lit("no volumes to update")
}

/// The error of an incremental update when a volume needs a full rebuild.
pub fn rebuild_required_error() -> (r: String)
    ensures
        r@ == "incremental update unavailable, full rebuild required"@,
{
    lit("incremental update unavailable, full rebuild required")
}

/// Position `k` occurs in `order`.
pub open spec fn occurs(order: Seq<usize>, k: int) -> bool {
    exists|a: int| 0 <= a < order.len() && order[a] == k
}

/// The folders of `buf` and then its files, as positions; see `write_order`.
pub fn batch_order(buf: &[UsnRecord]) -> (r: Vec<usize>)
    ensures
        r@.len() == buf@.len(),
        forall|a: int, b: int|
            0 <= a < b < r@.len() ==> (buf@[r@[a] as int].is_directory && !buf@[r@[b] as int].is_directory)
                || (buf@[r@[a] as int].is_directory == buf@[r@[b] as int].is_directory && r@[a] < r@[b]),
        forall|a: int| 0 <= a < r@.len() ==> r@[a] < buf@.len(),
        forall|k: int| 0 <= k < buf@.len() ==> #[trigger] occurs(r@, k),
{
    let n = buf.len();
    let mut dirs: Vec<usize> = Vec::new();
    let mut files: Vec<usize> = Vec::new();
    let mut i: usize = 0;
    while i < n
        invariant
            n == buf@.len(),
            i <= n,
            dirs@.len() + files@.len() == i,
            forall|a: int| 0 <= a < dirs@.len() ==> dirs@[a] < i && buf@[dirs@[a] as int].is_directory,
            forall|a: int| 0 <= a < files@.len() ==> files@[a] < i && !buf@[files@[a] as int].is_directory,
            forall|a: int, b: int| 0 <= a < b < dirs@.len() ==> dirs@[a] < dirs@[b],
            forall|a: int, b: int| 0 <= a < b < files@.len() ==> files@[a] < files@[b],
            forall|k: int| 0 <= k < i ==> #[trigger] occurs(dirs@, k) || occurs(files@, k),
        decreases n - i,
    {
        let ghost d0 = dirs@;
        let ghost f0 = files@;
        if buf[i].is_directory {
            dirs.push(i);
            assert(dirs@[dirs@.len() - 1] == i);
        } else {
            files.push(i);
            assert(files@[files@.len() - 1] == i);
        }
        proof {
            assert forall|k: int| 0 <= k < i + 1 implies #[trigger] occurs(dirs@, k) || occurs(files@, k) by {
                if k < i {
                    if occurs(d0, k) {
                        let a = choose|a: int| 0 <= a < d0.len() && d0[a] == k;
                        assert(dirs@[a] == k);
                    } else {
                        let a = choose|a: int| 0 <= a < f0.len() && f0[a] == k;
                        assert(files@[a] == k);
                    }
                }
            }
        }
        i += 1;
    }
    let ghost d = dirs@;
    let ghost f = files@;
    let mut r = dirs;
    let mut j: usize = 0;
    while j < files.len()
        invariant
            r@.len() == d.len() + j,
            j <= f.len(),
            f == files@,
            forall|a: int| 0 <= a < d.len() ==> r@[a] == d[a],
            forall|a: int| 0 <= a < j ==> r@[d.len() + a] == f[a],
        decreases f.len() - j,
    {
        r.push(files[j]);
        j += 1;
    }
    proof {
        assert forall|k: int| 0 <= k < buf@.len() implies #[trigger] occurs(r@, k) by {
            if occurs(d, k) {
                let a = choose|a: int| 0 <= a < d.len() && d[a] == k;
                assert(r@[a] == k);
            } else {
                let a = choose|a: int| 0 <= a < f.len() && f[a] == k;
                assert(r@[d.len() + a] == k);
            }
        }
        assert forall|a: int, b: int| 0 <= a < b < r@.len() implies (buf@[r@[a] as int].is_directory
            && !buf@[r@[b] as int].is_directory) || (buf@[r@[a] as int].is_directory
            == buf@[r@[b] as int].is_directory && r@[a] < r@[b]) by {
            if b < d.len() {
                assert(r@[a] == d[a] && r@[b] == d[b]);
            } else if a < d.len() {
                assert(r@[a] == d[a] && r@[b] == f[b - d.len()]);
            } else {
                assert(r@[a] == f[a - d.len()] && r@[b] == f[b - d.len()]);
            }
        }
        assert forall|a: int| 0 <= a < r@.len() implies r@[a] < buf@.len() by {
            if a < d.len() {
                assert(r@[a] == d[a]);
            } else {
                assert(r@[a] == f[a - d.len()]);
            }
        }
    }
    r
}

/// The records a full build has buffered but not yet written.
pub struct IndexBatch {
    buffer: Vec<UsnRecord>,
}

impl View for IndexBatch {
    type V = Seq<UsnRecord>;

    closed spec fn view(&self) -> Seq<UsnRecord> {
        self.buffer@
    }
}

impl IndexBatch {
    /// An empty buffer.
    pub fn new() -> (r: Self)
        ensures
            r@ == Seq::<UsnRecord>::empty(),
    {
        IndexBatch { buffer: Vec::new() }
    }

    /// Buffers `record`; true when the buffer is due to be written.
    pub fn push(&mut self, record: UsnRecord) -> (due: bool)
        ensures
            final(self)@ == old(self)@.push(record),
            due == (final(self)@.len() >= INCREMENTAL_FLUSH_INTERVAL),
    {
        self.buffer.push(record);
        self.buffer.len() >= INCREMENTAL_FLUSH_INTERVAL
    }

    /// Whether anything is buffered.
    pub fn is_empty(&self) -> (r: bool)
        ensures
            r == (self@.len() == 0),
    {
        self.buffer.len() == 0
    }

    /// Hands out the buffered records and empties the buffer.
    pub fn take(&mut self) -> (r: Vec<UsnRecord>)
        ensures
            r@ == old(self)@,
            final(self)@ == Seq::<UsnRecord>::empty(),
    {
        let mut out: Vec<UsnRecord> = Vec::new();
        std::mem::swap(&mut out, &mut self.buffer);
        out
    }
}

} // verus!
