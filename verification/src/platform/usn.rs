//! Decoding of NTFS change-journal and master-file-table enumeration buffers,
//! and the reconstruction of full paths from parent file references.
//!
//! The volume is read elsewhere; this module takes the raw output buffers and
//! turns them into records with full paths.

use vstd::prelude::*;
use crate::paths::{ext_holds, join_name, join_path, lowered_extension};
use crate::text::{chars_of, from_utf16_lossy, push_char, starts_with, string_of, trim, trim_chars, utf16_lossy};
use std::collections::{HashMap, HashSet};

verus! {

/// Size in bytes of the fixed part of a `USN_RECORD_V2`, up to its name.
pub const RECORD_HEADER: usize = 60;

/// `FILE_ATTRIBUTE_DIRECTORY`.
pub const ATTR_DIRECTORY: u32 = 0x10;

pub open spec fn le16(b: Seq<u8>, o: int) -> int {
    b[o] + 256 * b[o + 1]
}

pub open spec fn le32(b: Seq<u8>, o: int) -> int {
    le16(b, o) + 65536 * le16(b, o + 2)
}

pub open spec fn le64(b: Seq<u8>, o: int) -> int {
    le32(b, o) + 4294967296 * le32(b, o + 4)
}

fn read_u16(b: &[u8], o: usize) -> (r: u16)
    requires
        o + 2 <= b@.len(),
    ensures
        r == le16(b@, o as int),
{
    (b[o] as u16) + (b[o + 1] as u16) * 256
}

fn read_u32(b: &[u8], o: usize) -> (r: u32)
    requires
        o + 4 <= b@.len(),
    ensures
        r == le32(b@, o as int),
{
    let _n = b.len();
    (read_u16(b, o) as u32) + (read_u16(b, o + 2) as u32) * 65536
}

fn read_u64(b: &[u8], o: usize) -> (r: u64)
    requires
        o + 8 <= b@.len(),
    ensures
        r == le64(b@, o as int),
{
    let _n = b.len();
    (read_u32(b, o) as u64) + (read_u32(b, o + 4) as u64) * 4294967296
}

/// Number of UTF-16 units in the name of the record at `o`.
pub open spec fn name_len(b: Seq<u8>, o: int) -> int {
    le16(b, o + 56) / 2
}

/// The UTF-16 units of the name of the record at `o`.
pub open spec fn name_units(b: Seq<u8>, o: int) -> Seq<u16> {
    Seq::new(name_len(b, o) as nat, |k: int| le16(b, o + 60 + 2 * k) as u16)
}

/// The record at `o`, header and name, lies within the first `end` bytes.
pub open spec fn fits(b: Seq<u8>, end: int, o: int) -> bool {
    0 <= o && o + 60 <= end && o + 60 + 2 * name_len(b, o) <= end
}

/// Offsets of the records of a buffer whose first `end` bytes are valid,
/// starting at `o`: each record gives its own length; the walk stops at a
/// record of length 0 or one that does not fit.
pub open spec fn record_offsets(b: Seq<u8>, end: int, o: int) -> Seq<int>
    decreases (if o <= end { end - o + 1 } else { 0 }),
{
    if fits(b, end, o) && le32(b, o) > 0 {
        seq![o] + record_offsets(b, end, o + le32(b, o))
    } else {
        Seq::empty()
    }
}

/// One `USN_RECORD_V2` as read from a buffer, its name decoded and trimmed.
#[derive(Debug)]
pub struct UsnEntry {
    pub file_reference_number: u64,
    pub parent_file_reference: u64,
    pub usn: i64,
    pub time_stamp: i64,
    pub reason: u32,
    pub file_attributes: u32,
    pub file_name: String,
}

/// `e` is the record found at offset `o` of `b`.
pub open spec fn entry_at(e: UsnEntry, b: Seq<u8>, o: int) -> bool {
    &&& e.file_reference_number == le64(b, o + 8)
    &&& e.parent_file_reference == le64(b, o + 16)
    &&& e.usn == le64(b, o + 24) as i64
    &&& e.time_stamp == le64(b, o + 32) as i64
    &&& e.reason == le32(b, o + 40)
    &&& e.file_attributes == le32(b, o + 52)
    &&& e.file_name@ == trim(utf16_lossy(name_units(b, o)))
}

/// The valid length of an output buffer: what the call reported, within the buffer.
pub open spec fn valid_len(b: Seq<u8>, bytes_returned: usize) -> int {
    if bytes_returned <= b.len() { bytes_returned as int } else { b.len() as int }
}

/// Decodes the record at `off`.
fn read_entry(buf: &[u8], end: usize, off: usize) -> (e: UsnEntry)
    requires
        end <= buf@.len(),
        fits(buf@, end as int, off as int),
    ensures
        entry_at(e, buf@, off as int),
{
    let nl = (read_u16(buf, off + 56) / 2) as usize;
    let mut units: Vec<u16> = Vec::new();
    let mut k: usize = 0;
    while k < nl
        invariant
            end <= buf@.len(),
            fits(buf@, end as int, off as int),
            nl == name_len(buf@, off as int),
            k <= nl,
            units@ =~= name_units(buf@, off as int).take(k as int),
        decreases nl - k,
    {
        units.push(read_u16(buf, off + 60 + 2 * k));
        k += 1;
    }
    assert(units@ =~= name_units(buf@, off as int));
    let decoded = from_utf16_lossy(units.as_slice());
    let cs = chars_of(decoded.as_str());
    let trimmed = trim_chars(cs.as_slice());
    UsnEntry {
        file_reference_number: read_u64(buf, off + 8),
        parent_file_reference: read_u64(buf, off + 16),
        usn: read_u64(buf, off + 24) as i64,
        time_stamp: read_u64(buf, off + 32) as i64,
        reason: read_u32(buf, off + 40),
        file_attributes: read_u32(buf, off + 52),
        file_name: string_of(trimmed.as_slice()),
    }
}

/// The records of an output buffer of the enumeration or journal-read
/// control codes: the first 8 bytes hold the next start value, records
/// follow.  Only the first `bytes_returned` bytes count.
pub fn parse_usn_buffer(buf: &[u8], bytes_returned: usize) -> (r: Vec<UsnEntry>)
    ensures
        r@.len() == record_offsets(buf@, valid_len(buf@, bytes_returned), 8).len(),
        forall|i: int| 0 <= i < r@.len() ==> entry_at(
            #[trigger] r@[i],
            buf@,
            record_offsets(buf@, valid_len(buf@, bytes_returned), 8)[i],
        ),
{
    let end: usize = if bytes_returned <= buf.len() { bytes_returned } else { buf.len() };
    let ghost e = end as int;
    let ghost all = record_offsets(buf@, e, 8);
    let ghost mut done: Seq<int> = Seq::empty();
    let mut out: Vec<UsnEntry> = Vec::new();
    let mut off: usize = 8;
    let mut more = off <= end;
    assert(done + all =~= all);
    if !more {
        assert(all =~= Seq::<int>::empty());
    }
    while more
        invariant
            end <= buf@.len(),
            e == end,
            e == valid_len(buf@, bytes_returned),
            all == record_offsets(buf@, e, 8),
            more ==> off <= end,
            done + (if more { record_offsets(buf@, e, off as int) } else { Seq::empty() }) == all,
            out@.len() == done.len(),
            forall|i: int| 0 <= i < out@.len() ==> entry_at(#[trigger] out@[i], buf@, done[i]),
        decreases (if more { end - off + 1 } else { 0 }),
    {
        if end - off < RECORD_HEADER {
            more = false;
            assert(done + Seq::<int>::empty() =~= done);
        } else {
            let nl = (read_u16(buf, off + 56) / 2) as usize;
            let rl = read_u32(buf, off);
            if nl * 2 > end - off - RECORD_HEADER || rl == 0 {
                more = false;
                assert(done + Seq::<int>::empty() =~= done);
            } else {
                let entry = read_entry(buf, end, off);
                out.push(entry);
                let ghost rest = record_offsets(buf@, e, off + rl);
                assert(record_offsets(buf@, e, off as int) == seq![off as int] + rest);
                proof {
                    assert(done + (seq![off as int] + rest) =~= done.push(off as int) + rest);
                    done = done.push(off as int);
                }
                if (rl as usize) > end - off {
                    more = false;
                    assert(rest =~= Seq::<int>::empty());
                    assert(done + Seq::<int>::empty() =~= done);
                } else {
                    off = off + rl as usize;
                }
            }
        }
    }
    out
}

/// The state of a volume's change journal: the current and next sequence
/// numbers, the first one still held, the journal's identity, its maximum
/// size and how much it grows at a time.
#[derive(Debug, Clone, Copy, PartialEq, Eq, Structural)]
pub struct UsnJournalState {
    pub usn: u64,
    pub next_usn: u64,
    pub first_usn: u64,
    pub journal_id: u64,
    pub max_size: u64,
    pub allocation_delta: u64,
}

/// What a change-journal record reports.
#[derive(Debug, Clone, Copy, PartialEq, Eq, Structural)]
pub enum UsnChangeReason {
    Created,
    Deleted,
    Modified,
    RenamedOldName,
    RenamedNewName,
}

/// The change a reason mask reports, the first that applies of: created
/// (`0x100`), deleted (`0x1000`), data extended (`0x2`, a modification),
/// renamed from (`0x8000`), renamed to (`0x4000`); otherwise a modification.
pub open spec fn reason_of(reason: u32) -> UsnChangeReason {
    if reason & 0x100 != 0 {
        UsnChangeReason::Created
    } else if reason & 0x1000 != 0 {
        UsnChangeReason::Deleted
    } else if reason & 0x2 != 0 {
        UsnChangeReason::Modified
    } else if reason & 0x8000 != 0 {
        UsnChangeReason::RenamedOldName
    } else if reason & 0x4000 != 0 {
        UsnChangeReason::RenamedNewName
    } else {
        UsnChangeReason::Modified
    }
}

/// Classifies a journal reason mask.
pub fn classify_reason(reason: u32) -> (r: UsnChangeReason)
    ensures
        r == reason_of(reason),
{
    if reason & 0x100 != 0 {
        UsnChangeReason::Created
    } else if reason & 0x1000 != 0 {
        UsnChangeReason::Deleted
    } else if reason & 0x2 != 0 {
        UsnChangeReason::Modified
    } else if reason & 0x8000 != 0 {
        UsnChangeReason::RenamedOldName
    } else if reason & 0x4000 != 0 {
        UsnChangeReason::RenamedNewName
    } else {
        UsnChangeReason::Modified
    }
}

/// Division rounding toward zero, as Rust's `/` on integers.
pub open spec fn trunc_div(a: int, d: int) -> int {
    if a >= 0 { a / d } else { -((-a) / d) }
}

/// Seconds since the Unix epoch of a `FILETIME` count of 100 ns ticks since 1601.
pub open spec fn unix_seconds(ts: int) -> int {
    trunc_div(ts, 10000000) - 11644473600
}

/// Converts a journal time stamp to Unix seconds.
pub fn filetime_to_unix(ts: i64) -> (r: i64)
    ensures
        r == unix_seconds(ts as int),
{
    let q: i64 = if ts >= 0 {
        ts / 10000000
    } else {
        let m: i64 = -(ts + 1);
        let pos: u64 = (m as u64) + 1;
        assert(pos == -(ts as int));
        -((pos / 10000000) as i64)
    };
    q - 11644473600
}

/// The record describes a directory.
pub open spec fn is_dir_entry(e: UsnEntry) -> bool {
    e.file_attributes & ATTR_DIRECTORY != 0
}

/// Names the indexer leaves out: NTFS metadata (`$MFT`, ...) and, when
/// `skip_dot` holds, names that start with a dot.
pub open spec fn hidden_name(name: Seq<char>, skip_dot: bool) -> bool {
    name.len() > 0 && (name[0] == '$' || (skip_dot && name[0] == '.'))
}

/// The records of `es`, in order, that are not hidden and are directories
/// (`dirs`) or files (`!dirs`).
pub open spec fn select(es: Seq<UsnEntry>, skip_dot: bool, dirs: bool) -> Seq<UsnEntry>
    decreases es.len(),
{
    if es.len() == 0 {
        Seq::empty()
    } else {
        let r = select(es.drop_last(), skip_dot, dirs);
        let e = es.last();
        if !hidden_name(e.file_name@, skip_dot) && is_dir_entry(e) == dirs {
            r.push(e)
        } else {
            r
        }
    }
}

fn starts_with_char(s: &String, c: char) -> (r: bool)
    ensures
        r == (s@.len() > 0 && s@[0] == c),
{
    let cs = chars_of(s.as_str());
    cs.len() > 0 && cs[0] == c
}

/// Drops hidden names and separates directories from files, keeping order.
pub fn split_entries(entries: Vec<UsnEntry>, skip_dot: bool) -> (r: (Vec<UsnEntry>, Vec<UsnEntry>))
    ensures
        r.0@ == select(entries@, skip_dot, true),
        r.1@ == select(entries@, skip_dot, false),
{
    let ghost all = entries@;
    let mut dirs: Vec<UsnEntry> = Vec::new();
    let mut files: Vec<UsnEntry> = Vec::new();
    for e in it: entries.into_iter()
        invariant
            it.seq() == all,
            dirs@ == select(all.take(it.index() as int), skip_dot, true),
            files@ == select(all.take(it.index() as int), skip_dot, false),
    {
        let ghost k = it.index() as int;
        assert(all.take(k + 1).drop_last() =~= all.take(k));
        assert(all.take(k + 1).last() == e);
        let hidden = starts_with_char(&e.file_name, '$') || (skip_dot && starts_with_char(&e.file_name, '.'));
        if !hidden {
            if e.file_attributes & ATTR_DIRECTORY != 0 {
                dirs.push(e);
            } else {
                files.push(e);
            }
        }
    }
    assert(all.take(all.len() as int) =~= all);
    (dirs, files)
}

/// Sort key of the directory record at `k`: its parent, then its position,
/// which makes sorting by the key a stable sort by parent.
pub open spec fn pair_le(a: (u64, usize), b: (u64, usize)) -> bool {
    a.0 < b.0 || (a.0 == b.0 && a.1 <= b.1)
}

/// Record `a` comes before record `b` in a stable sort by parent reference.
pub open spec fn stable_before(dirs: Seq<UsnEntry>, a: int, b: int) -> bool {
    dirs[a].parent_file_reference < dirs[b].parent_file_reference || (dirs[a].parent_file_reference
        == dirs[b].parent_file_reference && a < b)
}

/// Position `k` occurs in `order`.
pub open spec fn appears(order: Seq<usize>, k: int) -> bool {
    exists|i: int| 0 <= i < order.len() && order[i] == k
}

/// Sorts with `slice::sort`, which orders tuples lexicographically and keeps
/// the elements.
#[verifier::external_body]
fn sort_pairs(v: &mut Vec<(u64, usize)>)
    ensures
        final(v)@.to_multiset() == old(v)@.to_multiset(),
        forall|i: int, j: int| 0 <= i < j < final(v)@.len() ==> pair_le(final(v)@[i], final(v)@[j]),
{
    v.sort();
}

/// The positions of `dirs` in the order of a stable sort by parent reference.
pub fn parent_order(dirs: &[UsnEntry]) -> (order: Vec<usize>)
    ensures
        order@.len() == dirs@.len(),
        forall|i: int| 0 <= i < order@.len() ==> order@[i] < dirs@.len(),
        forall|k: int| 0 <= k < dirs@.len() ==> #[trigger] appears(order@, k),
        forall|i: int, j: int|
            0 <= i < j < order@.len() ==> stable_before(dirs@, order@[i] as int, order@[j] as int),
{
    let n = dirs.len();
    let mut keys: Vec<(u64, usize)> = Vec::new();
    let mut k: usize = 0;
    while k < n
        invariant
            n == dirs@.len(),
            k <= n,
            keys@.len() == k,
            forall|m: int| 0 <= m < k ==> #[trigger] keys@[m] == (dirs@[m].parent_file_reference, m as usize),
        decreases n - k,
    {
        keys.push((dirs[k].parent_file_reference, k));
        k += 1;
    }
    let ghost before = keys@;
    proof {
        assert(before.no_duplicates());
        before.lemma_multiset_has_no_duplicates();
    }
    sort_pairs(&mut keys);
    let ghost after = keys@;
    proof {
        before.to_multiset_ensures();
        after.to_multiset_ensures();
        after.lemma_multiset_has_no_duplicates_conv();
        assert forall|i: int| 0 <= i < after.len() implies #[trigger] after[i].1 < n
            && after[i].0 == dirs@[after[i].1 as int].parent_file_reference by {
            assert(after.contains(after[i]));
            assert(after.to_multiset().count(after[i]) > 0);
            assert(before.to_multiset().count(after[i]) > 0);
            assert(before.contains(after[i]));
        }
    }
    let mut order: Vec<usize> = Vec::new();
    let mut i: usize = 0;
    while i < keys.len()
        invariant
            keys@ == after,
            after.len() == n,
            i <= n,
            order@.len() == i,
            forall|m: int| 0 <= m < i ==> #[trigger] order@[m] == after[m].1,
        decreases n - i,
    {
        order.push(keys[i].1);
        i += 1;
    }
    proof {
        assert forall|kk: int| 0 <= kk < n implies #[trigger] appears(order@, kk) by {
            assert(before[kk] == (dirs@[kk].parent_file_reference, kk as usize));
            assert(before.contains(before[kk]));
            assert(before.to_multiset().count(before[kk]) > 0);
            assert(after.to_multiset().count(before[kk]) > 0);
            assert(after.contains(before[kk]));
            let j = choose|j: int| 0 <= j < after.len() && after[j] == before[kk];
            assert(order@[j] == kk);
        }
        assert forall|a: int, b: int| 0 <= a < b < order@.len() implies stable_before(
            dirs@,
            order@[a] as int,
            order@[b] as int,
        ) by {
            assert(pair_le(after[a], after[b]));
            assert(after[a] != after[b]);
        }
    }
    order
}

// ---------------------------------------------------------------------------
// Root directories and full paths.

/// Some directory record has reference `x`.
pub open spec fn has_dir_frn(dirs: Seq<UsnEntry>, x: u64) -> bool {
    exists|i: int| 0 <= i < dirs.len() && #[trigger] dirs[i].file_reference_number == x
}

/// `x` is the parent of a record whose parent is no known directory, or of a
/// record that is its own parent: the volume root as the enumeration sees it.
pub open spec fn is_root_parent(dirs: Seq<UsnEntry>, x: u64) -> bool {
    exists|i: int| 0 <= i < dirs.len() && #[trigger] root_at(dirs, i, x)
}

/// Record `i` marks `x` as a root parent.
pub open spec fn root_at(dirs: Seq<UsnEntry>, i: int, x: u64) -> bool {
    dirs[i].parent_file_reference == x && (!has_dir_frn(dirs, x) || dirs[i].file_reference_number == x)
}

/// Some directory record has `x` as its own or its parent reference.
pub open spec fn mentions(dirs: Seq<UsnEntry>, x: u64) -> bool {
    exists|i: int| 0 <= i < dirs.len() && #[trigger] mentions_at(dirs, i, x)
}

/// Record `i` has `x` as its own or its parent reference.
pub open spec fn mentions_at(dirs: Seq<UsnEntry>, i: int, x: u64) -> bool {
    dirs[i].file_reference_number == x || dirs[i].parent_file_reference == x
}

/// References that stand for the volume root during a full enumeration: the
/// root parents; failing those, whichever of 5 and 0 the records mention;
/// failing those, both 0 and 5.
pub open spec fn volume_roots(dirs: Seq<UsnEntry>) -> Set<u64> {
    if exists|x: u64| is_root_parent(dirs, x) {
        Set::new(|x: u64| is_root_parent(dirs, x))
    } else if mentions(dirs, 5) || mentions(dirs, 0) {
        Set::new(|x: u64| (x == 5 || x == 0) && mentions(dirs, x))
    } else {
        set![0u64, 5u64]
    }
}

/// The parent of the first record, from position `i` on, whose parent is no
/// known directory.
pub open spec fn first_orphan_from(dirs: Seq<UsnEntry>, i: int) -> Option<u64>
    decreases dirs.len() - i,
{
    if i < 0 || i >= dirs.len() {
        None
    } else if !has_dir_frn(dirs, dirs[i].parent_file_reference) {
        Some(dirs[i].parent_file_reference)
    } else {
        first_orphan_from(dirs, i + 1)
    }
}

/// The root reference a journal read settles on: the first orphan parent;
/// failing that, 5 or else 0 if some record has it as parent.
pub open spec fn journal_root(dirs: Seq<UsnEntry>) -> Option<u64> {
    match first_orphan_from(dirs, 0) {
        Some(p) => Some(p),
        None => if exists|i: int| 0 <= i < dirs.len() && #[trigger] dirs[i].parent_file_reference == 5 {
            Some(5u64)
        } else if exists|i: int| 0 <= i < dirs.len() && #[trigger] dirs[i].parent_file_reference == 0 {
            Some(0u64)
        } else {
            None
        },
    }
}

/// References that stand for the volume root during a journal read: 0, with
/// the journal root or, failing one, 5.
pub open spec fn journal_roots(dirs: Seq<UsnEntry>) -> Set<u64> {
    match journal_root(dirs) {
        Some(f) => set![0u64, f],
        None => set![0u64, 5u64],
    }
}

fn dir_frn_set(dirs: &[UsnEntry]) -> (s: HashSet<u64>)
    ensures
        forall|x: u64| s@.contains(x) <==> has_dir_frn(dirs@, x),
{
    broadcast use vstd::std_specs::hash::group_hash_axioms;

    let mut s: HashSet<u64> = HashSet::new();
    let mut i: usize = 0;
    while i < dirs.len()
        invariant
            i <= dirs@.len(),
            forall|x: u64| s@.contains(x) <==> has_dir_frn(dirs@.take(i as int), x),
        decreases dirs@.len() - i,
    {
        s.insert(dirs[i].file_reference_number);
        proof {
            let t = dirs@.take(i + 1);
            assert forall|x: u64| s@.contains(x) <==> has_dir_frn(t, x) by {
                if has_dir_frn(t, x) {
                    let j = choose|j: int| 0 <= j < t.len() && #[trigger] t[j].file_reference_number == x;
                    if j < i {
                        assert(dirs@.take(i as int)[j] == t[j]);
                    }
                }
                if has_dir_frn(dirs@.take(i as int), x) {
                    let j = choose|j: int| 0 <= j < i && #[trigger] dirs@.take(i as int)[j].file_reference_number == x;
                    assert(t[j] == dirs@.take(i as int)[j]);
                }
                if x == dirs@[i as int].file_reference_number {
                    assert(t[i as int] == dirs@[i as int]);
                }
            }
        }
        i += 1;
    }
    assert(dirs@.take(i as int) =~= dirs@);
    s
}

fn mentions_exec(dirs: &[UsnEntry], x: u64) -> (r: bool)
    ensures
        r == mentions(dirs@, x),
{
    let mut i: usize = 0;
    while i < dirs.len()
        invariant
            i <= dirs@.len(),
            forall|j: int| 0 <= j < i ==> !#[trigger] mentions_at(dirs@, j, x),
        decreases dirs@.len() - i,
    {
        if dirs[i].file_reference_number == x || dirs[i].parent_file_reference == x {
            assert(mentions_at(dirs@, i as int, x));
            return true;
        }
        i += 1;
    }
    false
}

fn has_parent_exec(dirs: &[UsnEntry], x: u64) -> (r: bool)
    ensures
        r == exists|i: int| 0 <= i < dirs@.len() && #[trigger] dirs@[i].parent_file_reference == x,
{
    let mut i: usize = 0;
    while i < dirs.len()
        invariant
            i <= dirs@.len(),
            forall|j: int| 0 <= j < i ==> #[trigger] dirs@[j].parent_file_reference != x,
        decreases dirs@.len() - i,
    {
        if dirs[i].parent_file_reference == x {
            return true;
        }
        i += 1;
    }
    false
}

/// The references that stand for the volume root during a full enumeration.
pub fn volume_root_frns(dirs: &[UsnEntry]) -> (r: Vec<u64>)
    ensures
        forall|x: u64| r@.contains(x) <==> volume_roots(dirs@).contains(x),
{
    broadcast use vstd::std_specs::hash::group_hash_axioms;

    let frns = dir_frn_set(dirs);
    let mut seen: HashSet<u64> = HashSet::new();
    let mut out: Vec<u64> = Vec::new();
    let mut i: usize = 0;
    while i < dirs.len()
        invariant
            i <= dirs@.len(),
            forall|x: u64| frns@.contains(x) <==> has_dir_frn(dirs@, x),
            forall|x: u64| seen@.contains(x) <==> out@.contains(x),
            forall|x: u64| out@.contains(x) <==> exists|j: int| 0 <= j < i && #[trigger] root_at(dirs@, j, x),
        decreases dirs@.len() - i,
    {
        let p = dirs[i].parent_file_reference;
        let is_root = !frns.contains(&p) || dirs[i].file_reference_number == p;
        assert(is_root == root_at(dirs@, i as int, p));
        let ghost out0 = out@;
        if is_root && !seen.contains(&p) {
            seen.insert(p);
            out.push(p);
            assert(out@[out@.len() - 1] == p);
        }
        proof {
            assert forall|x: u64| out@.contains(x) <==> exists|j: int| 0 <= j < i + 1 && #[trigger] root_at(dirs@, j, x) by {
                if out@.contains(x) {
                    if !out0.contains(x) {
                        assert(x == p);
                        assert(root_at(dirs@, i as int, x));
                    }
                }
                if exists|j: int| 0 <= j < i + 1 && #[trigger] root_at(dirs@, j, x) {
                    let j = choose|j: int| 0 <= j < i + 1 && #[trigger] root_at(dirs@, j, x);
                    if j == i {
                        assert(x == p);
                    } else {
                        assert(out0.contains(x));
                        let k = choose|k: int| 0 <= k < out0.len() && out0[k] == x;
                        assert(out@[k] == x);
                    }
                }
            }
        }
        i += 1;
    }
    if out.len() > 0 {
        proof {
            assert(out@.contains(out@[0]));
            assert(is_root_parent(dirs@, out@[0]));
            assert forall|x: u64| out@.contains(x) <==> volume_roots(dirs@).contains(x) by {}
        }
        return out;
    }
    assert forall|x: u64| !is_root_parent(dirs@, x) by {
        if is_root_parent(dirs@, x) {
            assert(out@.contains(x));
        }
    }
    let m5 = mentions_exec(dirs, 5);
    let m0 = mentions_exec(dirs, 0);
    let mut r: Vec<u64> = Vec::new();
    if m5 || m0 {
        if m5 {
            r.push(5);
        }
        if m0 {
            r.push(0);
        }
    } else {
        r.push(0);
        r.push(5);
    }
    assert forall|x: u64| r@.contains(x) <==> volume_roots(dirs@).contains(x) by {
        if r@.contains(x) {
            let k = choose|k: int| 0 <= k < r@.len() && r@[k] == x;
        }
        if x == 5 && volume_roots(dirs@).contains(x) {
            assert(r@[0] == 5 || r@[1] == 5);
        }
        if x == 0 && volume_roots(dirs@).contains(x) {
            assert(r@[0] == 0 || r@[1] == 0);
        }
    }
    r
}

/// The references that stand for the volume root during a journal read.
pub fn journal_root_frns(dirs: &[UsnEntry]) -> (r: Vec<u64>)
    ensures
        forall|x: u64| r@.contains(x) <==> journal_roots(dirs@).contains(x),
{
    let frns = dir_frn_set(dirs);
    let mut found: Option<u64> = None;
    let mut i: usize = 0;
    while i < dirs.len() && found.is_none()
        invariant
            i <= dirs@.len(),
            forall|x: u64| frns@.contains(x) <==> has_dir_frn(dirs@, x),
            found is None ==> first_orphan_from(dirs@, i as int) == first_orphan_from(dirs@, 0),
            found is Some ==> found == first_orphan_from(dirs@, 0),
        decreases dirs@.len() - i + (if found is None { 1int } else { 0int }),
    {
        let p = dirs[i].parent_file_reference;
        if !frns.contains(&p) {
            found = Some(p);
        } else {
            i += 1;
        }
    }
    if found.is_none() {
        assert(first_orphan_from(dirs@, i as int) == None::<u64>);
    }
    let root: Option<u64> = match found {
        Some(p) => Some(p),
        None => {
            if has_parent_exec(dirs, 5) {
                Some(5)
            } else if has_parent_exec(dirs, 0) {
                Some(0)
            } else {
                None
            }
        },
    };
    assert(root == journal_root(dirs@));
    let mut r: Vec<u64> = Vec::new();
    r.push(0);
    match root {
        Some(f) => r.push(f),
        None => r.push(5),
    }
    assert forall|x: u64| r@.contains(x) <==> journal_roots(dirs@).contains(x) by {
        if r@.contains(x) {
            let k = choose|k: int| 0 <= k < r@.len() && r@[k] == x;
        }
        if journal_roots(dirs@).contains(x) {
            assert(r@[0] == x || r@[1] == x);
        }
    }
    r
}

/// `x` is a root, or the reference of a directory whose parent is reached in
/// fewer than `k` steps: `x` is at most `k` levels below a root.
pub open spec fn reaches(dirs: Seq<UsnEntry>, roots: Set<u64>, x: u64, k: nat) -> bool
    decreases k,
{
    roots.contains(x) || (k > 0 && exists|i: int|
        0 <= i < dirs.len() && #[trigger] dirs[i].file_reference_number == x && reaches(
            dirs,
            roots,
            dirs[i].parent_file_reference,
            (k - 1) as nat,
        ))
}

/// The path recorded for `x` in `m` is accounted for: a root has the root
/// path; any other reference is a directory whose parent is recorded, and its
/// path is the parent's joined with its name.
pub open spec fn justified(
    dirs: Seq<UsnEntry>,
    roots: Set<u64>,
    root: Seq<char>,
    m: Map<u64, String>,
    x: u64,
) -> bool {
    if roots.contains(x) {
        m[x]@ == root
    } else {
        exists|i: int|
            0 <= i < dirs.len() && #[trigger] dirs[i].file_reference_number == x && m.contains_key(
                dirs[i].parent_file_reference,
            ) && m[x]@ == join_path(m[dirs[i].parent_file_reference]@, dirs[i].file_name@)
    }
}

/// Every directory whose parent has a path has one itself.
pub open spec fn closed(dirs: Seq<UsnEntry>, m: Map<u64, String>) -> bool {
    forall|i: int|
        0 <= i < dirs.len() && m.contains_key(#[trigger] dirs[i].parent_file_reference) ==> m.contains_key(
            dirs[i].file_reference_number,
        )
}

proof fn lemma_closed_reaches(dirs: Seq<UsnEntry>, roots: Set<u64>, m: Map<u64, String>, x: u64, k: nat)
    requires
        closed(dirs, m),
        forall|r: u64| roots.contains(r) ==> m.contains_key(r),
        reaches(dirs, roots, x, k),
    ensures
        m.contains_key(x),
    decreases k,
{
    if !roots.contains(x) {
        let i = choose|i: int|
            0 <= i < dirs.len() && #[trigger] dirs[i].file_reference_number == x && reaches(
                dirs,
                roots,
                dirs[i].parent_file_reference,
                (k - 1) as nat,
            );
        lemma_closed_reaches(dirs, roots, m, dirs[i].parent_file_reference, (k - 1) as nat);
    }
}

/// Passes over the directory records that `build_dir_paths` makes at most.
pub const MAX_PATH_PASSES: usize = 100;

/// Full paths of directories, from the root references and the directory
/// records visited in `order`: passes over the records until one adds
/// nothing or `MAX_PATH_PASSES` passes are made; a record whose parent has a
/// path, and which has none yet, gets the parent's path joined with its name.
pub fn build_dir_paths(dirs: &[UsnEntry], order: &[usize], roots: &[u64], root: &String) -> (m: HashMap<
    u64,
    String,
>)
    requires
        forall|i: int| 0 <= i < order@.len() ==> order@[i] < dirs@.len(),
        forall|k: int| 0 <= k < dirs@.len() ==> #[trigger] appears(order@, k),
    ensures
        forall|x: u64| #[trigger] m@.contains_key(x) ==> justified(dirs@, roots@.to_set(), root@, m@, x),
        forall|x: u64|
            reaches(dirs@, roots@.to_set(), x, MAX_PATH_PASSES as nat) ==> #[trigger] m@.contains_key(x),
{
    broadcast use vstd::std_specs::hash::group_hash_axioms;

    let ghost rs = roots@.to_set();
    let mut m: HashMap<u64, String> = HashMap::new();
    let mut r: usize = 0;
    while r < roots.len()
        invariant
            r <= roots@.len(),
            rs == roots@.to_set(),
            forall|x: u64| #[trigger] m@.contains_key(x) ==> rs.contains(x) && m@[x]@ == root@,
            forall|k: int| 0 <= k < r ==> m@.contains_key(#[trigger] roots@[k]),
        decreases roots@.len() - r,
    {
        m.insert(roots[r], root.clone());
        proof {
            assert(roots@.contains(roots@[r as int]));
        }
        r += 1;
    }
    proof {
        assert forall|x: u64| rs.contains(x) implies m@.contains_key(x) by {
            let k = choose|k: int| 0 <= k < roots@.len() && roots@[k] == x;
        }
    }
    let mut changed = true;
    let mut passes: usize = 0;
    while changed && passes < MAX_PATH_PASSES
        invariant
            forall|i: int| 0 <= i < order@.len() ==> order@[i] < dirs@.len(),
            forall|k: int| 0 <= k < dirs@.len() ==> #[trigger] appears(order@, k),
            rs == roots@.to_set(),
            passes <= MAX_PATH_PASSES,
            forall|x: u64| rs.contains(x) ==> #[trigger] m@.contains_key(x),
            forall|x: u64| #[trigger] m@.contains_key(x) ==> justified(dirs@, rs, root@, m@, x),
            forall|x: u64| reaches(dirs@, rs, x, passes as nat) ==> #[trigger] m@.contains_key(x),
            !changed ==> closed(dirs@, m@),
        decreases MAX_PATH_PASSES - passes,
    {
        changed = false;
        passes += 1;
        let ghost m0 = m@;
        let mut j: usize = 0;
        while j < order.len()
            invariant
                forall|i: int| 0 <= i < order@.len() ==> order@[i] < dirs@.len(),
                j <= order@.len(),
                forall|x: u64| rs.contains(x) ==> #[trigger] m@.contains_key(x),
                forall|x: u64| #[trigger] m0.contains_key(x) ==> m@.contains_key(x) && m@[x] == m0[x],
                forall|x: u64| #[trigger] m@.contains_key(x) ==> justified(dirs@, rs, root@, m@, x),
                forall|jj: int|
                    0 <= jj < j && m0.contains_key(dirs@[#[trigger] order@[jj] as int].parent_file_reference)
                        ==> m@.contains_key(dirs@[order@[jj] as int].file_reference_number),
                !changed ==> m@ == m0,
            decreases order@.len() - j,
        {
            let d = &dirs[order[j]];
            if !m.contains_key(&d.file_reference_number) {
                let parent_path = m.get(&d.parent_file_reference);
                match parent_path {
                    Some(pp) => {
                        let path = join_name(pp, &d.file_name);
                        let ghost mb = m@;
                        let ghost x = d.file_reference_number;
                        let ghost i = order@[j as int] as int;
                        assert(!rs.contains(x));
                        m.insert(d.file_reference_number, path);
                        proof {
                            assert(d.parent_file_reference != x);
                            assert forall|y: u64| #[trigger] m@.contains_key(y) implies justified(
                                dirs@,
                                rs,
                                root@,
                                m@,
                                y,
                            ) by {
                                if y == x {
                                    assert(dirs@[i].file_reference_number == x);
                                } else if !rs.contains(y) {
                                    assert(justified(dirs@, rs, root@, mb, y));
                                    let w = choose|w: int|
                                        0 <= w < dirs@.len() && #[trigger] dirs@[w].file_reference_number == y
                                            && mb.contains_key(dirs@[w].parent_file_reference) && mb[y]@
                                            == join_path(mb[dirs@[w].parent_file_reference]@, dirs@[w].file_name@);
                                    assert(dirs@[w].parent_file_reference != x);
                                }
                            }
                        }
                        changed = true;
                    },
                    None => {},
                }
            }
            j += 1;
        }
        proof {
            assert forall|x: u64| reaches(dirs@, rs, x, passes as nat) implies #[trigger] m@.contains_key(x) by {
                if !rs.contains(x) {
                    let i = choose|i: int|
                        0 <= i < dirs@.len() && #[trigger] dirs@[i].file_reference_number == x && reaches(
                            dirs@,
                            rs,
                            dirs@[i].parent_file_reference,
                            (passes - 1) as nat,
                        );
                    assert(appears(order@, i));
                    let jj = choose|jj: int| 0 <= jj < order@.len() && order@[jj] == i;
                    assert(m0.contains_key(dirs@[order@[jj] as int].parent_file_reference));
                }
            }
            if !changed {
                assert forall|i: int|
                    0 <= i < dirs@.len() && m@.contains_key(#[trigger] dirs@[i].parent_file_reference)
                        implies m@.contains_key(dirs@[i].file_reference_number) by {
                    assert(appears(order@, i));
                    let jj = choose|jj: int| 0 <= jj < order@.len() && order@[jj] == i;
                    assert(m0.contains_key(dirs@[order@[jj] as int].parent_file_reference));
                }
            }
        }
    }
    proof {
        if !changed {
            assert forall|x: u64| reaches(dirs@, rs, x, MAX_PATH_PASSES as nat) implies #[trigger] m@.contains_key(x) by {
                lemma_closed_reaches(dirs@, rs, m@, x, MAX_PATH_PASSES as nat);
            }
        }
    }
    m
}

// ---------------------------------------------------------------------------
// Records with full paths.

/// A file-system change or entry, with its full path.
#[derive(Debug)]
pub struct UsnRecord {
    pub file_reference_number: u64,
    pub parent_file_reference: u64,
    pub file_name: String,
    pub full_path: String,
    pub file_size: u64,
    pub last_write_time: i64,
    pub is_directory: bool,
    pub extension: Option<String>,
    pub reason: UsnChangeReason,
    pub usn: u64,
}

/// `r` is the entry of a full enumeration for directory record `d` at `path`.
pub open spec fn mft_dir_record(r: UsnRecord, d: UsnEntry, path: Seq<char>) -> bool {
    &&& r.file_reference_number == d.file_reference_number
    &&& r.parent_file_reference == d.parent_file_reference
    &&& r.file_name@ == d.file_name@
    &&& r.full_path@ == path
    &&& r.file_size == 0
    &&& r.last_write_time == unix_seconds(d.time_stamp as int)
    &&& r.is_directory
    &&& r.extension is None
    &&& r.reason == UsnChangeReason::Created
    &&& r.usn == 0
}

/// `r` is the entry of a full enumeration for file record `f` at `path`.
pub open spec fn mft_file_record(r: UsnRecord, f: UsnEntry, path: Seq<char>) -> bool {
    &&& r.file_reference_number == f.file_reference_number
    &&& r.parent_file_reference == f.parent_file_reference
    &&& r.file_name@ == f.file_name@
    &&& r.full_path@ == path
    &&& r.file_size == 0
    &&& r.last_write_time == unix_seconds(f.time_stamp as int)
    &&& !r.is_directory
    &&& ext_holds(r.extension, f.file_name@)
    &&& r.reason == UsnChangeReason::Created
    &&& r.usn == 0
}

/// `r` is the change reported for directory record `d` at `path`.
pub open spec fn change_dir_record(r: UsnRecord, d: UsnEntry, path: Seq<char>) -> bool {
    &&& r.file_reference_number == d.file_reference_number
    &&& r.parent_file_reference == d.parent_file_reference
    &&& r.file_name@ == d.file_name@
    &&& r.full_path@ == path
    &&& r.file_size == 0
    &&& r.last_write_time == 0
    &&& r.is_directory
    &&& r.extension is None
    &&& r.reason == UsnChangeReason::Modified
    &&& r.usn == d.usn as u64
}

/// `r` is the change reported for file record `f` at `path`.
pub open spec fn change_file_record(r: UsnRecord, f: UsnEntry, path: Seq<char>) -> bool {
    &&& r.file_reference_number == f.file_reference_number
    &&& r.parent_file_reference == f.parent_file_reference
    &&& r.file_name@ == f.file_name@
    &&& r.full_path@ == path
    &&& r.file_size == 0
    &&& r.last_write_time == unix_seconds(f.time_stamp as int)
    &&& !r.is_directory
    &&& ext_holds(r.extension, f.file_name@)
    &&& r.reason == reason_of(f.reason)
    &&& r.usn == f.usn as u64
}

/// Positions, in `order`, of the directory records that got a path.
pub open spec fn placed_dirs(dirs: Seq<UsnEntry>, order: Seq<usize>, m: Map<u64, String>) -> Seq<int>
    decreases order.len(),
{
    if order.len() == 0 {
        Seq::empty()
    } else {
        let r = placed_dirs(dirs, order.drop_last(), m);
        if m.contains_key(dirs[order.last() as int].file_reference_number) {
            r.push(order.last() as int)
        } else {
            r
        }
    }
}

/// Positions of the file records whose parent got a path.
pub open spec fn placed_files(files: Seq<UsnEntry>, n: int, m: Map<u64, String>) -> Seq<int>
    decreases n,
{
    if n <= 0 {
        Seq::empty()
    } else {
        let r = placed_files(files, n - 1, m);
        if m.contains_key(files[n - 1].parent_file_reference) {
            r.push(n - 1)
        } else {
            r
        }
    }
}

/// The path that the directory record at `k` has in `m`.
pub open spec fn dir_path(dirs: Seq<UsnEntry>, m: Map<u64, String>, k: int) -> Seq<char> {
    m[dirs[k].file_reference_number]@
}

/// The path of the file record at `k`, under its parent's path in `m`.
pub open spec fn file_path(files: Seq<UsnEntry>, m: Map<u64, String>, k: int) -> Seq<char> {
    join_path(m[files[k].parent_file_reference]@, files[k].file_name@)
}

fn mft_dir(d: &UsnEntry, path: &String) -> (r: UsnRecord)
    ensures
        mft_dir_record(r, *d, path@),
{
    UsnRecord {
        file_reference_number: d.file_reference_number,
        parent_file_reference: d.parent_file_reference,
        file_name: d.file_name.clone(),
        full_path: path.clone(),
        file_size: 0,
        last_write_time: filetime_to_unix(d.time_stamp),
        is_directory: true,
        extension: None,
        reason: UsnChangeReason::Created,
        usn: 0,
    }
}

fn mft_file(f: &UsnEntry, parent: &String) -> (r: UsnRecord)
    ensures
        mft_file_record(r, *f, join_path(parent@, f.file_name@)),
{
    UsnRecord {
        file_reference_number: f.file_reference_number,
        parent_file_reference: f.parent_file_reference,
        file_name: f.file_name.clone(),
        full_path: join_name(parent, &f.file_name),
        file_size: 0,
        last_write_time: filetime_to_unix(f.time_stamp),
        is_directory: false,
        extension: lowered_extension(&f.file_name),
        reason: UsnChangeReason::Created,
        usn: 0,
    }
}

/// `r` lists, for the directory records visited in `order` that have a path in
/// `m`, their entries, then, for the file records whose parent has a path, the
/// file entries in their own order.
pub open spec fn mft_output(
    r: Seq<UsnRecord>,
    dirs: Seq<UsnEntry>,
    order: Seq<usize>,
    files: Seq<UsnEntry>,
    m: Map<u64, String>,
) -> bool {
    let pd = placed_dirs(dirs, order, m);
    let pf = placed_files(files, files.len() as int, m);
    &&& r.len() == pd.len() + pf.len()
    &&& forall|i: int| 0 <= i < pd.len() ==> mft_dir_record(#[trigger] r[i], dirs[pd[i]], dir_path(dirs, m, pd[i]))
    &&& forall|i: int|
        0 <= i < pf.len() ==> mft_file_record(#[trigger] r[pd.len() + i], files[pf[i]], file_path(files, m, pf[i]))
}

/// The entries of a full enumeration: the directories that got a path, in
/// `order`, then the files whose parent got one, in their own order.
pub fn mft_records(dirs: &[UsnEntry], order: &[usize], files: &[UsnEntry], m: &HashMap<u64, String>) -> (r: Vec<
    UsnRecord,
>)
    requires
        forall|i: int| 0 <= i < order@.len() ==> order@[i] < dirs@.len(),
    ensures
        mft_output(r@, dirs@, order@, files@, m@),
{
    broadcast use vstd::std_specs::hash::group_hash_axioms;

    let mut r: Vec<UsnRecord> = Vec::new();
    let mut j: usize = 0;
    while j < order.len()
        invariant
            forall|i: int| 0 <= i < order@.len() ==> order@[i] < dirs@.len(),
            j <= order@.len(),
            r@.len() == placed_dirs(dirs@, order@.take(j as int), m@).len(),
            forall|i: int|
                0 <= i < r@.len() ==> mft_dir_record(
                    #[trigger] r@[i],
                    dirs@[placed_dirs(dirs@, order@.take(j as int), m@)[i]],
                    dir_path(dirs@, m@, placed_dirs(dirs@, order@.take(j as int), m@)[i]),
                ),
        decreases order@.len() - j,
    {
        assert(order@.take(j + 1).drop_last() =~= order@.take(j as int));
        let d = &dirs[order[j]];
        match m.get(&d.file_reference_number) {
            Some(path) => {
                r.push(mft_dir(d, path));
            },
            None => {},
        }
        j += 1;
    }
    assert(order@.take(j as int) =~= order@);
    let nd = r.len();
    let mut k: usize = 0;
    while k < files.len()
        invariant
            k <= files@.len(),
            nd == placed_dirs(dirs@, order@, m@).len(),
            r@.len() == nd + placed_files(files@, k as int, m@).len(),
            forall|i: int|
                0 <= i < nd ==> mft_dir_record(
                    #[trigger] r@[i],
                    dirs@[placed_dirs(dirs@, order@, m@)[i]],
                    dir_path(dirs@, m@, placed_dirs(dirs@, order@, m@)[i]),
                ),
            forall|i: int|
                0 <= i < placed_files(files@, k as int, m@).len() ==> mft_file_record(
                    #[trigger] r@[nd + i],
                    files@[placed_files(files@, k as int, m@)[i]],
                    file_path(files@, m@, placed_files(files@, k as int, m@)[i]),
                ),
        decreases files@.len() - k,
    {
        let f = &files[k];
        match m.get(&f.parent_file_reference) {
            Some(parent) => {
                r.push(mft_file(f, parent));
            },
            None => {},
        }
        k += 1;
    }
    r
}

/// The path `m` gives `x`, or `root` when it gives none.
pub open spec fn path_or_root(m: Map<u64, String>, x: u64, root: Seq<char>) -> Seq<char> {
    if m.contains_key(x) { m[x]@ } else { root }
}

/// `r` lists the changes for the directory records in `order`, then for the
/// file records in their own order, each under its parent's path in `m`, or
/// under `root` when the parent has none.
pub open spec fn change_output(
    r: Seq<UsnRecord>,
    dirs: Seq<UsnEntry>,
    order: Seq<usize>,
    files: Seq<UsnEntry>,
    m: Map<u64, String>,
    root: Seq<char>,
) -> bool {
    &&& r.len() == order.len() + files.len()
    &&& forall|i: int|
        0 <= i < order.len() ==> change_dir_record(
            #[trigger] r[i],
            dirs[order[i] as int],
            join_path(path_or_root(m, dirs[order[i] as int].parent_file_reference, root), dirs[order[i] as int].file_name@),
        )
    &&& forall|i: int|
        0 <= i < files.len() ==> change_file_record(
            #[trigger] r[order.len() + i],
            files[i],
            join_path(path_or_root(m, files[i].parent_file_reference, root), files[i].file_name@),
        )
}

fn parent_or_root<'a>(m: &'a HashMap<u64, String>, x: u64, root: &'a String) -> (r: &'a String)
    ensures
        r@ == path_or_root(m@, x, root@),
{
    broadcast use vstd::std_specs::hash::group_hash_axioms;

    match m.get(&x) {
        Some(p) => p,
        None => root,
    }
}

/// The changes of a journal read: directories in `order`, then files.
pub fn change_records(
    dirs: &[UsnEntry],
    order: &[usize],
    files: &[UsnEntry],
    m: &HashMap<u64, String>,
    root: &String,
) -> (r: Vec<UsnRecord>)
    requires
        forall|i: int| 0 <= i < order@.len() ==> order@[i] < dirs@.len(),
    ensures
        change_output(r@, dirs@, order@, files@, m@, root@),
{
    let mut r: Vec<UsnRecord> = Vec::new();
    let mut j: usize = 0;
    while j < order.len()
        invariant
            forall|i: int| 0 <= i < order@.len() ==> order@[i] < dirs@.len(),
            j <= order@.len(),
            r@.len() == j,
            forall|i: int|
                0 <= i < j ==> change_dir_record(
                    #[trigger] r@[i],
                    dirs@[order@[i] as int],
                    join_path(
                        path_or_root(m@, dirs@[order@[i] as int].parent_file_reference, root@),
                        dirs@[order@[i] as int].file_name@,
                    ),
                ),
        decreases order@.len() - j,
    {
        let d = &dirs[order[j]];
        let parent = parent_or_root(m, d.parent_file_reference, root);
        r.push(
            UsnRecord {
                file_reference_number: d.file_reference_number,
                parent_file_reference: d.parent_file_reference,
                file_name: d.file_name.clone(),
                full_path: join_name(parent, &d.file_name),
                file_size: 0,
                last_write_time: 0,
                is_directory: true,
                extension: None,
                reason: UsnChangeReason::Modified,
                usn: d.usn as u64,
            },
        );
        j += 1;
    }
    let nd = r.len();
    let mut k: usize = 0;
    while k < files.len()
        invariant
            k <= files@.len(),
            nd == order@.len(),
            r@.len() == nd + k,
            forall|i: int|
                0 <= i < nd ==> change_dir_record(
                    #[trigger] r@[i],
                    dirs@[order@[i] as int],
                    join_path(
                        path_or_root(m@, dirs@[order@[i] as int].parent_file_reference, root@),
                        dirs@[order@[i] as int].file_name@,
                    ),
                ),
            forall|i: int|
                0 <= i < k ==> change_file_record(
                    #[trigger] r@[nd + i],
                    files@[i],
                    join_path(path_or_root(m@, files@[i].parent_file_reference, root@), files@[i].file_name@),
                ),
        decreases files@.len() - k,
    {
        let f = &files[k];
        let parent = parent_or_root(m, f.parent_file_reference, root);
        r.push(
            UsnRecord {
                file_reference_number: f.file_reference_number,
                parent_file_reference: f.parent_file_reference,
                file_name: f.file_name.clone(),
                full_path: join_name(parent, &f.file_name),
                file_size: 0,
                last_write_time: filetime_to_unix(f.time_stamp),
                is_directory: false,
                extension: lowered_extension(&f.file_name),
                reason: classify_reason(f.reason),
                usn: f.usn as u64,
            },
        );
        k += 1;
    }
    r
}

/// The root path of drive `c`, `C:\\` for `C`.
pub open spec fn drive_root(c: char) -> Seq<char> {
    seq![c, ':', '\\']
}

/// The root path of drive `c`.
pub fn drive_root_path(c: char) -> (r: String)
    ensures
        r@ == drive_root(c),
{
    let mut r = String::new();
    push_char(&mut r, c);
    push_char(&mut r, ':');
    push_char(&mut r, '\\');
    assert(r@ =~= drive_root(c));
    r
}

/// `order` visits every position of `dirs` once, in a stable sort by parent.
pub open spec fn stable_order(dirs: Seq<UsnEntry>, order: Seq<usize>) -> bool {
    &&& order.len() == dirs.len()
    &&& forall|i: int| 0 <= i < order.len() ==> order[i] < dirs.len()
    &&& forall|k: int| 0 <= k < dirs.len() ==> #[trigger] appears(order, k)
    &&& forall|i: int, j: int| 0 <= i < j < order.len() ==> stable_before(dirs, order[i] as int, order[j] as int)
}

/// `m` is a path map for `dirs` under the root references `roots` and the
/// root path `root`: every path accounted for, and every directory within
/// `MAX_PATH_PASSES` levels of a root present.
pub open spec fn path_map_ok(dirs: Seq<UsnEntry>, roots: Set<u64>, root: Seq<char>, m: Map<u64, String>) -> bool {
    &&& forall|x: u64| #[trigger] m.contains_key(x) ==> justified(dirs, roots, root, m, x)
    &&& forall|x: u64| reaches(dirs, roots, x, MAX_PATH_PASSES as nat) ==> #[trigger] m.contains_key(x)
}

/// A full enumeration of drive `drive` from the records of the volume's
/// master file table: metadata names dropped, directory paths rebuilt under
/// the volume roots, and the entries of the directories and files that got a
/// path.  Also returns the path map.
pub fn enumerate_records(entries: Vec<UsnEntry>, drive: char) -> (r: (Vec<UsnRecord>, HashMap<u64, String>))
    ensures
        path_map_ok(
            select(entries@, false, true),
            volume_roots(select(entries@, false, true)),
            drive_root(drive),
            r.1@,
        ),
        exists|order: Seq<usize>|
            stable_order(select(entries@, false, true), order) && mft_output(
                r.0@,
                select(entries@, false, true),
                order,
                select(entries@, false, false),
                r.1@,
            ),
{
    let (dirs, files) = split_entries(entries, false);
    let roots = volume_root_frns(dirs.as_slice());
    assert(roots@.to_set() =~= volume_roots(dirs@));
    let order = parent_order(dirs.as_slice());
    let root = drive_root_path(drive);
    let m = build_dir_paths(dirs.as_slice(), order.as_slice(), roots.as_slice(), &root);
    let records = mft_records(dirs.as_slice(), order.as_slice(), files.as_slice(), &m);
    assert(stable_order(dirs@, order@));
    (records, m)
}

/// The changes of a journal read on drive `drive`: metadata and dot names
/// dropped, directory paths rebuilt under the journal roots, directories in a
/// stable sort by parent, then files in record order; a record whose parent
/// has no path is placed under the drive root.  Also returns the path map.
pub fn journal_changes(entries: Vec<UsnEntry>, drive: char) -> (r: (Vec<UsnRecord>, HashMap<u64, String>))
    ensures
        path_map_ok(
            select(entries@, true, true),
            journal_roots(select(entries@, true, true)),
            drive_root(drive),
            r.1@,
        ),
        exists|order: Seq<usize>|
            stable_order(select(entries@, true, true), order) && change_output(
                r.0@,
                select(entries@, true, true),
                order,
                select(entries@, true, false),
                r.1@,
                drive_root(drive),
            ),
{
    let (dirs, files) = split_entries(entries, true);
    let roots = journal_root_frns(dirs.as_slice());
    assert(roots@.to_set() =~= journal_roots(dirs@));
    let order = parent_order(dirs.as_slice());
    let root = drive_root_path(drive);
    let m = build_dir_paths(dirs.as_slice(), order.as_slice(), roots.as_slice(), &root);
    let records = change_records(dirs.as_slice(), order.as_slice(), files.as_slice(), &m, &root);
    assert(stable_order(dirs@, order@));
    (records, m)
}

/// Where the next enumeration call starts: the reference in the first 8 bytes
/// of the output buffer, unless it is 0 or the current start, which end the
/// enumeration.
pub open spec fn next_start(b: Seq<u8>, current: u64) -> Option<u64> {
    if b.len() < 8 || le64(b, 0) == 0 || le64(b, 0) == current {
        None
    } else {
        Some(le64(b, 0) as u64)
    }
}

/// The start reference of the next enumeration call, if the enumeration goes on.
pub fn next_enum_start(buf: &[u8], current: u64) -> (r: Option<u64>)
    ensures
        r == next_start(buf@, current),
{
    if buf.len() < 8 {
        return None;
    }
    let next = read_u64(buf, 0);
    if next == 0 || next == current {
        None
    } else {
        Some(next)
    }
}

/// The drive letter of a volume path: the fifth character of a `\\.\X:`
/// path of at least 6 bytes (`C` if there is none); unknown (`None`) for a
/// `\\?\Volume{...}` path, which only the system can map; `C` otherwise.
pub open spec fn volume_letter(s: Seq<char>, byte_len: int) -> Option<char> {
    if starts_with(s, seq!['\\', '\\', '.', '\\']) && byte_len >= 6 {
        Some(if s.len() > 4 { s[4] } else { 'C' })
    } else if starts_with(s, seq!['\\', '\\', '?', '\\', 'V', 'o', 'l', 'u', 'm', 'e']) {
        None
    } else {
        Some('C')
    }
}

/// The drive letter of `volume`, where it can be read off the path.
pub fn volume_drive_letter(volume: &str) -> (r: Option<char>)
    ensures
        r == volume_letter(volume@, volume.len() as int),
{
    let cs = chars_of(volume);
    let dev: [char; 4] = ['\\', '\\', '.', '\\'];
    let guid: [char; 10] = ['\\', '\\', '?', '\\', 'V', 'o', 'l', 'u', 'm', 'e'];
    let dev_s = dev.as_slice();
    let guid_s = guid.as_slice();
    assert(dev_s@ =~= seq!['\\', '\\', '.', '\\']);
    assert(guid_s@ =~= seq!['\\', '\\', '?', '\\', 'V', 'o', 'l', 'u', 'm', 'e']);
    if crate::text::has_prefix(cs.as_slice(), dev_s) && volume.len() >= 6 {
        if cs.len() > 4 {
            Some(cs[4])
        } else {
            Some('C')
        }
    } else if crate::text::has_prefix(cs.as_slice(), guid_s) {
        None
    } else {
        Some('C')
    }
}

/// The device path `\\.\X:` of drive `X`, the letter ASCII upper-cased.
pub open spec fn drive_device(drive: char) -> Seq<char> {
    seq!['\\', '\\', '.', '\\', crate::text::ascii_upper(drive), ':']
}

/// The volumes to index when drives were specified: every drive's device
/// path, in order, whatever file system it holds.
pub fn specified_volumes(drives: &[char]) -> (r: Vec<String>)
    ensures
        r@.len() == drives@.len(),
        forall|i: int| 0 <= i < drives@.len() ==> #[trigger] r@[i]@ == drive_device(drives@[i]),
{
    let mut r: Vec<String> = Vec::new();
    let mut i: usize = 0;
    while i < drives.len()
        invariant
            i <= drives@.len(),
            r@.len() == i,
            forall|j: int| 0 <= j < i ==> #[trigger] r@[j]@ == drive_device(drives@[j]),
        decreases drives@.len() - i,
    {
        let mut v = String::new();
        push_char(&mut v, '\\');
        push_char(&mut v, '\\');
        push_char(&mut v, '.');
        push_char(&mut v, '\\');
        push_char(&mut v, crate::text::upper_ascii_char(drives[i]));
        push_char(&mut v, ':');
        assert(v@ =~= drive_device(drives@[i as int]));
        r.push(v);
        i += 1;
    }
    r
}

/// A file-system name buffer names NTFS: decoded whole, trimmed, it equals
/// `NTFS` in any ASCII case.  Unused buffer space decodes to NUL characters,
/// which are kept.
pub open spec fn names_ntfs(buf: Seq<u16>) -> bool {
    crate::text::ascii_lower_seq(trim(utf16_lossy(buf))) == "ntfs"@
}

/// Whether an enumerated volume is indexed: its file-system name buffer
/// names NTFS and it has a drive letter; see `names_ntfs`.
pub fn volume_indexed(fs_name: &[u16], has_drive_letter: bool) -> (r: bool)
    ensures
        r == (names_ntfs(fs_name@) && has_drive_letter),
{
    let decoded = from_utf16_lossy(fs_name);
    let cs = chars_of(decoded.as_str());
    let t = trim_chars(cs.as_slice());
    let l = crate::text::lower_ascii(t.as_slice());
    let n = chars_of("ntfs");
    crate::text::same_chars(l.as_slice(), n.as_slice()) && has_drive_letter
}

/// The position of the first NUL unit of `buf` from `i` on, or its length.
pub open spec fn first_nul(buf: Seq<u16>, i: int) -> int
    decreases buf.len() - i,
{
    if i < 0 || i >= buf.len() {
        buf.len() as int
    } else if buf[i] == 0 {
        i
    } else {
        first_nul(buf, i + 1)
    }
}

/// The drive letter of a volume mount point buffer: its first character,
/// once decoded whole and trimmed, upper-cased when it is an ASCII letter;
/// `C` when there is no mount point or no such letter.
pub open spec fn mount_letter(mount: Option<Seq<u16>>) -> char {
    match mount {
        Some(buf) => {
            let t = trim(utf16_lossy(buf));
            if t.len() > 0 && crate::text::is_ascii_alpha(t[0]) {
                crate::text::ascii_upper(t[0])
            } else {
                'C'
            }
        },
        None => 'C',
    }
}

/// The drive letter of a `\\?\Volume{...}` path from its mount point
/// buffer, `None` when the system gave none; see `mount_letter`.
pub fn mount_point_letter(mount: Option<&[u16]>) -> (r: char)
    ensures
        r == mount_letter(
            match mount {
                Some(b) => Some(b@),
                None => None,
            },
        ),
{
    match mount {
        Some(buf) => {
            let d = from_utf16_lossy(buf);
            let cs = chars_of(d.as_str());
            let t = trim_chars(cs.as_slice());
            if t.len() > 0 && (('a' <= t[0] && t[0] <= 'z') || ('A' <= t[0] && t[0] <= 'Z')) {
                crate::text::upper_ascii_char(t[0])
            } else {
                'C'
            }
        },
        None => 'C',
    }
}

/// The label of a drive: its volume name (up to the first NUL, trimmed)
/// and the upper-cased letter with a colon, as in `Data (D:)`;
/// `本地磁盘 (D:)` when the system gave no name or an empty one.
pub open spec fn drive_label_of(letter: char, name: Option<Seq<u16>>) -> Seq<char> {
    let c = crate::text::ascii_upper(letter);
    match name {
        Some(buf) if trim(utf16_lossy(buf.take(first_nul(buf, 0)))).len() > 0 => trim(
            utf16_lossy(buf.take(first_nul(buf, 0))),
        ) + " ("@ + seq![c, ':'] + ")"@,
        _ => "本地磁盘 ("@ + seq![c, ':'] + ")"@,
    }
}

/// The letter a drive label shows for the volume path `s` of `byte_len`
/// bytes: the upper-cased fifth character of a `\\.\X:` path of at least 6
/// bytes; for a `\\?\Volume{...}` path the letter of its mount point buffer
/// `mount` (see `mount_letter`); `?` for a path that is neither.
pub open spec fn label_letter(s: Seq<char>, byte_len: int, mount: Option<Seq<u16>>) -> char {
    if starts_with(s, seq!['\\', '\\', '.', '\\']) && byte_len >= 6 && s.len() > 4 {
        crate::text::ascii_upper(s[4])
    } else if starts_with(s, seq!['\\', '\\', '?', '\\', 'V', 'o', 'l', 'u', 'm', 'e']) {
        mount_letter(mount)
    } else {
        '?'
    }
}

/// The letter shown in the label of `volume`; see `label_letter`.
pub fn label_drive_letter(volume: &str, mount: Option<&[u16]>) -> (r: char)
    ensures
        r == label_letter(
            volume@,
            volume.len() as int,
            match mount {
                Some(b) => Some(b@),
                None => None,
            },
        ),
{
    let cs = chars_of(volume);
    let dev: [char; 4] = ['\\', '\\', '.', '\\'];
    let guid: [char; 10] = ['\\', '\\', '?', '\\', 'V', 'o', 'l', 'u', 'm', 'e'];
    let dev_s = dev.as_slice();
    let guid_s = guid.as_slice();
    assert(dev_s@ =~= seq!['\\', '\\', '.', '\\']);
    assert(guid_s@ =~= seq!['\\', '\\', '?', '\\', 'V', 'o', 'l', 'u', 'm', 'e']);
    if crate::text::has_prefix(cs.as_slice(), dev_s) && volume.len() >= 6 && cs.len() > 4 {
        crate::text::upper_ascii_char(cs[4])
    } else if crate::text::has_prefix(cs.as_slice(), guid_s) {
        mount_point_letter(mount)
    } else {
        '?'
    }
}

/// The label of the drive with `letter`, from its volume name buffer when
/// the system gave one; see `drive_label_of`.
pub fn drive_label(letter: char, name: Option<&[u16]>) -> (r: String)
    ensures
        r@ == drive_label_of(
            letter,
            match name {
                Some(b) => Some(b@),
                None => None,
            },
        ),
{
    let c = crate::text::upper_ascii_char(letter);
    if let Some(buf) = name {
        let mut n: usize = 0;
        while n < buf.len() && buf[n] != 0
            invariant
                n <= buf@.len(),
                first_nul(buf@, 0) == first_nul(buf@, n as int),
            decreases buf@.len() - n,
        {
            n += 1;
        }
        assert(first_nul(buf@, 0) == n);
        let mut head: Vec<u16> = Vec::new();
        let mut k: usize = 0;
        while k < n
            invariant
                n <= buf@.len(),
                k <= n,
                head@ == buf@.take(k as int),
            decreases n - k,
        {
            head.push(buf[k]);
            assert(buf@.take(k + 1) =~= buf@.take(k as int).push(buf@[k as int]));
            k += 1;
        }
        let d = from_utf16_lossy(head.as_slice());
        let cs = chars_of(d.as_str());
        let t = trim_chars(cs.as_slice());
        if t.len() > 0 {
            let mut r = string_of(t.as_slice());
            crate::text::push_str(&mut r, " (");
            push_char(&mut r, c);
            push_char(&mut r, ':');
            push_char(&mut r, ')');
            proof {
                reveal_strlit(")");
            }
            assert(r@ =~= drive_label_of(letter, Some(buf@)));
            return r;
        }
    }
    let mut r = crate::text::lit("本地磁盘 (");
    push_char(&mut r, c);
    push_char(&mut r, ':');
    push_char(&mut r, ')');
    proof {
        reveal_strlit(")");
    }
    assert(r@ =~= "本地磁盘 ("@ + seq![c, ':'] + ")"@);
    r
}

} // verus!
