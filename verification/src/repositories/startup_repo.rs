//! Where the startup entries are kept.

use vstd::prelude::*;
use crate::error::AppError;
use crate::models::startup::{same_item, same_items, StartupItem};
use crate::text::same_str;

verus! {

/// The first position, from `from` on, of an entry of `s` with the
/// identifier `id`.
pub open spec fn find_id(s: Seq<StartupItem>, id: Seq<char>, from: int) -> Option<int>
    decreases s.len() - from,
{
    if from < 0 || from >= s.len() {
        None
    } else if s[from].id@ == id {
        Some(from)
    } else {
        find_id(s, id, from + 1)
    }
}

/// An entry is enabled.
pub open spec fn is_enabled() -> spec_fn(StartupItem) -> bool {
    |i: StartupItem| i.enabled
}

/// An entry's identifier is not `id`.
pub open spec fn id_other_than(id: Seq<char>) -> spec_fn(StartupItem) -> bool {
    |i: StartupItem| i.id@ != id
}

/// A store of the startup entries.
pub trait StartupRepo {
    /// All entries, in order.
    fn list(&self) -> Vec<StartupItem>;

    /// The enabled entries, in order.
    fn list_enabled(&self) -> Vec<StartupItem>;

    /// Adds an entry at the end.
    fn add(&mut self, item: StartupItem) -> Result<(), AppError>;

    /// Replaces the first entry with the identifier `id` by `item`.
    fn update(&mut self, id: &str, item: &StartupItem) -> Result<(), AppError>;

    /// Removes every entry with the identifier `id`.
    fn remove(&mut self, id: &str) -> Result<(), AppError>;

    /// Replaces all entries.
    fn replace(&mut self, items: Vec<StartupItem>);
}

/// Startup entries kept in memory.
pub struct InMemoryStartupRepo {
    items: Vec<StartupItem>,
}

impl InMemoryStartupRepo {
    /// The entries held, in order.
    pub closed spec fn items(&self) -> Seq<StartupItem> {
        self.items@
    }

    /// An empty store.
    pub fn new() -> (r: Self)
        ensures
            r.items() == Seq::<StartupItem>::empty(),
    {
        InMemoryStartupRepo { items: Vec::new() }
    }
}

impl Default for InMemoryStartupRepo {
    /// An empty store.
    fn default() -> (r: Self)
        ensures
            r.items() == Seq::<StartupItem>::empty(),
    {
        InMemoryStartupRepo::new()
    }
}

fn copy_all(s: &[StartupItem]) -> (r: Vec<StartupItem>)
    ensures
        same_items(s@, r@),
{
    let mut r: Vec<StartupItem> = Vec::new();
    let mut i: usize = 0;
    while i < s.len()
        invariant
            i <= s@.len(),
            r@.len() == i,
            forall|j: int| 0 <= j < i ==> #[trigger] same_item(s@[j], r@[j]),
        decreases s@.len() - i,
    {
        r.push(s[i].duplicate());
        i += 1;
    }
    r
}

fn copy_enabled(s: &[StartupItem]) -> (r: Vec<StartupItem>)
    ensures
        same_items(s@.filter(is_enabled()), r@),
{
    let mut r: Vec<StartupItem> = Vec::new();
    let mut i: usize = 0;
    proof {
        reveal(Seq::filter);
        assert(s@.take(0) =~= Seq::<StartupItem>::empty());
    }
    while i < s.len()
        invariant
            i <= s@.len(),
            same_items(s@.take(i as int).filter(is_enabled()), r@),
        decreases s@.len() - i,
    {
        let ghost before = r@;
        let ghost t = s@.take(i + 1);
        proof {
            assert(t.drop_last() =~= s@.take(i as int));
            assert(t.last() == s@[i as int]);
            reveal(Seq::filter);
        }
        if s[i].enabled {
            r.push(s[i].duplicate());
            proof {
                let f = t.filter(is_enabled());
                assert(f == s@.take(i as int).filter(is_enabled()).push(s@[i as int]));
                assert forall|j: int| 0 <= j < r@.len() implies #[trigger] same_item(f[j], r@[j]) by {
                    if j < before.len() {
                        assert(r@[j] == before[j]);
                    }
                }
            }
        }
        i += 1;
    }
    assert(s@.take(s@.len() as int) =~= s@);
    r
}

impl StartupRepo for InMemoryStartupRepo {
    /// Copies of all entries, in order.
    fn list(&self) -> (r: Vec<StartupItem>)
        ensures
            same_items(self.items(), r@),
    {
        copy_all(self.items.as_slice())
    }

    /// Copies of the enabled entries, in order.
    fn list_enabled(&self) -> (r: Vec<StartupItem>)
        ensures
            same_items(self.items().filter(is_enabled()), r@),
    {
        copy_enabled(self.items.as_slice())
    }

    /// Adds `item` at the end; never fails.
    fn add(&mut self, item: StartupItem) -> (r: Result<(), AppError>)
        ensures
            r is Ok,
            final(self).items() == old(self).items().push(item),
    {
        self.items.push(item);
        Ok(())
    }

    /// Puts a copy of `item` in place of the first entry with the identifier
    /// `id`; without such an entry nothing changes.  Never fails.
    fn update(&mut self, id: &str, item: &StartupItem) -> (r: Result<(), AppError>)
        ensures
            r is Ok,
            match find_id(old(self).items(), id@, 0) {
                Some(k) => {
                    &&& final(self).items().len() == old(self).items().len()
                    &&& same_item(*item, final(self).items()[k])
                    &&& forall|j: int|
                        0 <= j < old(self).items().len() && j != k ==> final(self).items()[j]
                            == old(self).items()[j]
                },
                None => final(self).items() == old(self).items(),
            },
    {
        let mut i: usize = 0;
        while i < self.items.len()
            invariant
                i <= self.items@.len(),
                self.items@ == old(self).items@,
                find_id(self.items@, id@, 0) == find_id(self.items@, id@, i as int),
            decreases self.items@.len() - i,
        {
            if same_str(self.items[i].id.as_str(), id) {
                let copy = item.duplicate();
                self.items.set(i, copy);
                return Ok(());
            }
            i += 1;
        }
        Ok(())
    }

    /// Removes every entry with the identifier `id`, keeping the order of the
    /// rest; never fails.
    fn remove(&mut self, id: &str) -> (r: Result<(), AppError>)
        ensures
            r is Ok,
            final(self).items() == old(self).items().filter(id_other_than(id@)),
    {
        let mut kept: Vec<StartupItem> = Vec::new();
        let mut all: Vec<StartupItem> = Vec::new();
        std::mem::swap(&mut all, &mut self.items);
        let ghost orig = all@;
        let ghost mut k: int = 0;
        assert(orig.take(0) =~= Seq::<StartupItem>::empty());
        proof {
            reveal(Seq::filter);
        }
        while all.len() > 0
            invariant
                0 <= k <= orig.len(),
                all@ == orig.skip(k),
                kept@ == orig.take(k).filter(id_other_than(id@)),
            decreases all@.len(),
        {
            let e = all.remove(0);
            proof {
                assert(e == orig[k]);
                assert(orig.take(k + 1).drop_last() =~= orig.take(k));
                assert(orig.skip(k + 1) =~= orig.skip(k).drop_first());
                reveal(Seq::filter);
                k = k + 1;
            }
            if !same_str(e.id.as_str(), id) {
                kept.push(e);
            }
        }
        assert(orig.take(k) =~= orig);
        self.items = kept;
        Ok(())
    }

    /// Holds `items` from now on.
    fn replace(&mut self, items: Vec<StartupItem>)
        ensures
            final(self).items() == items@,
    {
        self.items = items;
    }
}

} // verus!
