//! Registry of the services that the Python side offers.

use vstd::prelude::*;
use crate::pybridge::types::ServiceHandle;
use crate::text::{chars_of, same_chars};

verus! {

/// A service as plain character sequences: name, version, description.
pub type HandleView = (Seq<char>, Seq<char>, Seq<char>);

/// The services of `s` by name, later entries overriding earlier ones.
pub open spec fn handle_map(s: Seq<ServiceHandle>) -> Map<Seq<char>, HandleView>
    decreases s.len(),
{
    if s.len() == 0 {
        Map::empty()
    } else {
        handle_map(s.drop_last()).insert(s.last().name@, s.last().view())
    }
}

/// No two entries of `s` share a name.
pub open spec fn names_distinct(s: Seq<ServiceHandle>) -> bool {
    forall|i: int, j: int| 0 <= i < s.len() && 0 <= j < s.len() && i != j ==> #[trigger] s[i].name@ != #[trigger] s[j].name@
}

proof fn lemma_map_keys(s: Seq<ServiceHandle>, k: Seq<char>)
    ensures
        handle_map(s).contains_key(k) <==> exists|i: int| 0 <= i < s.len() && #[trigger] s[i].name@ == k,
    decreases s.len(),
{
    if s.len() > 0 {
        lemma_map_keys(s.drop_last(), k);
        if exists|i: int| 0 <= i < s.len() && #[trigger] s[i].name@ == k {
            let i = choose|i: int| 0 <= i < s.len() && #[trigger] s[i].name@ == k;
            if i < s.len() - 1 {
                assert(s.drop_last()[i].name@ == k);
            }
        }
        if exists|i: int| 0 <= i < s.drop_last().len() && #[trigger] s.drop_last()[i].name@ == k {
            let i = choose|i: int| 0 <= i < s.drop_last().len() && #[trigger] s.drop_last()[i].name@ == k;
            assert(s[i].name@ == k);
        }
    }
}

proof fn lemma_map_value(s: Seq<ServiceHandle>, i: int)
    requires
        names_distinct(s),
        0 <= i < s.len(),
    ensures
        handle_map(s).contains_key(s[i].name@),
        handle_map(s)[s[i].name@] == s[i].view(),
    decreases s.len(),
{
    lemma_map_keys(s, s[i].name@);
    if i < s.len() - 1 {
        let d = s.drop_last();
        assert(d[i] == s[i]);
        assert(names_distinct(d)) by {
            assert forall|a: int, b: int| 0 <= a < d.len() && 0 <= b < d.len() && a != b implies #[trigger] d[a].name@ != #[trigger] d[b].name@ by {
                assert(d[a] == s[a] && d[b] == s[b]);
            }
        }
        lemma_map_value(d, i);
        assert(s[s.len() - 1].name@ != s[i].name@);
    }
}

proof fn lemma_distinct_drop_last(s: Seq<ServiceHandle>)
    requires
        names_distinct(s),
        s.len() > 0,
    ensures
        names_distinct(s.drop_last()),
{
    let d = s.drop_last();
    assert forall|a: int, b: int| 0 <= a < d.len() && 0 <= b < d.len() && a != b implies #[trigger] d[a].name@ != #[trigger] d[b].name@ by {
        assert(d[a] == s[a] && d[b] == s[b]);
    }
}

proof fn lemma_map_update(s: Seq<ServiceHandle>, i: int, h: ServiceHandle)
    requires
        names_distinct(s),
        0 <= i < s.len(),
        s[i].name@ == h.name@,
    ensures
        handle_map(s.update(i, h)) == handle_map(s).insert(h.name@, h.view()),
    decreases s.len(),
{
    let u = s.update(i, h);
    if i == s.len() - 1 {
        assert(u.drop_last() =~= s.drop_last());
        lemma_distinct_drop_last(s);
        lemma_map_keys(s.drop_last(), h.name@);
        assert(handle_map(u) =~= handle_map(s).insert(h.name@, h.view()));
    } else {
        assert(u.drop_last() =~= s.drop_last().update(i, h));
        lemma_distinct_drop_last(s);
        lemma_map_update(s.drop_last(), i, h);
        assert(s.last().name@ != h.name@);
        assert(handle_map(u) =~= handle_map(s).insert(h.name@, h.view()));
    }
}

proof fn lemma_map_remove(s: Seq<ServiceHandle>, i: int)
    requires
        names_distinct(s),
        0 <= i < s.len(),
    ensures
        handle_map(s.remove(i)) == handle_map(s).remove(s[i].name@),
        names_distinct(s.remove(i)),
    decreases s.len(),
{
    let r = s.remove(i);
    let k = s[i].name@;
    assert forall|a: int, b: int| 0 <= a < r.len() && 0 <= b < r.len() && a != b implies #[trigger] r[a].name@ != #[trigger] r[b].name@ by {
        let a2 = if a < i { a } else { a + 1 };
        let b2 = if b < i { b } else { b + 1 };
        assert(r[a] == s[a2] && r[b] == s[b2]);
    }
    lemma_distinct_drop_last(s);
    if i == s.len() - 1 {
        assert(r =~= s.drop_last());
        lemma_map_keys(s.drop_last(), k);
        assert forall|j: int| 0 <= j < s.drop_last().len() implies #[trigger] s.drop_last()[j].name@ != k by {
            assert(s.drop_last()[j] == s[j]);
        }
        assert(handle_map(r) =~= handle_map(s).remove(k));
    } else {
        assert(r.drop_last() =~= s.drop_last().remove(i));
        assert(r.last() == s.last());
        lemma_map_remove(s.drop_last(), i);
        assert(s.drop_last()[i] == s[i]);
        assert(s.last().name@ != k);
        assert(handle_map(r) =~= handle_map(s).remove(k));
    }
}

/// The services offered on the Python side, by name.
pub struct ServiceRegistry {
    services: Vec<ServiceHandle>,
}

impl View for ServiceRegistry {
    type V = Map<Seq<char>, HandleView>;

    closed spec fn view(&self) -> Map<Seq<char>, HandleView> {
        handle_map(self.services@)
    }
}

impl ServiceRegistry {
    /// Registries keep one entry per name.
    pub closed spec fn wf(&self) -> bool {
        names_distinct(self.services@)
    }

    /// An empty registry.
    pub fn new() -> (r: Self)
        ensures
            r.wf(),
            r@ == Map::<Seq<char>, HandleView>::empty(),
    {
        ServiceRegistry { services: Vec::new() }
    }

    fn position(&self, name: &str) -> (r: Option<usize>)
        requires
            self.wf(),
        ensures
            match r {
                Some(i) => i < self.services@.len() && self.services@[i as int].name@ == name@,
                None => forall|i: int| 0 <= i < self.services@.len() ==> #[trigger] self.services@[i].name@ != name@,
            },
    {
        let n = chars_of(name);
        let mut i: usize = 0;
        while i < self.services.len()
            invariant
                i <= self.services@.len(),
                n@ == name@,
                forall|j: int| 0 <= j < i ==> #[trigger] self.services@[j].name@ != name@,
            decreases self.services@.len() - i,
        {
            let c = chars_of(self.services[i].name.as_str());
            if same_chars(c.as_slice(), n.as_slice()) {
                return Some(i);
            }
            i += 1;
        }
        None
    }

    /// Records `service`, replacing any service of the same name.
    pub fn register(&mut self, service: ServiceHandle)
        requires
            old(self).wf(),
        ensures
            final(self).wf(),
            final(self)@ == old(self)@.insert(service.name@, service.view()),
    {
        match self.position(service.name.as_str()) {
            Some(i) => {
                proof {
                    lemma_map_update(self.services@, i as int, service);
                }
                let ghost old_s = self.services@;
                self.services.set(i, service);
                proof {
                    assert forall|a: int, b: int| 0 <= a < self.services@.len() && 0 <= b < self.services@.len() && a != b implies #[trigger] self.services@[a].name@ != #[trigger] self.services@[b].name@ by {
                        assert(old_s[a].name@ != old_s[b].name@);
                    }
                }
            },
            None => {
                let ghost old_s = self.services@;
                self.services.push(service);
                proof {
                    assert(self.services@.drop_last() =~= old_s);
                    assert forall|a: int, b: int| 0 <= a < self.services@.len() && 0 <= b < self.services@.len() && a != b implies #[trigger] self.services@[a].name@ != #[trigger] self.services@[b].name@ by {
                        if a < old_s.len() && b < old_s.len() {
                            assert(old_s[a].name@ != old_s[b].name@);
                        } else if a < old_s.len() {
                            assert(old_s[a].name@ != service.name@);
                        } else {
                            assert(old_s[b].name@ != service.name@);
                        }
                    }
                }
            },
        }
    }

    /// Forgets the service named `name`, if any.
    pub fn unregister(&mut self, name: &str)
        requires
            old(self).wf(),
        ensures
            final(self).wf(),
            final(self)@ == old(self)@.remove(name@),
    {
        match self.position(name) {
            Some(i) => {
                proof {
                    lemma_map_remove(self.services@, i as int);
                }
                self.services.remove(i);
            },
            None => {
                proof {
                    lemma_map_keys(self.services@, name@);
                    assert(self@ =~= self@.remove(name@));
                }
            },
        }
    }

    /// Whether a service named `name` is recorded.
    pub fn has_service(&self, name: &str) -> (r: bool)
        requires
            self.wf(),
        ensures
            r == self@.contains_key(name@),
    {
        proof {
            lemma_map_keys(self.services@, name@);
        }
        self.position(name).is_some()
    }

    /// The service named `name`, if recorded.
    pub fn get_service(&self, name: &str) -> (r: Option<ServiceHandle>)
        requires
            self.wf(),
        ensures
            match r {
                Some(h) => self@.contains_key(name@) && self@[name@] == h.view(),
                None => !self@.contains_key(name@),
            },
            r matches Some(h) ==> h.name@ == name@,
    {
        proof {
            lemma_map_keys(self.services@, name@);
        }
        match self.position(name) {
            Some(i) => {
                proof {
                    lemma_map_value(self.services@, i as int);
                }
                Some(self.services[i].duplicate())
            },
            None => None,
        }
    }

    /// Every recorded service, each once.
    pub fn list_services(&self) -> (r: Vec<ServiceHandle>)
        requires
            self.wf(),
        ensures
            names_distinct(r@),
            forall|k: Seq<char>| self@.contains_key(k) <==> exists|i: int| 0 <= i < r@.len() && #[trigger] r@[i].name@ == k,
            forall|i: int| 0 <= i < r@.len() ==> self@[#[trigger] r@[i].name@] == r@[i].view(),
            self@.dom().finite(),
            r@.len() == self@.dom().len(),
    {
        proof {
            lemma_map_len(self.services@);
        }
        let mut r: Vec<ServiceHandle> = Vec::new();
        let mut i: usize = 0;
        while i < self.services.len()
            invariant
                self.wf(),
                i <= self.services@.len(),
                r@.len() == i,
                forall|j: int| 0 <= j < i ==> #[trigger] r@[j].view() == self.services@[j].view(),
            decreases self.services@.len() - i,
        {
            r.push(self.services[i].duplicate());
            i += 1;
        }
        proof {
            assert forall|a: int, b: int| 0 <= a < r@.len() && 0 <= b < r@.len() && a != b implies #[trigger] r@[a].name@ != #[trigger] r@[b].name@ by {
                assert(r@[a].view() == self.services@[a].view());
                assert(r@[b].view() == self.services@[b].view());
            }
            assert forall|k: Seq<char>| self@.contains_key(k) <==> exists|i: int| 0 <= i < r@.len() && #[trigger] r@[i].name@ == k by {
                lemma_map_keys(self.services@, k);
                if self@.contains_key(k) {
                    let j = choose|j: int| 0 <= j < self.services@.len() && #[trigger] self.services@[j].name@ == k;
                    assert(r@[j].view() == self.services@[j].view());
                }
                if exists|i: int| 0 <= i < r@.len() && #[trigger] r@[i].name@ == k {
                    let j = choose|j: int| 0 <= j < r@.len() && #[trigger] r@[j].name@ == k;
                    assert(r@[j].view() == self.services@[j].view());
                }
            }
            assert forall|j: int| 0 <= j < r@.len() implies self@[#[trigger] r@[j].name@] == r@[j].view() by {
                assert(r@[j].view() == self.services@[j].view());
                lemma_map_value(self.services@, j);
            }
        }
        r
    }
}

impl Default for ServiceRegistry {
    /// An empty registry.
    fn default() -> (r: Self)
        ensures
            r.wf(),
            r@ == Map::<Seq<char>, HandleView>::empty(),
    {
        ServiceRegistry::new()
    }
}

/// After a service is registered, the registry has it under its name, as
/// registered, and every other name as before.
pub proof fn law_register_then_lookup(m: Map<Seq<char>, HandleView>, h: ServiceHandle, k: Seq<char>)
    ensures
        m.insert(h.name@, h.view()).contains_key(h.name@),
        m.insert(h.name@, h.view())[h.name@] == h.view(),
        k != h.name@ ==> (m.insert(h.name@, h.view()).contains_key(k) == m.contains_key(k)),
        k != h.name@ && m.contains_key(k) ==> m.insert(h.name@, h.view())[k] == m[k],
{
}

proof fn lemma_map_len(s: Seq<ServiceHandle>)
    requires
        names_distinct(s),
    ensures
        handle_map(s).dom().finite(),
        handle_map(s).dom().len() == s.len(),
    decreases s.len(),
{
    if s.len() > 0 {
        let p = s.drop_last();
        assert(names_distinct(p)) by {
            assert forall|i: int, j: int| 0 <= i < p.len() && 0 <= j < p.len() && i != j implies #[trigger] p[i].name@
                != #[trigger] p[j].name@ by {
                assert(p[i] == s[i] && p[j] == s[j]);
            }
        }
        lemma_map_len(p);
        lemma_map_keys(p, s.last().name@);
        assert(!handle_map(p).contains_key(s.last().name@)) by {
            if handle_map(p).contains_key(s.last().name@) {
                let i = choose|i: int| 0 <= i < p.len() && #[trigger] p[i].name@ == s.last().name@;
                assert(s[i].name@ != s[s.len() - 1].name@);
            }
        }
        assert(handle_map(s).dom() == handle_map(p).dom().insert(s.last().name@));
    }
}

/// Registering a service adds one to the number of services exactly when
/// its name was not registered before.
pub proof fn law_register_count(m: Map<Seq<char>, HandleView>, h: ServiceHandle)
    requires
        m.dom().finite(),
    ensures
        m.insert(h.name@, h.view()).dom().len() == m.dom().len() + (if m.contains_key(h.name@) { 0int } else { 1int }),
{
    if m.contains_key(h.name@) {
        assert(m.insert(h.name@, h.view()).dom() =~= m.dom());
    } else {
        assert(m.insert(h.name@, h.view()).dom() =~= m.dom().insert(h.name@));
    }
}

proof fn lemma_keys_are_names(s: Seq<ServiceHandle>, k: Seq<char>)
    ensures
        handle_map(s).contains_key(k) ==> handle_map(s)[k].0 == k,
    decreases s.len(),
{
    if s.len() > 0 {
        lemma_keys_are_names(s.drop_last(), k);
    }
}

/// Every service is stored under its own name: what a name maps to is a
/// service of that name.
pub proof fn law_stored_under_own_name(reg: ServiceRegistry, k: Seq<char>)
    ensures
        reg@.contains_key(k) ==> reg@[k].0 == k,
{
    lemma_keys_are_names(reg.services@, k);
}

/// After a name is unregistered the registry no longer has it, and every
/// other name is as before.
pub proof fn law_unregister_removes(m: Map<Seq<char>, HandleView>, name: Seq<char>, k: Seq<char>)
    ensures
        !m.remove(name).contains_key(name),
        k != name ==> (m.remove(name).contains_key(k) == m.contains_key(k)),
        k != name && m.contains_key(k) ==> m.remove(name)[k] == m[k],
{
}

} // verus!
