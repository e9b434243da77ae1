//! The registry: the catalog that binds the properties of each resource to
//! the capability that operates it, under a resource id of its own.

use crate::error::RegistryError;
use crate::properties::{Properties, PropertiesView};
use crate::text::str_eq;
use vstd::prelude::*;

verus! {

/// Mathematical model of a [`Registry`]: the registrations in the order in
/// which they were made. The resource id of a registration is its position.
pub struct RegistryView<T> {
    pub entries: Seq<(PropertiesView, T)>,
}

impl<T> RegistryView<T> {
    /// The registry that holds nothing.
    pub open spec fn empty() -> RegistryView<T> {
        RegistryView { entries: Seq::empty() }
    }

    /// Every registration has well-formed properties, and no two share a name.
    pub open spec fn wf(self) -> bool {
        &&& forall|i: int| 0 <= i < self.entries.len() ==> (#[trigger] self.entries[i]).0.wf()
        &&& forall|i: int, j: int|
            0 <= i < j < self.entries.len() ==> (#[trigger] self.entries[i]).0.name != (
            #[trigger] self.entries[j]).0.name
    }

    /// Whether the registration with id `i` carries this name.
    pub open spec fn name_at(self, name: Seq<char>, i: int) -> bool {
        0 <= i < self.entries.len() && self.entries[i].0.name == name
    }

    /// Whether a resource of this name is registered.
    pub open spec fn has_name(self, name: Seq<char>) -> bool {
        exists|i: int| self.name_at(name, i)
    }

    /// The id under which `name` is registered, if it is.
    pub open spec fn find(self, name: Seq<char>) -> Option<u64> {
        if self.has_name(name) {
            Some((choose|i: int| self.name_at(name, i)) as u64)
        } else {
            None
        }
    }

    /// What registering `properties` answers: a conflict if the name is
    /// taken, else the next free id.
    pub open spec fn outcome(self, properties: PropertiesView) -> Result<u64, RegistryError> {
        if self.has_name(properties.name) {
            Err(RegistryError::Conflict)
        } else {
            Ok(self.entries.len() as u64)
        }
    }

    /// The registry after an attempt to register: unchanged on a conflict,
    /// else with the new registration at the end.
    pub open spec fn register(self, properties: PropertiesView, item: T) -> RegistryView<T> {
        if self.has_name(properties.name) {
            self
        } else {
            RegistryView { entries: self.entries.push((properties, item)) }
        }
    }

    /// The registration with the given id, if there is one.
    pub open spec fn lookup(self, id: u64) -> Option<(PropertiesView, T)> {
        if id < self.entries.len() {
            Some(self.entries[id as int])
        } else {
            None
        }
    }
}

/// In a well-formed registry a name is registered under one id only.
pub proof fn lemma_find_unique<T>(r: RegistryView<T>, name: Seq<char>, i: int)
    requires
        r.wf(),
        r.entries.len() <= u64::MAX,
        r.name_at(name, i),
    ensures
        r.find(name) == Some(i as u64),
{
    let j = choose|j: int| r.name_at(name, j);
    assert(r.name_at(name, j));
    if i < j {
        assert(r.entries[i].0.name != r.entries[j].0.name);
    } else if j < i {
        assert(r.entries[j].0.name != r.entries[i].0.name);
    }
}

/// An attempt to register keeps the registry well formed and keeps every
/// earlier registration under its id.
pub proof fn lemma_register_preserves<T>(r: RegistryView<T>, properties: PropertiesView, item: T)
    requires
        r.wf(),
        properties.wf(),
    ensures
        r.register(properties, item).wf(),
        r.register(properties, item).entries.len() >= r.entries.len(),
        forall|i: int|
            0 <= i < r.entries.len() ==> #[trigger] r.register(properties, item).entries[i]
                == r.entries[i],
{
    let q = r.register(properties, item);
    if !r.has_name(properties.name) {
        let at = r.entries.len() as int;
        assert forall|i: int, j: int| 0 <= i < j < q.entries.len() implies (
        #[trigger] q.entries[i]).0.name != (#[trigger] q.entries[j]).0.name by {
            if j == at {
                assert(!r.name_at(properties.name, i));
            } else {
                assert(r.entries[i].0.name != r.entries[j].0.name);
            }
        }
        assert forall|i: int| 0 <= i < q.entries.len() implies (#[trigger] q.entries[i]).0.wf() by {
            if i < at {
                assert(r.entries[i].0.wf());
            }
        }
    }
}

/// Two resources with different names, neither of them registered yet, both
/// register; they get different ids, and each id leads to the resource that
/// was registered under it and to no other.
pub proof fn lemma_distinct_names_distinct_ids<T>(
    r: RegistryView<T>,
    p1: PropertiesView,
    item1: T,
    p2: PropertiesView,
    item2: T,
)
    requires
        r.wf(),
        r.entries.len() + 2 <= u64::MAX,
        p1.wf(),
        p2.wf(),
        p1.name != p2.name,
        !r.has_name(p1.name),
        !r.has_name(p2.name),
    ensures
        ({
            let r1 = r.register(p1, item1);
            let r2 = r1.register(p2, item2);
            &&& r.outcome(p1) is Ok
            &&& r1.outcome(p2) is Ok
            &&& r.outcome(p1)->Ok_0 != r1.outcome(p2)->Ok_0
            &&& r2.wf()
            &&& r2.lookup(r.outcome(p1)->Ok_0) == Some((p1, item1))
            &&& r2.lookup(r1.outcome(p2)->Ok_0) == Some((p2, item2))
            &&& r2.find(p1.name) == Some(r.outcome(p1)->Ok_0)
            &&& r2.find(p2.name) == Some(r1.outcome(p2)->Ok_0)
        }),
{
    let r1 = r.register(p1, item1);
    lemma_register_preserves(r, p1, item1);
    assert(!r1.has_name(p2.name)) by {
        if r1.has_name(p2.name) {
            let k = choose|k: int| r1.name_at(p2.name, k);
            assert(r1.name_at(p2.name, k));
            if k < r.entries.len() {
                assert(r.name_at(p2.name, k));
            }
        }
    }
    let r2 = r1.register(p2, item2);
    lemma_register_preserves(r1, p2, item2);
    let id1 = r.entries.len() as int;
    let id2 = id1 + 1;
    assert(r2.name_at(p1.name, id1));
    assert(r2.name_at(p2.name, id2));
    lemma_find_unique(r2, p1.name, id1);
    lemma_find_unique(r2, p2.name, id2);
}

/// Registering under a name that is taken is refused as a conflict and
/// changes nothing, whatever else the properties say.
pub proof fn lemma_same_name_conflicts<T>(
    r: RegistryView<T>,
    p1: PropertiesView,
    item1: T,
    p2: PropertiesView,
    item2: T,
)
    requires
        r.wf(),
        p1.wf(),
        p1.name == p2.name,
    ensures
        r.register(p1, item1).outcome(p2) == Err::<u64, RegistryError>(RegistryError::Conflict),
        r.register(p1, item1).register(p2, item2) == r.register(p1, item1),
{
    let r1 = r.register(p1, item1);
    if r.has_name(p1.name) {
        assert(r1 == r);
    } else {
        assert(r1.name_at(p1.name, r.entries.len() as int));
    }
}

/// The catalog of registered resources of one capability kind.
///
/// Registrations are never reordered, so a resource id stays valid, and keeps
/// meaning the same resource, for as long as the registry lives. Every
/// registry that this module hands out satisfies `wf` of its view.
pub struct Registry<T> {
    entries: Vec<(Properties, T)>,
}

impl<T> View for Registry<T> {
    type V = RegistryView<T>;

    closed spec fn view(&self) -> RegistryView<T> {
        RegistryView {
            entries: Seq::new(
                self.entries@.len(),
                |i: int| (self.entries@[i].0@, self.entries@[i].1),
            ),
        }
    }
}

impl<T> Registry<T> {
    /// A registry that holds nothing.
    pub fn new() -> (r: Registry<T>)
        ensures
            r@ == RegistryView::<T>::empty(),
            r@.wf(),
    {
        let r = Registry { entries: Vec::new() };
        assert(r@.entries =~= Seq::empty());
        r
    }

    /// The number of registrations, which is also the next free id.
    pub fn len(&self) -> (n: usize)
        ensures
            n == self@.entries.len(),
    {
        self.entries.len()
    }

    /// The id under which `name` is registered, if it is.
    pub fn find(&self, name: &str) -> (r: Option<u64>)
        requires
            self@.wf(),
        ensures
            r == self@.find(name@),
    {
        let mut i: usize = 0;
        while i < self.entries.len()
            invariant
                i <= self.entries.len(),
                self@.wf(),
                self.entries.len() == self@.entries.len(),
                forall|k: int| 0 <= k < i ==> !self@.name_at(name@, k),
            decreases self.entries.len() - i,
        {
            if str_eq(self.entries[i].0.name(), name) {
                proof {
                    assert(self@.name_at(name@, i as int));
                    lemma_find_unique(self@, name@, i as int);
                }
                return Some(i as u64);
            }
            i = i + 1;
        }
        None
    }

    /// Registers a resource. A name that is already registered is refused
    /// as a conflict and the registry stays as it was; otherwise the resource
    /// gets the next free id.
    pub fn register(&mut self, properties: Properties, item: T) -> (r: Result<u64, RegistryError>)
        requires
            old(self)@.wf(),
            properties@.wf(),
        ensures
            r == old(self)@.outcome(properties@),
            final(self)@ == old(self)@.register(properties@, item),
            final(self)@.wf(),
    {
        proof {
            lemma_register_preserves(self@, properties@, item);
        }
        match self.find(properties.name()) {
            Some(_) => Err(RegistryError::Conflict),
            None => {
                let id = self.entries.len() as u64;
                self.entries.push((properties, item));
                assert(self@.entries =~= old(self)@.register(properties@, item).entries);
                Ok(id)
            },
        }
    }

    /// The capability registered under `id`, if there is one.
    pub fn lookup(&self, id: u64) -> (r: Option<&T>)
        ensures
            match r {
                Some(item) => self@.lookup(id) is Some && self@.lookup(id)->Some_0.1 == *item,
                None => self@.lookup(id) is None,
            },
    {
        if id < self.entries.len() as u64 {
            Some(&self.entries[id as usize].1)
        } else {
            None
        }
    }

    /// The properties registered under `id`, if there are any.
    pub fn properties(&self, id: u64) -> (r: Option<&Properties>)
        ensures
            match r {
                Some(p) => self@.lookup(id) is Some && self@.lookup(id)->Some_0.0 == p@,
                None => self@.lookup(id) is None,
            },
    {
        if id < self.entries.len() as u64 {
            Some(&self.entries[id as usize].0)
        } else {
            None
        }
    }

    /// Withdraws the newest registrations until `len` are left; a registry
    /// that holds no more than `len` stays as it is. The registrations that
    /// remain keep their ids.
    pub fn truncate(&mut self, len: usize)
        requires
            old(self)@.wf(),
        ensures
            final(self)@.wf(),
            len <= old(self)@.entries.len() ==> final(self)@.entries == old(self)@.entries.take(
                len as int,
            ),
            len > old(self)@.entries.len() ==> final(self)@ == old(self)@,
    {
        self.entries.truncate(len);
        proof {
            if len <= old(self)@.entries.len() {
                assert(self@.entries =~= old(self)@.entries.take(len as int));
                assert forall|i: int, j: int| 0 <= i < j < self@.entries.len() implies (
                #[trigger] self@.entries[i]).0.name != (#[trigger] self@.entries[j]).0.name by {
                    assert(old(self)@.entries[i].0.name != old(self)@.entries[j].0.name);
                }
                assert forall|i: int| 0 <= i < self@.entries.len() implies (
                #[trigger] self@.entries[i]).0.wf() by {
                    assert(old(self)@.entries[i].0.wf());
                }
            } else {
                assert(self@.entries =~= old(self)@.entries);
            }
        }
    }
}

} // verus!
