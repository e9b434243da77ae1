//! Properties: the ordered attribute bag that names and describes one
//! registered resource.

use crate::text::str_eq;
use vstd::prelude::*;
use vstd::string::*;

verus! {

/// Key of the attribute that holds the name a provider was started under.
pub const PROVIDER_NAME: &'static str = "boardswarm.provider.name";

/// Key of the attribute that holds the kind of provider behind a resource.
pub const PROVIDER: &'static str = "boardswarm.provider";

/// Mathematical model of [`Properties`]: a name and the attributes in the
/// order in which their keys were first inserted.
pub struct PropertiesView {
    pub name: Seq<char>,
    pub entries: Seq<(Seq<char>, Seq<char>)>,
}

impl PropertiesView {
    /// The model of a freshly made bag: a name and no attributes.
    pub open spec fn named(name: Seq<char>) -> PropertiesView {
        PropertiesView { name, entries: Seq::empty() }
    }

    /// No key occurs twice.
    pub open spec fn wf(self) -> bool {
        forall|i: int, j: int|
            0 <= i < j < self.entries.len() ==> (#[trigger] self.entries[i]).0 != (
            #[trigger] self.entries[j]).0
    }

    /// Whether `key` is the key of the attribute at position `i`.
    pub open spec fn key_at(self, key: Seq<char>, i: int) -> bool {
        0 <= i < self.entries.len() && self.entries[i].0 == key
    }

    /// Whether some attribute has this key.
    pub open spec fn contains_key(self, key: Seq<char>) -> bool {
        exists|i: int| self.key_at(key, i)
    }

    /// A position that holds `key`; the only one in a well-formed bag.
    pub open spec fn position(self, key: Seq<char>) -> int {
        choose|i: int| self.key_at(key, i)
    }

    /// The value stored under `key`, if any.
    pub open spec fn get(self, key: Seq<char>) -> Option<Seq<char>> {
        if self.contains_key(key) {
            Some(self.entries[self.position(key)].1)
        } else {
            None
        }
    }

    /// The bag after storing `value` under `key`: an existing key keeps its
    /// position and takes the new value, a new key goes to the end.
    pub open spec fn insert(self, key: Seq<char>, value: Seq<char>) -> PropertiesView {
        if self.contains_key(key) {
            PropertiesView {
                name: self.name,
                entries: self.entries.update(self.position(key), (key, value)),
            }
        } else {
            PropertiesView { name: self.name, entries: self.entries.push((key, value)) }
        }
    }

    /// The bag after inserting every pair of `pairs`, first to last.
    pub open spec fn extend(self, pairs: Seq<(Seq<char>, Seq<char>)>) -> PropertiesView
        decreases pairs.len(),
    {
        if pairs.len() == 0 {
            self
        } else {
            self.extend(pairs.drop_last()).insert(pairs.last().0, pairs.last().1)
        }
    }
}

/// In a well-formed bag a key sits at one position only.
pub proof fn lemma_position_unique(p: PropertiesView, key: Seq<char>, i: int)
    requires
        p.wf(),
        p.key_at(key, i),
    ensures
        p.contains_key(key),
        p.position(key) == i,
        p.get(key) == Some(p.entries[i].1),
{
    let j = p.position(key);
    assert(p.key_at(key, j));
    if i < j {
        assert(p.entries[i].0 != p.entries[j].0);
    } else if j < i {
        assert(p.entries[j].0 != p.entries[i].0);
    }
}

/// Inserting keeps the bag well formed, keeps the name, makes the key
/// readable with the new value, and leaves every other key as it was.
pub proof fn lemma_insert(p: PropertiesView, key: Seq<char>, value: Seq<char>)
    requires
        p.wf(),
    ensures
        p.insert(key, value).wf(),
        p.insert(key, value).name == p.name,
        p.insert(key, value).get(key) == Some(value),
        forall|other: Seq<char>|
            other != key ==> #[trigger] p.insert(key, value).get(other) == p.get(other),
        p.contains_key(key) ==> p.insert(key, value).entries.len() == p.entries.len(),
        !p.contains_key(key) ==> p.insert(key, value).entries.len() == p.entries.len() + 1,
{
    let q = p.insert(key, value);
    if p.contains_key(key) {
        let at = p.position(key);
        assert(p.key_at(key, at));
        assert forall|i: int, j: int| 0 <= i < j < q.entries.len() implies (
        #[trigger] q.entries[i]).0 != (#[trigger] q.entries[j]).0 by {
            assert(p.entries[i].0 != p.entries[j].0);
        }
        assert(q.key_at(key, at));
        lemma_position_unique(q, key, at);
        assert forall|other: Seq<char>| other != key implies #[trigger] q.get(other) == p.get(
            other,
        ) by {
            if p.contains_key(other) {
                let k = p.position(other);
                assert(p.key_at(other, k));
                assert(q.key_at(other, k));
                lemma_position_unique(q, other, k);
            } else if q.contains_key(other) {
                let k = q.position(other);
                assert(q.key_at(other, k));
                assert(p.key_at(other, k));
            }
        }
    } else {
        let at = p.entries.len() as int;
        assert forall|i: int, j: int| 0 <= i < j < q.entries.len() implies (
        #[trigger] q.entries[i]).0 != (#[trigger] q.entries[j]).0 by {
            if j == at {
                assert(!p.key_at(key, i));
            } else {
                assert(p.entries[i].0 != p.entries[j].0);
            }
        }
        assert(q.key_at(key, at));
        lemma_position_unique(q, key, at);
        assert forall|other: Seq<char>| other != key implies #[trigger] q.get(other) == p.get(
            other,
        ) by {
            if p.contains_key(other) {
                let k = p.position(other);
                assert(p.key_at(other, k));
                assert(q.key_at(other, k));
                lemma_position_unique(q, other, k);
            } else if q.contains_key(other) {
                let k = q.position(other);
                assert(q.key_at(other, k));
                assert(p.key_at(other, k));
            }
        }
    }
}

/// Extending keeps the bag well formed and keeps its name.
pub proof fn lemma_extend(p: PropertiesView, pairs: Seq<(Seq<char>, Seq<char>)>)
    requires
        p.wf(),
    ensures
        p.extend(pairs).wf(),
        p.extend(pairs).name == p.name,
    decreases pairs.len(),
{
    if pairs.len() > 0 {
        lemma_extend(p, pairs.drop_last());
        lemma_insert(p.extend(pairs.drop_last()), pairs.last().0, pairs.last().1);
    }
}

/// An ordered bag of string attributes under a name. Keys are unique and
/// stay in the order in which they were first inserted: every bag that this
/// module hands out satisfies `wf` of its view.
pub struct Properties {
    name: String,
    entries: Vec<(String, String)>,
}

impl View for Properties {
    type V = PropertiesView;

    closed spec fn view(&self) -> PropertiesView {
        PropertiesView {
            name: self.name@,
            entries: Seq::new(
                self.entries@.len(),
                |i: int| (self.entries@[i].0@, self.entries@[i].1@),
            ),
        }
    }
}

impl Properties {
    /// A bag with the given name and no attributes.
    pub fn new(name: String) -> (p: Properties)
        ensures
            p@ == PropertiesView::named(name@),
            p@.wf(),
    {
        let p = Properties { name, entries: Vec::new() };
        assert(p@.entries =~= Seq::empty());
        p
    }

    /// The resource's name.
    pub fn name(&self) -> (n: &str)
        ensures
            n@ == self@.name,
    {
        self.name.as_str()
    }

    /// The number of attributes.
    pub fn len(&self) -> (n: usize)
        ensures
            n == self@.entries.len(),
    {
        self.entries.len()
    }

    /// The key and value at position `i` in insertion order.
    pub fn entry(&self, i: usize) -> (e: Option<(&str, &str)>)
        ensures
            match e {
                Some((k, v)) => i < self@.entries.len() && (k@, v@) == self@.entries[i as int],
                None => i >= self@.entries.len(),
            },
    {
        if i < self.entries.len() {
            Some((self.entries[i].0.as_str(), self.entries[i].1.as_str()))
        } else {
            None
        }
    }

    /// The position of `key`, if it is present.
    fn find(&self, key: &str) -> (r: Option<usize>)
        ensures
            match r {
                Some(i) => self@.key_at(key@, i as int),
                None => !self@.contains_key(key@),
            },
    {
        let mut i: usize = 0;
        while i < self.entries.len()
            invariant
                i <= self.entries.len(),
                forall|k: int| 0 <= k < i ==> !self@.key_at(key@, k),
            decreases self.entries.len() - i,
        {
            if str_eq(self.entries[i].0.as_str(), key) {
                return Some(i);
            }
            i = i + 1;
        }
        None
    }

    /// The value stored under `key`, if any.
    pub fn get(&self, key: &str) -> (r: Option<&str>)
        requires
            self@.wf(),
        ensures
            match r {
                Some(v) => self@.get(key@) == Some(v@),
                None => self@.get(key@) is None,
            },
    {
        match self.find(key) {
            Some(i) => {
                proof {
                    lemma_position_unique(self@, key@, i as int);
                }
                Some(self.entries[i].1.as_str())
            },
            None => None,
        }
    }

    /// Stores `value` under `key`. A key that is already present keeps its
    /// place in the order and takes the new value; a new key goes last.
    pub fn insert(&mut self, key: &str, value: &str)
        requires
            old(self)@.wf(),
        ensures
            final(self)@ == old(self)@.insert(key@, value@),
            final(self)@.wf(),
    {
        proof {
            lemma_insert(self@, key@, value@);
        }
        let found = self.find(key);
        let pair = (String::from_str(key), String::from_str(value));
        match found {
            Some(i) => {
                proof {
                    lemma_position_unique(self@, key@, i as int);
                }
                self.entries.set(i, pair);
            },
            None => {
                self.entries.push(pair);
            },
        }
        assert(self@.entries =~= old(self)@.insert(key@, value@).entries);
    }

    /// Inserts every pair of `pairs`, first to last.
    pub fn extend(&mut self, pairs: &[(&str, &str)])
        requires
            old(self)@.wf(),
        ensures
            final(self)@ == old(self)@.extend(pairs_view(pairs@)),
            final(self)@.wf(),
    {
        let mut i: usize = 0;
        assert(pairs_view(pairs@).take(0) =~= Seq::empty());
        while i < pairs.len()
            invariant
                i <= pairs.len(),
                self@.wf(),
                self@ == old(self)@.extend(pairs_view(pairs@).take(i as int)),
            decreases pairs.len() - i,
        {
            let (k, v) = pairs[i];
            self.insert(k, v);
            proof {
                let all = pairs_view(pairs@);
                assert(all.take(i + 1).drop_last() =~= all.take(i as int));
                assert(all.take(i + 1).last() == (k@, v@));
            }
            i = i + 1;
        }
        assert(pairs_view(pairs@).take(i as int) =~= pairs_view(pairs@));
    }
}

/// The model of a slice of key-value pairs.
pub open spec fn pairs_view(pairs: Seq<(&str, &str)>) -> Seq<(Seq<char>, Seq<char>)> {
    Seq::new(pairs.len(), |i: int| (pairs[i].0@, pairs[i].1@))
}

} // verus!
