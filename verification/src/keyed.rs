//! An association list that stands for a finite map.

use vstd::prelude::*;

verus! {

/// Keys that a [`KeyedList`] can compare and copy.
pub trait ListKey: View + Sized {
    /// Whether two keys have the same view.
    fn same_key(&self, other: &Self) -> (same: bool)
        ensures
            same == (self@ == other@),
    ;

    /// A key with the same view.
    fn copy_key(&self) -> (copy: Self)
        ensures
            copy@ == self@,
    ;
}

impl ListKey for u64 {
    fn same_key(&self, other: &Self) -> (same: bool) {
        *self == *other
    }

    fn copy_key(&self) -> (copy: Self) {
        *self
    }
}

impl ListKey for usize {
    fn same_key(&self, other: &Self) -> (same: bool) {
        *self == *other
    }

    fn copy_key(&self) -> (copy: Self) {
        *self
    }
}

impl ListKey for i32 {
    fn same_key(&self, other: &Self) -> (same: bool) {
        *self == *other
    }

    fn copy_key(&self) -> (copy: Self) {
        *self
    }
}

impl ListKey for String {
    fn same_key(&self, other: &Self) -> (same: bool) {
        *self == *other
    }

    fn copy_key(&self) -> (copy: Self) {
        self.clone()
    }
}

impl ListKey for Vec<u8> {
    fn same_key(&self, other: &Self) -> (same: bool) {
        if self.len() != other.len() {
            return false;
        }
        let mut i: usize = 0;
        while i < self.len()
            invariant
                i <= self@.len(),
                self@.len() == other@.len(),
                forall|j: int| 0 <= j < i ==> self@[j] == other@[j],
            decreases self@.len() - i,
        {
            if self[i] != other[i] {
                return false;
            }
            i += 1;
        }
        assert(self@ =~= other@);
        true
    }

    fn copy_key(&self) -> (copy: Self) {
        let mut copy: Vec<u8> = Vec::new();
        copy.extend_from_slice(self.as_slice());
        assert(copy@ =~= self@);
        copy
    }
}

impl<'a> ListKey for &'a str {
    fn same_key(&self, other: &Self) -> (same: bool) {
        (*self).to_owned() == (*other).to_owned()
    }

    fn copy_key(&self) -> (copy: Self) {
        *self
    }
}

/// A map held as a list of entries in the order of insertion, no key twice.
#[derive(Debug)]
pub struct KeyedList<K, T> {
    pub entries: Vec<(K, T)>,
}

/// No two entries have the same key.
pub open spec fn distinct_keys<K: ListKey, T>(entries: Seq<(K, T)>) -> bool {
    forall|i: int, j: int|
        #![trigger entries[i], entries[j]]
        0 <= i < j < entries.len() ==> entries[i].0@ != entries[j].0@
}

/// Whether entry `i` carries `key`.
pub open spec fn holds_at<K: ListKey, T>(entries: Seq<(K, T)>, key: K::V, i: int) -> bool {
    0 <= i < entries.len() && entries[i].0@ == key
}

/// The finite map that a list of entries stands for.
pub open spec fn entry_map<K: ListKey, T>(entries: Seq<(K, T)>) -> Map<K::V, T> {
    Map::new(
        |key: K::V| exists|i: int| holds_at(entries, key, i),
        |key: K::V| entries[choose|i: int| holds_at(entries, key, i)].1,
    )
}

/// An entry of a list with distinct keys is the map's value at its key.
pub proof fn lemma_entry<K: ListKey, T>(entries: Seq<(K, T)>, i: int)
    requires
        distinct_keys(entries),
        0 <= i < entries.len(),
    ensures
        entry_map(entries).contains_key(entries[i].0@),
        entry_map(entries)[entries[i].0@] == entries[i].1,
{
    let key = entries[i].0@;
    assert(holds_at(entries, key, i));
    let j = choose|j: int| holds_at(entries, key, j);
    assert(entries[j].0@ == key);
    assert(i == j);
}

/// Appending a fresh key inserts it into the map.
pub proof fn lemma_push<K: ListKey, T>(entries: Seq<(K, T)>, entry: (K, T))
    requires
        distinct_keys(entries),
        !entry_map(entries).contains_key(entry.0@),
    ensures
        distinct_keys(entries.push(entry)),
        entry_map(entries.push(entry)) == entry_map(entries).insert(entry.0@, entry.1),
{
    let grown = entries.push(entry);
    assert forall|i: int| 0 <= i < entries.len() implies entries[i].0@ != entry.0@ by {
        assert(holds_at(entries, entries[i].0@, i));
    }
    assert(distinct_keys(grown));
    let left = entry_map(grown);
    let right = entry_map(entries).insert(entry.0@, entry.1);
    assert forall|key: K::V| #[trigger] left.contains_key(key) == right.contains_key(key) && (
    left.contains_key(key) ==> left[key] == right[key]) by {
        if key == entry.0@ {
            assert(holds_at(grown, key, entries.len() as int));
            lemma_entry(grown, entries.len() as int);
        } else if exists|i: int| holds_at(entries, key, i) {
            let i = choose|i: int| holds_at(entries, key, i);
            assert(holds_at(grown, key, i));
            lemma_entry(grown, i);
            lemma_entry(entries, i);
        } else if exists|i: int| holds_at(grown, key, i) {
            let i = choose|i: int| holds_at(grown, key, i);
            assert(holds_at(entries, key, i));
        }
    }
    assert(left =~= right);
}

/// Removing an entry removes its key from the map.
pub proof fn lemma_remove<K: ListKey, T>(entries: Seq<(K, T)>, at: int)
    requires
        distinct_keys(entries),
        0 <= at < entries.len(),
    ensures
        distinct_keys(entries.remove(at)),
        entry_map(entries.remove(at)) == entry_map(entries).remove(entries[at].0@),
{
    let shrunk = entries.remove(at);
    let gone = entries[at].0@;
    assert(distinct_keys(shrunk));
    let left = entry_map(shrunk);
    let right = entry_map(entries).remove(gone);
    assert forall|key: K::V| #[trigger] left.contains_key(key) == right.contains_key(key) && (
    left.contains_key(key) ==> left[key] == right[key]) by {
        if exists|i: int| holds_at(shrunk, key, i) {
            let i = choose|i: int| holds_at(shrunk, key, i);
            let j = if i < at { i } else { i + 1 };
            assert(shrunk[i] == entries[j]);
            assert(holds_at(entries, key, j));
            lemma_entry(shrunk, i);
            lemma_entry(entries, j);
        } else if key != gone && exists|i: int| holds_at(entries, key, i) {
            let i = choose|i: int| holds_at(entries, key, i);
            let j = if i < at { i } else { i - 1 };
            assert(shrunk[j] == entries[i]);
            assert(holds_at(shrunk, key, j));
        }
    }
    assert(left =~= right);
}

/// Changing the value of an entry changes the map at its key.
pub proof fn lemma_update<K: ListKey, T>(entries: Seq<(K, T)>, at: int, value: T)
    requires
        distinct_keys(entries),
        0 <= at < entries.len(),
    ensures
        distinct_keys(entries.update(at, (entries[at].0, value))),
        entry_map(entries.update(at, (entries[at].0, value))) == entry_map(entries).insert(
            entries[at].0@,
            value,
        ),
{
    let changed = entries.update(at, (entries[at].0, value));
    assert(distinct_keys(changed));
    let left = entry_map(changed);
    let right = entry_map(entries).insert(entries[at].0@, value);
    assert forall|key: K::V| #[trigger] left.contains_key(key) == right.contains_key(key) && (
    left.contains_key(key) ==> left[key] == right[key]) by {
        if exists|i: int| holds_at(changed, key, i) {
            let i = choose|i: int| holds_at(changed, key, i);
            assert(holds_at(entries, key, i));
            lemma_entry(changed, i);
            lemma_entry(entries, i);
            if i != at {
                assert(changed[i].0@ != changed[at].0@);
            }
        } else if exists|i: int| holds_at(entries, key, i) {
            let i = choose|i: int| holds_at(entries, key, i);
            assert(holds_at(changed, key, i));
        } else if key == entries[at].0@ {
            assert(holds_at(changed, key, at));
        }
    }
    assert(left =~= right);
}

/// The list and its map have the same number of entries.
pub proof fn lemma_size<K: ListKey, T>(entries: Seq<(K, T)>)
    requires
        distinct_keys(entries),
    ensures
        entry_map(entries).dom().finite(),
        entry_map(entries).dom().len() == entries.len(),
    decreases entries.len(),
{
    if entries.len() == 0 {
        assert(entry_map(entries).dom() =~= Set::<K::V>::empty());
    } else {
        let last = entries.len() - 1;
        let shorter = entries.remove(last);
        lemma_remove(entries, last);
        lemma_size(shorter);
        lemma_entry(entries, last);
        assert(entry_map(entries).dom() =~= entry_map(shorter).dom().insert(entries[last].0@));
    }
}

/// Tells entries of other keys.
pub open spec fn of_another_key<K: ListKey, T>(key: K::V) -> spec_fn((K, T)) -> bool {
    |entry: (K, T)| entry.0@ != key
}

/// The entries without those of a key, in the same order.
pub open spec fn without_key<K: ListKey, T>(entries: Seq<(K, T)>, key: K::V) -> Seq<(K, T)> {
    entries.filter(of_another_key::<K, T>(key))
}

/// Taking a key out, putting it at the end and taking it out again is taking
/// it out.
pub proof fn lemma_without_key_twice<K: ListKey, T>(
    entries: Seq<(K, T)>,
    key: K::V,
    last: (K, T),
)
    requires
        last.0@ == key,
    ensures
        without_key(without_key(entries, key).push(last), key) == without_key(entries, key),
{
    let keep = of_another_key::<K, T>(key);
    let others = entries.filter(keep);
    reveal(Seq::filter);
    assert(others.push(last).drop_last() =~= others);
    lemma_filter_twice(entries, keep);
}

proof fn lemma_filter_twice<A>(items: Seq<A>, keep: spec_fn(A) -> bool)
    ensures
        items.filter(keep).filter(keep) == items.filter(keep),
    decreases items.len(),
{
    reveal(Seq::filter);
    if items.len() > 0 {
        let shorter = items.drop_last();
        lemma_filter_twice(shorter, keep);
        if keep(items.last()) {
            let front = shorter.filter(keep);
            assert(items.filter(keep) =~= front.push(items.last()));
            assert(front.push(items.last()).drop_last() =~= front);
        }
    }
}

/// With distinct keys, at most one entry is of a key.
pub proof fn lemma_without_key<K: ListKey, T>(entries: Seq<(K, T)>, key: K::V, at: int)
    requires
        distinct_keys(entries),
        0 <= at < entries.len() ==> entries[at].0@ == key,
        !(0 <= at < entries.len()) ==> !entry_map(entries).contains_key(key),
    ensures
        without_key(entries, key) == if 0 <= at < entries.len() {
            entries.remove(at)
        } else {
            entries
        },
    decreases entries.len(),
{
    reveal(Seq::filter);
    if entries.len() > 0 {
        let shorter = entries.drop_last();
        let last = entries.len() - 1;
        assert(distinct_keys(shorter));
        if at == last {
            assert forall|i: int| !#[trigger] holds_at(shorter, key, i) by {
                if holds_at(shorter, key, i) {
                    assert(entries[i].0@ == entries[at].0@);
                }
            }
            lemma_without_key(shorter, key, -1);
            assert(entries.remove(at) =~= shorter);
        } else if 0 <= at < last {
            assert(shorter[at] == entries[at]);
            lemma_without_key(shorter, key, at);
            assert(entries[last].0@ != entries[at].0@);
            assert(entries.remove(at) =~= shorter.remove(at).push(entries[last]));
        } else {
            assert forall|i: int| !#[trigger] holds_at(shorter, key, i) by {
                if holds_at(shorter, key, i) {
                    assert(holds_at(entries, key, i));
                }
            }
            lemma_without_key(shorter, key, -1);
            assert(!holds_at(entries, key, last));
            assert(entries =~= shorter.push(entries[last]));
        }
    }
}

impl<K: ListKey, T> View for KeyedList<K, T> {
    type V = Map<K::V, T>;

    open spec fn view(&self) -> Map<K::V, T> {
        entry_map(self.entries@)
    }
}

/// A copy has the same keys in the same order, each with a clone of its value.
pub open spec fn copies<K: ListKey, T: Clone>(entries: Seq<(K, T)>, copy: Seq<(K, T)>) -> bool {
    &&& copy.len() == entries.len()
    &&& forall|i: int|
        0 <= i < entries.len() ==> (#[trigger] copy[i]).0@ == entries[i].0@ && cloned(
            entries[i].1,
            copy[i].1,
        )
}

/// A copy of a map has the same keys, each with a clone of its value.
pub proof fn lemma_copies<K: ListKey, T: Clone>(list: KeyedList<K, T>, copy: KeyedList<K, T>)
    requires
        list.wf(),
        copies(list.entries@, copy.entries@),
    ensures
        copy.wf(),
        copy@.dom() == list@.dom(),
        forall|key: K::V| #[trigger] list@.contains_key(key) ==> cloned(list@[key], copy@[key]),
{
    assert forall|i: int, j: int|
        #![trigger copy.entries@[i], copy.entries@[j]]
        0 <= i < j < copy.entries@.len() implies copy.entries@[i].0@ != copy.entries@[j].0@ by {
        assert(list.entries@[i].0@ != list.entries@[j].0@);
    }
    assert forall|key: K::V| #[trigger] copy@.contains_key(key) implies list@.contains_key(key) by {
        let i = choose|i: int| holds_at(copy.entries@, key, i);
        lemma_entry(list.entries@, i);
    }
    assert forall|key: K::V| #[trigger] list@.contains_key(key) implies copy@.contains_key(key)
        && cloned(list@[key], copy@[key]) by {
        let i = choose|i: int| holds_at(list.entries@, key, i);
        lemma_entry(list.entries@, i);
        lemma_entry(copy.entries@, i);
        assert(copy.entries@[i].0@ == key);
    }
    assert(copy@.dom() =~= list@.dom());
}

impl<K: ListKey, T: Clone> Clone for KeyedList<K, T> {
    fn clone(&self) -> (copy: Self)
        ensures
            copies(self.entries@, copy.entries@),
    {
        let mut entries: Vec<(K, T)> = Vec::new();
        let mut i: usize = 0;
        while i < self.entries.len()
            invariant
                i <= self.entries@.len(),
                entries@.len() == i,
                forall|j: int|
                    0 <= j < i ==> (#[trigger] entries@[j]).0@ == self.entries@[j].0@ && cloned(
                        self.entries@[j].1,
                        entries@[j].1,
                    ),
            decreases self.entries@.len() - i,
        {
            let value = self.entries[i].1.clone();
            assert(cloned(self.entries@[i as int].1, value));
            entries.push((self.entries[i].0.copy_key(), value));
            i += 1;
        }
        KeyedList { entries }
    }
}

impl<K: ListKey, T> KeyedList<K, T> {
    /// No key occurs twice.
    pub open spec fn wf(&self) -> bool {
        distinct_keys(self.entries@)
    }

    /// The empty map.
    pub fn new() -> (list: Self)
        ensures
            list.wf(),
            list@ == Map::<K::V, T>::empty(),
            list.entries@.len() == 0,
    {
        let list = KeyedList { entries: Vec::new() };
        assert(list@ =~= Map::<K::V, T>::empty());
        list
    }

    /// The number of keys.
    pub fn len(&self) -> (count: usize)
        requires
            self.wf(),
        ensures
            count == self@.dom().len(),
            self@.dom().finite(),
            count == self.entries@.len(),
    {
        proof {
            lemma_size(self.entries@);
        }
        self.entries.len()
    }

    /// The position of a key.
    pub fn position(&self, key: &K) -> (found: Option<usize>)
        requires
            self.wf(),
        ensures
            match found {
                Some(i) => i < self.entries@.len() && self.entries@[i as int].0@ == key@
                    && self@.contains_key(key@) && self@[key@] == self.entries@[i as int].1,
                None => !self@.contains_key(key@),
            },
    {
        let mut i: usize = 0;
        while i < self.entries.len()
            invariant
                i <= self.entries@.len(),
                self.wf(),
                forall|j: int| 0 <= j < i ==> self.entries@[j].0@ != key@,
            decreases self.entries@.len() - i,
        {
            if self.entries[i].0.same_key(key) {
                proof {
                    lemma_entry(self.entries@, i as int);
                }
                return Some(i);
            }
            i += 1;
        }
        None
    }

    /// Whether the key is present.
    pub fn contains_key(&self, key: &K) -> (present: bool)
        requires
            self.wf(),
        ensures
            present == self@.contains_key(key@),
    {
        self.position(key).is_some()
    }

    /// The value at a key.
    pub fn get(&self, key: &K) -> (value: Option<&T>)
        requires
            self.wf(),
        ensures
            match value {
                Some(value) => self@.contains_key(key@) && *value == self@[key@],
                None => !self@.contains_key(key@),
            },
    {
        match self.position(key) {
            Some(i) => Some(&self.entries[i].1),
            None => None,
        }
    }

    /// Takes a key out.
    pub fn remove(&mut self, key: &K) -> (taken: Option<T>)
        requires
            old(self).wf(),
        ensures
            final(self).wf(),
            final(self)@ == old(self)@.remove(key@),
            final(self).entries@ == without_key(old(self).entries@, key@),
            match taken {
                Some(value) => old(self)@.contains_key(key@) && value == old(self)@[key@],
                None => !old(self)@.contains_key(key@),
            },
    {
        match self.position(key) {
            Some(i) => {
                proof {
                    lemma_remove(self.entries@, i as int);
                    lemma_without_key(self.entries@, key@, i as int);
                }
                let (_, value) = self.entries.remove(i);
                Some(value)
            },
            None => {
                proof {
                    lemma_without_key(self.entries@, key@, -1);
                }
                assert(self@ =~= self@.remove(key@));
                None
            },
        }
    }

    /// Puts a value at a key, in place of the one before.
    pub fn insert(&mut self, key: K, value: T) -> (previous: Option<T>)
        requires
            old(self).wf(),
        ensures
            final(self).wf(),
            final(self)@ == old(self)@.insert(key@, value),
            final(self).entries@ == without_key(old(self).entries@, key@).push((key, value)),
            match previous {
                Some(previous) => old(self)@.contains_key(key@) && previous == old(self)@[key@],
                None => !old(self)@.contains_key(key@),
            },
    {
        let ghost before = self@;
        let previous = self.remove(&key);
        proof {
            lemma_push(self.entries@, (key, value));
            assert(before.remove(key@).insert(key@, value) =~= before.insert(key@, value));
        }
        self.entries.push((key, value));
        previous
    }

    /// Takes every key out.
    pub fn clear(&mut self)
        ensures
            final(self).wf(),
            final(self)@ == Map::<K::V, T>::empty(),
            final(self).entries@ == Seq::<(K, T)>::empty(),
    {
        self.entries.clear();
        assert(self@ =~= Map::<K::V, T>::empty());
    }
}

} // verus!
