//! A map kept in order of arrival.

use crate::assoc;
use crate::copy;
use crate::copy::Duplicate;
use vstd::prelude::*;

verus! {

/// What a [`Table`] can be keyed by: values that are told apart by their views.
pub trait Key: View + Sized {
    fn same(&self, other: &Self) -> (b: bool)
        ensures
            b == (self@ == other@),
    ;
}

impl Key for String {
    fn same(&self, other: &Self) -> (b: bool) {
        *self == *other
    }
}

/// A key with what is kept under it.
#[derive(Debug)]
pub struct Entry<K, V> {
    pub key: K,
    pub value: V,
}

impl<K: View, V: View> View for Entry<K, V> {
    type V = (K::V, V::V);

    open spec fn view(&self) -> (K::V, V::V) {
        (self.key@, self.value@)
    }
}

impl<K: Duplicate, V: Duplicate> Duplicate for Entry<K, V> {
    fn duplicate(&self) -> (r: Self) {
        Entry { key: self.key.duplicate(), value: self.value.duplicate() }
    }
}

/// A map from `K` to `V` that keeps its entries in the order in which their keys came in.
#[derive(Debug)]
pub struct Table<K, V> {
    pub entries: Vec<Entry<K, V>>,
}

impl<K: View, V: View> View for Table<K, V> {
    type V = Seq<(K::V, V::V)>;

    open spec fn view(&self) -> Seq<(K::V, V::V)> {
        copy::views(self.entries@)
    }
}

impl<K: Duplicate, V: Duplicate> Duplicate for Table<K, V> {
    fn duplicate(&self) -> (r: Self) {
        Table { entries: copy::duplicate_all(&self.entries) }
    }
}

impl<K: Key, V: View> Table<K, V> {
    /// No key occurs twice.
    pub open spec fn wf(&self) -> bool {
        assoc::keyed(self@)
    }

    pub fn new() -> (t: Self)
        ensures
            t.wf(),
            t@ == Seq::<(K::V, V::V)>::empty(),
    {
        let t = Table { entries: Vec::new() };
        assert(t@ =~= Seq::empty());
        t
    }

    pub fn len(&self) -> (n: usize)
        ensures
            n == self@.len(),
    {
        self.entries.len()
    }

    /// Where the entry with the given key stands.
    pub fn find(&self, key: &K) -> (r: Option<usize>)
        requires
            self.wf(),
        ensures
            r matches Some(i) ==> i < self@.len() && self@[i as int].0 == key@ && assoc::has(
                self@,
                key@,
            ) && assoc::place(self@, key@) == i,
            r is None ==> !assoc::has(self@, key@),
    {
        let mut i: usize = 0;
        while i < self.entries.len()
            invariant
                self.wf(),
                i <= self@.len(),
                forall|j: int| 0 <= j < i ==> (#[trigger] self@[j]).0 != key@,
            decreases self@.len() - i,
        {
            if self.entries[i].key.same(key) {
                proof {
                    assoc::lemma_place(self@, i as int);
                }
                return Some(i);
            }
            i = i + 1;
        }
        None
    }

    /// Whether something is kept under `key`.
    pub fn contains_key(&self, key: &K) -> (r: bool)
        requires
            self.wf(),
        ensures
            r == assoc::has(self@, key@),
    {
        self.find(key).is_some()
    }

    /// Keeps `value` under `key`, in place of what was there.
    pub fn insert(&mut self, key: K, value: V)
        requires
            old(self).wf(),
        ensures
            final(self).wf(),
            final(self)@ == assoc::put(old(self)@, key@, value@),
    {
        let ghost before = self@;
        let entry = Entry { key, value };
        match self.find(&entry.key) {
            Some(i) => {
                self.entries[i] = entry;
                assert(self@ =~= before.update(i as int, entry@));
            },
            None => {
                self.entries.push(entry);
                assert(self@ =~= before.push(entry@));
            },
        }
    }

    /// Takes out the entry that stands at `i`.
    pub fn remove_at(&mut self, i: usize) -> (e: Entry<K, V>)
        requires
            i < old(self)@.len(),
        ensures
            old(self).wf() ==> final(self).wf(),
            final(self)@ == old(self)@.remove(i as int),
            e@ == old(self)@[i as int],
    {
        let ghost before = self@;
        let e = self.entries.remove(i);
        assert(self@ =~= before.remove(i as int));
        e
    }

    /// Takes out what is kept under `key`.
    pub fn remove(&mut self, key: &K)
        requires
            old(self).wf(),
        ensures
            final(self).wf(),
            final(self)@ == assoc::without(old(self)@, key@),
    {
        if let Some(i) = self.find(key) {
            self.remove_at(i);
        }
    }

    /// The key of the entry that stands at `i`.
    pub fn key_at(&self, i: usize) -> (k: &K)
        requires
            i < self@.len(),
        ensures
            k@ == self@[i as int].0,
    {
        &self.entries[i].key
    }

    /// The value of the entry that stands at `i`.
    pub fn value_at(&self, i: usize) -> (v: &V)
        requires
            i < self@.len(),
        ensures
            v@ == self@[i as int].1,
    {
        &self.entries[i].value
    }

    /// The value of the entry that stands at `i`, to be changed in place.
    pub fn value_mut(&mut self, i: usize) -> (v: &mut V)
        requires
            old(self).wf(),
            i < old(self)@.len(),
        ensures
            v@ == old(self)@[i as int].1,
            final(self).wf(),
            final(self)@ == old(self)@.update(i as int, (old(self)@[i as int].0, final(v)@)),
    {
        let ghost before = self@;
        let ghost after = *final(self);
        let v = &mut self.entries[i].value;
        assert(after@ =~= before.update(i as int, (before[i as int].0, final(v)@)));
        v
    }
}

} // verus!
