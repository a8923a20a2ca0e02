//! The players in the order in which they came in.

use crate::assoc;
use indexmap::IndexMap;
use vstd::prelude::*;

verus! {

/// `indexmap::IndexMap`: a map that keeps its keys in an order. Nothing is claimed of it here.
#[verifier::external_type_specification]
#[verifier::external_body]
#[verifier::reject_recursive_types(K)]
#[verifier::reject_recursive_types(V)]
#[verifier::reject_recursive_types(S)]
pub struct ExIndexMap<K, V, S>(IndexMap<K, V, S>);

/// The keys of an index map, in their order.
pub uninterp spec fn order(m: IndexMap<u64, ()>) -> Seq<u64>;

/// `IndexMap::new`: the new map has no keys.
#[verifier::external_body]
fn index_new() -> (m: IndexMap<u64, ()>)
    ensures
        order(m) == Seq::<u64>::empty(),
{
    IndexMap::new()
}

/// `IndexMap::get_index_of`: the place of a key in the order, if the map has it.
#[verifier::external_body]
fn index_of(m: &IndexMap<u64, ()>, key: u64) -> (r: Option<usize>)
    ensures
        r matches Some(i) ==> i < order(*m).len() && order(*m)[i as int] == key,
        r is None ==> !order(*m).contains(key),
{
    m.get_index_of(&key)
}

/// `IndexMap::get_index`: the key at a place in the order, if the map reaches that far.
#[verifier::external_body]
fn index_at(m: &IndexMap<u64, ()>, i: usize) -> (r: Option<u64>)
    ensures
        r == if i < order(*m).len() {
            Some(order(*m)[i as int])
        } else {
            None
        },
{
    m.get_index(i).map(|e| *e.0)
}

/// `IndexMap::insert`: a key that the map lacks becomes the last; one that it has stays where it
/// is, and what was kept under it is handed back.
#[verifier::external_body]
fn index_insert(m: &mut IndexMap<u64, ()>, key: u64) -> (r: Option<()>)
    ensures
        r is Some <==> order(*old(m)).contains(key),
        order(*final(m)) == if order(*old(m)).contains(key) {
            order(*old(m))
        } else {
            order(*old(m)).push(key)
        },
{
    m.insert(key, ())
}

/// `IndexMap::shift_remove`: the key leaves, and the keys behind it move up by one; a key that the
/// map lacks changes nothing.
#[verifier::external_body]
fn index_shift_remove(m: &mut IndexMap<u64, ()>, key: u64) -> (r: Option<()>)
    ensures
        r is Some <==> order(*old(m)).contains(key),
        !order(*old(m)).contains(key) ==> order(*final(m)) == order(*old(m)),
        forall|i: int|
            0 <= i < order(*old(m)).len() && #[trigger] order(*old(m))[i] == key
                && order(*old(m)).no_duplicates() ==> order(*final(m)) == order(*old(m)).remove(i),
{
    m.shift_remove(&key)
}

/// The players of a server, by number, in the order in which they came in.
pub struct Roster<P> {
    pub index: IndexMap<u64, ()>,
    pub players: Vec<P>,
}

impl<P: View> View for Roster<P> {
    type V = Seq<(u64, P::V)>;

    open spec fn view(&self) -> Seq<(u64, P::V)> {
        Seq::new(self.players@.len(), |i: int| (order(self.index)[i], self.players@[i]@))
    }
}

impl<P: View> Roster<P> {
    /// Each number in the index has its player, and no number occurs twice.
    pub open spec fn wf(&self) -> bool {
        &&& order(self.index).len() == self.players@.len()
        &&& order(self.index).no_duplicates()
    }

    proof fn lemma_keyed(&self)
        requires
            self.wf(),
        ensures
            assoc::keyed(self@),
            forall|k: u64| order(self.index).contains(k) <==> #[trigger] assoc::has(self@, k),
    {
        assert forall|k: u64| order(self.index).contains(k) <==> #[trigger] assoc::has(self@, k) by {
            if order(self.index).contains(k) {
                let i = choose|i: int| 0 <= i < order(self.index).len() && order(self.index)[i] == k;
                assert(self@[i].0 == k);
            }
        }
    }

    pub fn new() -> (r: Self)
        ensures
            r.wf(),
            r@ == Seq::<(u64, P::V)>::empty(),
    {
        let r = Roster { index: index_new(), players: Vec::new() };
        assert(r@ =~= Seq::empty());
        r
    }

    pub fn len(&self) -> (n: usize)
        ensures
            n == self@.len(),
    {
        self.players.len()
    }

    /// Where the player with the given number stands.
    pub fn find(&self, pid: u64) -> (r: Option<usize>)
        requires
            self.wf(),
        ensures
            assoc::keyed(self@),
            r matches Some(i) ==> i < self@.len() && self@[i as int].0 == pid && assoc::has(
                self@,
                pid,
            ) && assoc::place(self@, pid) == i,
            r is None ==> !assoc::has(self@, pid),
    {
        proof {
            self.lemma_keyed();
        }
        let r = index_of(&self.index, pid);
        if let Some(i) = r {
            proof {
                assert(self@[i as int].0 == pid);
                assoc::lemma_place(self@, i as int);
            }
        }
        r
    }

    /// Whether a player with the given number is here.
    pub fn contains(&self, pid: u64) -> (r: bool)
        requires
            self.wf(),
        ensures
            r == assoc::has(self@, pid),
    {
        self.find(pid).is_some()
    }

    /// The number of the player that stands at `i`.
    pub fn pid_at(&self, i: usize) -> (pid: u64)
        requires
            self.wf(),
            i < self@.len(),
        ensures
            pid == self@[i as int].0,
    {
        match index_at(&self.index, i) {
            Some(pid) => pid,
            None => 0,
        }
    }

    /// The player that stands at `i`.
    pub fn player_at(&self, i: usize) -> (p: &P)
        requires
            i < self@.len(),
        ensures
            p@ == self@[i as int].1,
    {
        &self.players[i]
    }

    /// The player that stands at `i`, to be changed in place.
    pub fn player_mut(&mut self, i: usize) -> (p: &mut P)
        requires
            old(self).wf(),
            i < old(self)@.len(),
        ensures
            p@ == old(self)@[i as int].1,
            final(self).wf(),
            final(self)@ == old(self)@.update(i as int, (old(self)@[i as int].0, final(p)@)),
    {
        let ghost before = self@;
        let ghost after = *final(self);
        let p = &mut self.players[i];
        assert(after@ =~= before.update(i as int, (before[i as int].0, final(p)@)));
        p
    }

    /// Lets a player in under the number `pid`, in place of who had it.
    pub fn insert(&mut self, pid: u64, player: P)
        requires
            old(self).wf(),
        ensures
            final(self).wf(),
            final(self)@ == assoc::put(old(self)@, pid, player@),
    {
        let ghost before = self@;
        match self.find(pid) {
            Some(i) => {
                proof {
                    self.lemma_keyed();
                }
                index_insert(&mut self.index, pid);
                self.players[i] = player;
                assert(self@ =~= before.update(i as int, (pid, player@)));
            },
            None => {
                proof {
                    self.lemma_keyed();
                }
                index_insert(&mut self.index, pid);
                self.players.push(player);
                assert(self@ =~= before.push((pid, player@)));
            },
        }
    }

    /// Lets the player with the number `pid` go.
    pub fn shift_remove(&mut self, pid: u64) -> (r: Option<P>)
        requires
            old(self).wf(),
        ensures
            final(self).wf(),
            final(self)@ == assoc::without(old(self)@, pid),
            r is Some <==> assoc::has(old(self)@, pid),
            r matches Some(p) ==> p@ == assoc::value(old(self)@, pid),
    {
        let ghost before = self@;
        match self.find(pid) {
            Some(i) => {
                assert(order(self.index)[i as int] == pid);
                index_shift_remove(&mut self.index, pid);
                let p = self.players.remove(i);
                assert(self@ =~= before.remove(i as int));
                Some(p)
            },
            None => None,
        }
    }
}

} // verus!
