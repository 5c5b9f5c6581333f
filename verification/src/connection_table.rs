use crate::stream::Id;
use std::marker::PhantomData;
use vstd::prelude::*;

verus! {

/// The live entries of a slot array: the indices of the occupied slots,
/// each with what its slot holds.
pub open spec fn occupied<T>(slots: Seq<Option<T>>) -> Map<usize, T> {
    Map::new(|i: usize| i < slots.len() && slots[i as int] is Some, |i: usize| slots[i as int]->0)
}

/// A table of at most `N` connections, each under a stable id.
///
/// The table is an array of slots and a stack of the indices of freed
/// slots. A new connection takes the slot freed last, or else the next
/// slot that was never used; its id is the index of that slot, and stays
/// its id until the connection is removed.
pub struct ConnectionTable<C, T, const N: usize> {
    slots: Vec<Option<T>>,
    spares: Vec<usize>,
    _marker: PhantomData<C>,
}

impl<C, T, const N: usize> View for ConnectionTable<C, T, N> {
    type V = Map<usize, T>;

    closed spec fn view(&self) -> Map<usize, T> {
        occupied(self.slots@)
    }
}

impl<C, T, const N: usize> ConnectionTable<C, T, N> {
    /// The invariant of the table: no more than `N` slots exist, the free
    /// stack names each empty slot that it names once, and the slots that
    /// it does not name are exactly the live connections.
    pub closed spec fn wf(&self) -> bool {
        &&& self.slots@.len() <= N
        &&& forall|k: int|
            0 <= k < self.spares@.len() ==> (#[trigger] self.spares@[k]) < self.slots@.len()
                && self.slots@[self.spares@[k] as int] is None
        &&& forall|k: int, l: int|
            0 <= k < l < self.spares@.len() ==> self.spares@[k] != self.spares@[l]
        &&& self@.dom().finite()
        &&& self@.dom().len() + self.spares@.len() == self.slots@.len()
    }

    /// The index that the next connection will get, if there is room.
    pub closed spec fn next_index(&self) -> usize {
        if self.spares@.len() > 0 {
            self.spares@.last()
        } else {
            self.slots@.len() as usize
        }
    }

    /// In a valid table the live connections are finitely many, at most
    /// `N`, and none of them has the reserved index.
    pub proof fn lemma_bounds(&self)
        requires
            self.wf(),
        ensures
            self@.dom().finite(),
            self@.dom().len() <= N,
            forall|i: usize| self@.contains_key(i) ==> i < N,
    {
    }

    /// While there is room, the index that the next connection will get
    /// names no live connection and is not the reserved value: an index
    /// that was handed out is handed out again only after its connection
    /// was removed.
    pub proof fn lemma_next_index_is_free(&self)
        requires
            self.wf(),
            self@.dom().len() < N,
        ensures
            !self@.contains_key(self.next_index()),
            self.next_index() != usize::MAX,
    {
        if self.spares@.len() > 0 {
            let last = self.spares@.len() - 1;
            assert(self.spares@[last] < self.slots@.len());
        }
    }

    /// An empty table.
    pub fn new() -> (table: Self)
        ensures
            table.wf(),
            table@ == Map::<usize, T>::empty(),
    {
        let table = ConnectionTable { slots: Vec::new(), spares: Vec::new(), _marker: PhantomData };
        assert(table@ =~= Map::<usize, T>::empty());
        table
    }

    /// The number of live connections.
    pub fn len(&self) -> (len: usize)
        requires
            self.wf(),
        ensures
            len == self@.dom().len(),
    {
        self.slots.len() - self.spares.len()
    }

    /// Whether `N` connections are live, so that no further one fits.
    pub fn is_full(&self) -> (full: bool)
        requires
            self.wf(),
        ensures
            full == (self@.dom().len() == N),
    {
        self.spares.len() == 0 && self.slots.len() == N
    }

    /// Whether `id` names a live connection.
    pub fn contains(&self, id: &Id<C>) -> (live: bool)
        ensures
            live == self@.contains_key(id@),
    {
        let index = id.get();
        index < self.slots.len() && self.slots[index].is_some()
    }

    /// Adds a connection and returns its id, or hands the connection back
    /// when `N` connections are live already.
    ///
    /// The id is one that no live connection has. The other connections
    /// keep their ids and are not touched.
    pub fn add(&mut self, value: T) -> (result: Result<Id<C>, T>)
        requires
            old(self).wf(),
        ensures
            final(self).wf(),
            match result {
                Ok(id) => {
                    &&& old(self)@.dom().len() < N
                    &&& id@ == old(self).next_index()
                    &&& id.wf()
                    &&& !old(self)@.contains_key(id@)
                    &&& final(self)@ == old(self)@.insert(id@, value)
                },
                Err(back) => {
                    &&& old(self)@.dom().len() == N
                    &&& back == value
                    &&& final(self)@ == old(self)@
                },
            },
    {
        if self.spares.len() == 0 {
            let index = self.slots.len();
            if index == N {
                return Err(value);
            }
            self.slots.push(Some(value));
            assert(self@ =~= old(self)@.insert(index, value));
            Ok(Id::from(index))
        } else {
            let ghost spares = self.spares@;
            let index = self.spares.pop().unwrap();
            assert(index == spares[spares.len() - 1]);
            self.slots[index] = Some(value);
            assert(self@ =~= old(self)@.insert(index, value));
            assert forall|k: int| 0 <= k < self.spares@.len() implies (#[trigger] self.spares@[k])
                < self.slots@.len() && self.slots@[self.spares@[k] as int] is None by {
                assert(self.spares@[k] == spares[k]);
                assert(spares[k] != spares[spares.len() - 1]);
            }
            Ok(Id::from(index))
        }
    }

    /// Removes the connection `id`, which must be live, and returns it. Its
    /// slot is the first to be used again.
    pub fn remove(&mut self, id: &Id<C>) -> (value: T)
        requires
            old(self).wf(),
            old(self)@.contains_key(id@),
        ensures
            final(self).wf(),
            value == old(self)@[id@],
            final(self)@ == old(self)@.remove(id@),
            final(self).next_index() == id@,
    {
        let index = id.get();
        let ghost spares = self.spares@;
        let taken = self.slots[index].take();
        self.spares.push(index);
        assert(self@ =~= old(self)@.remove(index));
        assert forall|k: int, l: int| 0 <= k < l < self.spares@.len() implies self.spares@[k]
            != self.spares@[l] by {
            if l == spares.len() {
                assert(self.spares@[k] == spares[k]);
            }
        }
        match taken {
            Some(value) => value,
            None => vstd::pervasive::unreached(),
        }
    }

    /// The connection `id`, if it is live.
    pub fn try_get(&self, id: &Id<C>) -> (value: Option<&T>)
        ensures
            match value {
                Some(value) => self@.contains_key(id@) && *value == self@[id@],
                None => !self@.contains_key(id@),
            },
    {
        if self.contains(id) {
            Some(self.get(id))
        } else {
            None
        }
    }

    /// The connection `id`, which must be live.
    pub fn get(&self, id: &Id<C>) -> (value: &T)
        requires
            self@.contains_key(id@),
        ensures
            *value == self@[id@],
    {
        match &self.slots[id.get()] {
            Some(value) => value,
            None => vstd::pervasive::unreached(),
        }
    }

    /// The connection `id`, which must be live, to be changed in place.
    pub fn get_mut(&mut self, id: &Id<C>) -> (value: &mut T)
        requires
            old(self).wf(),
            old(self)@.contains_key(id@),
        ensures
            *value == old(self)@[id@],
            final(self).wf(),
            final(self)@ == old(self)@.insert(id@, *final(value)),
    {
        let index = id.get();
        let ghost slots = self.slots@;
        let value = match &mut self.slots[index] {
            Some(value) => value,
            None => vstd::pervasive::unreached(),
        };
        proof {
            let after = slots.update(index as int, Some(*final(value)));
            assert(occupied(after) =~= occupied(slots).insert(index, *final(value)));
            assert(occupied(after).dom() =~= occupied(slots).dom());
        }
        value
    }
}

} // verus!
