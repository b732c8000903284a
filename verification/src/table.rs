//! A store of records by address, in which an address holds at most one
//! record and a record is created only where none stands yet.

use crate::address::Address;
use vstd::prelude::*;

verus! {

/// An address and the record that stands at it.
struct Slot<T> {
    key: Address,
    value: T,
}

/// Records by address. The view is the map from the bytes of each occupied
/// address to the view of the record at it.
pub struct Table<T> {
    slots: Vec<Slot<T>>,
}

/// Whether the slot at index `i` has the address `key`.
spec fn slot_has_key<T>(slots: Seq<Slot<T>>, key: Seq<u8>, i: int) -> bool {
    0 <= i < slots.len() && slots[i].key@ == key
}

/// Whether no address stands in two slots.
spec fn distinct_keys<T>(slots: Seq<Slot<T>>) -> bool {
    forall|i: int, j: int| 0 <= i < j < slots.len() ==> slots[i].key@ != slots[j].key@
}

/// The map that a sequence of slots stands for.
spec fn slots_map<T: View>(slots: Seq<Slot<T>>) -> Map<Seq<u8>, T::V>
    decreases slots.len(),
{
    if slots.len() == 0 {
        Map::empty()
    } else {
        slots_map(slots.drop_last()).insert(slots.last().key@, slots.last().value@)
    }
}

/// An address is in the map exactly where some slot has it, and the map is
/// finite.
proof fn lemma_map_domain<T: View>(slots: Seq<Slot<T>>, key: Seq<u8>)
    ensures
        slots_map(slots).dom().finite(),
        slots_map(slots).contains_key(key) <==> exists|i: int| slot_has_key(slots, key, i),
    decreases slots.len(),
{
    if slots.len() > 0 {
        let front = slots.drop_last();
        lemma_map_domain(front, key);
        if slots_map(slots).contains_key(key) {
            if slots.last().key@ == key {
                assert(slot_has_key(slots, key, slots.len() - 1));
            } else {
                let i = choose|i: int| slot_has_key(front, key, i);
                assert(slot_has_key(slots, key, i));
            }
        }
        if exists|i: int| slot_has_key(slots, key, i) {
            let i = choose|i: int| slot_has_key(slots, key, i);
            if i < slots.len() - 1 {
                assert(slot_has_key(front, key, i));
            }
        }
    }
}

/// Where no address stands twice, the map gives at the address of each slot
/// the record of that slot.
proof fn lemma_map_value<T: View>(slots: Seq<Slot<T>>, i: int)
    requires
        distinct_keys(slots),
        0 <= i < slots.len(),
    ensures
        slots_map(slots).contains_key(slots[i].key@),
        slots_map(slots)[slots[i].key@] == slots[i].value@,
    decreases slots.len(),
{
    if i < slots.len() - 1 {
        lemma_map_value(slots.drop_last(), i);
    }
}

/// Where no address stands twice, the map has as many entries as there are
/// slots.
proof fn lemma_map_len<T: View>(slots: Seq<Slot<T>>)
    requires
        distinct_keys(slots),
    ensures
        slots_map(slots).dom().finite(),
        slots_map(slots).dom().len() == slots.len(),
    decreases slots.len(),
{
    if slots.len() > 0 {
        let front = slots.drop_last();
        lemma_map_len(front);
        lemma_map_domain(front, slots.last().key@);
        if slots_map(front).contains_key(slots.last().key@) {
            let i = choose|i: int| slot_has_key(front, slots.last().key@, i);
            assert(slots[i].key@ == slots[slots.len() - 1].key@);
        }
    }
}

/// Where no address stands twice, a new record in the slot at index `i`
/// changes the map at the address of that slot and nowhere else.
proof fn lemma_map_update<T: View>(slots: Seq<Slot<T>>, i: int, slot: Slot<T>)
    requires
        distinct_keys(slots),
        0 <= i < slots.len(),
        slot.key@ == slots[i].key@,
    ensures
        distinct_keys(slots.update(i, slot)),
        slots_map(slots.update(i, slot)) == slots_map(slots).insert(slot.key@, slot.value@),
    decreases slots.len(),
{
    let after = slots.update(i, slot);
    if i < slots.len() - 1 {
        lemma_map_update(slots.drop_last(), i, slot);
        assert(after.drop_last() =~= slots.drop_last().update(i, slot));
        assert(after.last() == slots.last());
        assert(slots[i].key@ != slots[slots.len() - 1].key@);
        assert(slots_map(after) =~= slots_map(slots).insert(slot.key@, slot.value@));
    } else {
        assert(after.drop_last() =~= slots.drop_last());
        assert(slots_map(after) =~= slots_map(slots).insert(slot.key@, slot.value@));
    }
}

impl<T: View> View for Table<T> {
    type V = Map<Seq<u8>, T::V>;

    closed spec fn view(&self) -> Map<Seq<u8>, T::V> {
        slots_map(self.slots@)
    }
}

impl<T: View> Table<T> {
    /// The invariant of the table: no address stands in it twice.
    pub closed spec fn wf(&self) -> bool {
        distinct_keys(self.slots@)
    }

    /// The table without records.
    pub fn new() -> (table: Table<T>)
        ensures
            table.wf(),
            table@ == Map::<Seq<u8>, T::V>::empty(),
    {
        Table { slots: Vec::new() }
    }

    /// The number of records.
    pub fn len(&self) -> (n: usize)
        requires
            self.wf(),
        ensures
            self@.dom().finite(),
            n == self@.dom().len(),
    {
        proof {
            lemma_map_len(self.slots@);
        }
        self.slots.len()
    }

    /// The index of the slot with this address, if there is one.
    fn position(&self, key: &Address) -> (found: Option<usize>)
        requires
            self.wf(),
        ensures
            match found {
                Some(i) => slot_has_key(self.slots@, key@, i as int) && self@.contains_key(key@)
                    && self@[key@] == self.slots@[i as int].value@,
                None => !self@.contains_key(key@),
            },
    {
        let mut i: usize = 0;
        while i < self.slots.len()
            invariant
                self.wf(),
                i <= self.slots.len(),
                forall|j: int| 0 <= j < i ==> !slot_has_key(self.slots@, key@, j),
            decreases self.slots.len() - i,
        {
            if self.slots[i].key.same(key) {
                proof {
                    lemma_map_value(self.slots@, i as int);
                }
                return Some(i);
            }
            i += 1;
        }
        proof {
            lemma_map_domain(self.slots@, key@);
        }
        None
    }

    /// Whether the address holds a record.
    pub fn contains(&self, key: &Address) -> (b: bool)
        requires
            self.wf(),
        ensures
            b == self@.contains_key(key@),
    {
        self.position(key).is_some()
    }

    /// The record at the address, if it holds one.
    pub fn get(&self, key: &Address) -> (found: Option<&T>)
        requires
            self.wf(),
        ensures
            match found {
                Some(value) => self@.contains_key(key@) && self@[key@] == value@,
                None => !self@.contains_key(key@),
            },
    {
        match self.position(key) {
            Some(i) => Some(&self.slots[i].value),
            None => None,
        }
    }

    /// Creates the record at the address if the address is free, and says
    /// whether it did. An occupied address keeps its record.
    pub fn insert(&mut self, key: Address, value: T) -> (created: bool)
        requires
            old(self).wf(),
        ensures
            final(self).wf(),
            created == !old(self)@.contains_key(key@),
            created ==> final(self)@ == old(self)@.insert(key@, value@),
            !created ==> final(self)@ == old(self)@,
    {
        if self.position(&key).is_some() {
            return false;
        }
        proof {
            lemma_map_domain(self.slots@, key@);
            assert forall|i: int| 0 <= i < self.slots@.len() implies self.slots@[i].key@ != key@ by {
                assert(!slot_has_key(self.slots@, key@, i));
            }
        }
        let ghost before = self.slots@;
        let slot = Slot { key, value };
        self.slots.push(slot);
        proof {
            assert(self.slots@.drop_last() =~= before);
        }
        true
    }

    /// Puts a new record in place of the one at the address, and says
    /// whether it did. A free address stays free.
    pub fn replace(&mut self, key: &Address, value: T) -> (replaced: bool)
        requires
            old(self).wf(),
        ensures
            final(self).wf(),
            replaced == old(self)@.contains_key(key@),
            replaced ==> final(self)@ == old(self)@.insert(key@, value@),
            !replaced ==> final(self)@ == old(self)@,
    {
        match self.position(key) {
            Some(i) => {
                let slot = Slot { key: *key, value };
                proof {
                    lemma_map_update(self.slots@, i as int, slot);
                }
                self.slots.set(i, slot);
                true
            },
            None => false,
        }
    }
}

} // verus!
