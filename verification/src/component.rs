//! Store data in parts to allow defining different entities through composition.

use vstd::prelude::*;

use crate::buffer::{Buffer, BufferView};
use crate::entity::Entity;

verus! {

/// Uniquely identifies each component type.
pub type ComponentId = u64;

/// The data for a specific aspect of an entity: a value of fixed size that
/// can be laid out as one row of bytes and read back from it.
///
/// Two component types that are meant to live in different stores must
/// report different identifiers.
pub trait Component: Copy {
    /// The identifier of this component type.
    spec fn spec_component_id() -> ComponentId;

    /// The number of bytes one value occupies.
    spec fn spec_size() -> nat;

    /// The row of bytes that stands for `self`.
    spec fn encode(self) -> Seq<u8>;

    /// The value that a row of bytes stands for.
    spec fn decode(bytes: Seq<u8>) -> Self;

    /// A component occupies at least one byte, and its size fits the machine.
    proof fn lemma_size_bounds()
        ensures
            0 < Self::spec_size() <= usize::MAX,
    ;

    /// Every value encodes to exactly `spec_size()` bytes, and decoding them
    /// gives the value back.
    proof fn lemma_round_trip(value: Self)
        ensures
            value.encode().len() == Self::spec_size(),
            Self::decode(value.encode()) == value,
    ;

    fn component_id() -> (id: ComponentId)
        ensures
            id == Self::spec_component_id(),
    ;

    fn size() -> (size: usize)
        ensures
            size == Self::spec_size(),
    ;

    fn to_bytes(&self) -> (bytes: Vec<u8>)
        ensures
            bytes@ == self.encode(),
    ;

    fn from_bytes(bytes: &[u8]) -> (value: Self)
        requires
            bytes@.len() == Self::spec_size(),
        ensures
            value == Self::decode(bytes@),
    ;
}

/// What a [`ComponentList`] holds: the identifier of its component type,
/// the rows, and for each slot whether it holds a value.
#[verifier::ext_equal]
pub struct StoreView {
    pub id: ComponentId,
    pub buffer: BufferView,
    pub enabled: Seq<bool>,
}

impl StoreView {
    /// The rows are whole, and every slot that holds a value has a row.
    pub open spec fn wf(self) -> bool {
        &&& self.buffer.wf()
        &&& forall|slot: int|
            0 <= slot < self.enabled.len() && #[trigger] self.enabled[slot] ==> slot
                < self.buffer.len()
    }

    /// An empty store for the component type `T`.
    pub open spec fn empty<T: Component>() -> StoreView {
        StoreView {
            id: T::spec_component_id(),
            buffer: BufferView::empty(T::spec_size()),
            enabled: Seq::empty(),
        }
    }

    /// Whether values of type `T` are what this store keeps: `T` carries the
    /// store's identifier and has the size of its rows.
    pub open spec fn accepts<T: Component>(self) -> bool {
        T::spec_component_id() == self.id && T::spec_size() == self.buffer.stride
    }

    /// Whether `slot` holds a value. A slot beyond the bitmap holds none.
    pub open spec fn has(self, slot: nat) -> bool {
        slot < self.enabled.len() && self.enabled[slot as int]
    }

    /// Whether `slot` holds a value of type `T`: it holds a value and `T` is
    /// the store's type. This is when `set`, `get` and the two borrows
    /// succeed.
    pub open spec fn holds<T: Component>(self, slot: nat) -> bool {
        self.accepts::<T>() && self.has(slot)
    }

    /// The value of type `T` that `slot` holds, if it holds one.
    pub open spec fn get<T: Component>(self, slot: nat) -> Option<T> {
        if self.holds::<T>(slot) {
            Some(T::decode(self.buffer.row(slot)))
        } else {
            None
        }
    }

    /// The bitmap with `slot` marked as holding a value, grown with unmarked
    /// slots if it did not reach `slot`.
    pub open spec fn marked(self, slot: nat) -> Seq<bool> {
        Seq::new(
            if self.enabled.len() <= slot {
                slot + 1
            } else {
                self.enabled.len()
            },
            |i: int|
                if i == slot {
                    true
                } else if i < self.enabled.len() {
                    self.enabled[i]
                } else {
                    false
                },
        )
    }

    /// The store after `value` has been put into `slot`, whatever the slot
    /// held before.
    pub open spec fn put<T: Component>(self, slot: nat, value: T) -> StoreView {
        StoreView {
            id: self.id,
            buffer: self.buffer.write(slot, value.encode()),
            enabled: self.marked(slot),
        }
    }

    /// Whether `add` succeeds: the type is the store's and the slot holds
    /// nothing yet.
    pub open spec fn can_add<T: Component>(self, slot: nat) -> bool {
        self.accepts::<T>() && !self.has(slot)
    }

    /// The store after `add`: the value is put into the slot if the addition
    /// succeeds, else nothing changes.
    pub open spec fn add<T: Component>(self, slot: nat, value: T) -> StoreView {
        if self.can_add::<T>(slot) {
            self.put(slot, value)
        } else {
            self
        }
    }

    /// The store after `set`: the value replaces the one in the slot if the
    /// slot holds a value of that type, else nothing changes.
    pub open spec fn set<T: Component>(self, slot: nat, value: T) -> StoreView {
        if self.holds::<T>(slot) {
            StoreView {
                id: self.id,
                buffer: self.buffer.write(slot, value.encode()),
                enabled: self.enabled,
            }
        } else {
            self
        }
    }

    /// The store after `add_or_set`: the value is put into the slot if the
    /// type is the store's, else nothing changes.
    pub open spec fn add_or_set<T: Component>(self, slot: nat, value: T) -> StoreView {
        if self.accepts::<T>() {
            self.put(slot, value)
        } else {
            self
        }
    }

    /// The store after `rm`: the slot no longer holds a value. Its row
    /// stays as it is.
    pub open spec fn rm(self, slot: nat) -> StoreView {
        if self.has(slot) {
            StoreView {
                id: self.id,
                buffer: self.buffer,
                enabled: self.enabled.update(slot as int, false),
            }
        } else {
            self
        }
    }

    /// Putting a value into a slot keeps the store well formed, marks the
    /// slot and leaves the marks of all other slots as they were.
    pub proof fn lemma_put<T: Component>(self, slot: nat, value: T)
        requires
            self.wf(),
            self.accepts::<T>(),
        ensures
            self.put(slot, value).wf(),
            self.put(slot, value).accepts::<T>(),
            self.put(slot, value).has(slot),
            self.put(slot, value).get::<T>(slot) == Some(value),
            forall|other: nat| other != slot ==> self.put(slot, value).has(other) == self.has(other),
    {
        let after = self.put(slot, value);
        T::lemma_round_trip(value);
        self.buffer.lemma_write_len(slot, value.encode());
        self.buffer.lemma_write_then_read(slot, value.encode());
        assert forall|i: int| 0 <= i < after.enabled.len() && #[trigger] after.enabled[i] implies i
            < after.buffer.len() by {
            if i != slot {
                assert(self.enabled[i]);
            }
        }
    }

    /// Putting a value into a slot leaves the values of all other slots as
    /// they were.
    pub proof fn lemma_put_keeps_others<T: Component>(self, slot: nat, value: T, other: nat)
        requires
            self.wf(),
            self.accepts::<T>(),
            other != slot,
        ensures
            self.put(slot, value).get::<T>(other) == self.get::<T>(other),
    {
        self.lemma_put(slot, value);
        if self.has(other) {
            assert(self.enabled[other as int]);
            self.buffer.lemma_write_keeps_other_rows(slot, value.encode(), other);
        }
    }
}

impl StoreView {
    /// Adding the same component twice: the second attempt fails and changes
    /// nothing, and where the first one succeeded the slot holds its value.
    pub proof fn lemma_add_twice<T: Component>(self, slot: nat, value: T)
        requires
            self.wf(),
        ensures
            !self.add(slot, value).can_add::<T>(slot),
            self.add(slot, value).add(slot, value) == self.add(slot, value),
            self.can_add::<T>(slot) ==> self.add(slot, value).get::<T>(slot) == Some(value),
    {
        if self.can_add::<T>(slot) {
            self.lemma_put(slot, value);
        }
    }

    /// Adding a component and then setting another: the set succeeds and the
    /// slot holds the second value, whether or not the slot held a value
    /// before the addition.
    pub proof fn lemma_add_then_set<T: Component>(self, slot: nat, first: T, second: T)
        requires
            self.wf(),
            self.accepts::<T>(),
        ensures
            self.add(slot, first).holds::<T>(slot),
            self.add(slot, first).set(slot, second).has(slot),
            self.add(slot, first).set(slot, second).get::<T>(slot) == Some(second),
    {
        let added = self.add(slot, first);
        if self.can_add::<T>(slot) {
            self.lemma_put(slot, first);
        }
        T::lemma_round_trip(second);
        added.buffer.lemma_write_then_read(slot, second.encode());
    }

    /// After a removal the slot holds nothing, whatever type is asked for.
    pub proof fn lemma_rm_then_absent<T: Component>(self, slot: nat)
        ensures
            !self.rm(slot).has(slot),
            self.rm(slot).get::<T>(slot) == None::<T>,
    {
    }

    /// `add_or_set` succeeds whenever the type is the store's, and the slot
    /// then holds the value.
    pub proof fn lemma_add_or_set<T: Component>(self, slot: nat, value: T)
        requires
            self.wf(),
            self.accepts::<T>(),
        ensures
            self.add_or_set(slot, value).wf(),
            self.add_or_set(slot, value).has(slot),
            self.add_or_set(slot, value).get::<T>(slot) == Some(value),
    {
        self.lemma_put(slot, value);
    }

    /// A store turns down every type whose identifier or size is not its
    /// own, and then `add` changes nothing, the bytes of the rows included.
    pub proof fn lemma_mismatch_changes_nothing<T: Component>(self, slot: nat, value: T)
        requires
            !self.accepts::<T>(),
        ensures
            !self.can_add::<T>(slot),
            !self.holds::<T>(slot),
            self.add(slot, value) == self,
            self.set(slot, value) == self,
            self.add_or_set(slot, value) == self,
            self.get::<T>(slot) == None::<T>,
    {
    }
}

/// The values of one component type, one row per entity index, with a
/// bitmap that says which indices hold a value.
pub struct ComponentList {
    buffer: Buffer,
    enabled: Vec<bool>,
    id: ComponentId,
}

impl View for ComponentList {
    type V = StoreView;

    closed spec fn view(&self) -> StoreView {
        StoreView { id: self.id, buffer: self.buffer@, enabled: self.enabled@ }
    }
}

impl ComponentList {
    /// The rows are whole, and every index that holds a value has a row.
    pub open spec fn wf(&self) -> bool {
        self@.wf()
    }

    /// An empty list for components of type `T`.
    pub fn new<T: Component>() -> (list: ComponentList)
        ensures
            list.wf(),
            list@ == StoreView::empty::<T>(),
    {
        ComponentList { buffer: Buffer::new::<T>(), enabled: Vec::new(), id: T::component_id() }
    }

    /// Whether `T` is the type of component that this list keeps.
    fn accepts<T: Component>(&self) -> (accepted: bool)
        ensures
            accepted == self@.accepts::<T>(),
    {
        T::component_id() == self.id && T::size() == self.buffer.stride()
    }

    /// Writes `component` at `index` and marks the index as holding a value.
    fn put<T: Component>(&mut self, index: usize, component: &T)
        requires
            old(self).wf(),
            old(self)@.accepts::<T>(),
            (index + 1) * old(self)@.buffer.stride <= usize::MAX,
        ensures
            final(self).wf(),
            final(self)@ == old(self)@.put(index as nat, *component),
    {
        proof {
            let s = self@.buffer.stride as int;
            assert(index + 1 <= (index + 1) * s) by (nonlinear_arith)
                requires
                    s >= 1,
                    index >= 0,
            ;
            self@.lemma_put(index as nat, *component);
        }
        self.buffer.write_as(index, component);
        if index >= self.enabled.len() {
            self.enabled.resize(index + 1, false);
        }
        self.enabled[index] = true;
        assert(self@.enabled =~= old(self)@.marked(index as nat));
    }

    /// Attaches `component` to `entity`. Fails, and changes nothing, if the
    /// entity already has a component here or if `T` is not the type that
    /// this list keeps.
    pub fn add<T: Component>(&mut self, entity: &Entity, component: &T) -> (added: bool)
        requires
            old(self).wf(),
            (entity.index + 1) * old(self)@.buffer.stride <= usize::MAX,
        ensures
            final(self).wf(),
            added == old(self)@.can_add::<T>(entity.index as nat),
            final(self)@ == old(self)@.add(entity.index as nat, *component),
    {
        if self.has(entity) {
            false
        } else if !self.accepts::<T>() {
            false
        } else {
            self.put(entity.index, component);
            true
        }
    }

    /// Replaces the component of `entity`. Fails, and changes nothing, if
    /// the entity has no component here or if `T` is not the type that this
    /// list keeps.
    pub fn set<T: Component>(&mut self, entity: &Entity, component: &T) -> (replaced: bool)
        requires
            old(self).wf(),
        ensures
            final(self).wf(),
            replaced == old(self)@.holds::<T>(entity.index as nat),
            final(self)@ == old(self)@.set(entity.index as nat, *component),
    {
        if !self.has(entity) {
            false
        } else if !self.accepts::<T>() {
            false
        } else {
            proof {
                let slot = entity.index as nat;
                assert(self@.enabled[slot as int]);
                self.buffer.lemma_view_bounds();
                self@.buffer.lemma_row_bounds(slot);
                self@.buffer.lemma_write_len(slot, component.encode());
            }
            self.buffer.write_as(entity.index, component);
            true
        }
    }

    /// Attaches `component` to `entity`, replacing the one it has if it has
    /// one. Fails, and changes nothing, only if `T` is not the type that
    /// this list keeps.
    pub fn add_or_set<T: Component>(&mut self, entity: &Entity, component: &T) -> (stored: bool)
        requires
            old(self).wf(),
            (entity.index + 1) * old(self)@.buffer.stride <= usize::MAX,
        ensures
            final(self).wf(),
            stored == old(self)@.accepts::<T>(),
            final(self)@ == old(self)@.add_or_set(entity.index as nat, *component),
    {
        if !self.accepts::<T>() {
            false
        } else {
            self.put(entity.index, component);
            true
        }
    }

    /// Whether `entity` has a component here.
    pub fn has(&self, entity: &Entity) -> (present: bool)
        ensures
            present == self@.has(entity.index as nat),
    {
        entity.index < self.enabled.len() && self.enabled[entity.index]
    }

    /// The component of `entity`, if it has one here and `T` is the type
    /// that this list keeps.
    pub fn get<T: Component>(&self, entity: &Entity) -> (component: Option<T>)
        requires
            self.wf(),
        ensures
            component == self@.get::<T>(entity.index as nat),
    {
        if self.has(entity) && self.accepts::<T>() {
            assert(self@.enabled[entity.index as int]);
            Some(self.buffer.read_as::<T>(entity.index))
        } else {
            None
        }
    }

    /// A shared view of the bytes of the component of `entity`, if it has
    /// one here and `T` is the type that this list keeps.
    pub fn borrow<T: Component>(&self, entity: &Entity) -> (row: Option<&[u8]>)
        requires
            self.wf(),
        ensures
            row is Some == self@.holds::<T>(entity.index as nat),
            row is Some ==> row->0@ == self@.buffer.row(entity.index as nat),
    {
        if self.has(entity) && self.accepts::<T>() {
            assert(self@.enabled[entity.index as int]);
            Some(self.buffer.row(entity.index))
        } else {
            None
        }
    }

    /// An exclusive view of the bytes of the component of `entity`, if it
    /// has one here and `T` is the type that this list keeps. What the
    /// caller leaves in the view is the component afterwards.
    pub fn borrow_mut<T: Component>(&mut self, entity: &Entity) -> (row: Option<&mut [u8]>)
        requires
            old(self).wf(),
        ensures
            row is Some == old(self)@.holds::<T>(entity.index as nat),
            row is Some ==> row->0@ == old(self)@.buffer.row(entity.index as nat),
            row is Some ==> final(self)@ == (StoreView {
                id: old(self)@.id,
                buffer: old(self)@.buffer.splice(entity.index as nat, final(row->0)@),
                enabled: old(self)@.enabled,
            }),
            row is None ==> final(self)@ == old(self)@,
    {
        if self.has(entity) && self.accepts::<T>() {
            assert(self@.enabled[entity.index as int]);
            Some(self.buffer.row_mut(entity.index))
        } else {
            None
        }
    }

    /// Detaches the component of `entity`. Fails, and changes nothing, if
    /// the entity has no component here. The row stays as it is until it is
    /// written again.
    pub fn rm(&mut self, entity: &Entity) -> (removed: bool)
        requires
            old(self).wf(),
        ensures
            final(self).wf(),
            removed == old(self)@.has(entity.index as nat),
            final(self)@ == old(self)@.rm(entity.index as nat),
    {
        if self.has(entity) {
            self.enabled[entity.index] = false;
            true
        } else {
            false
        }
    }

    /// The identifier of the component type that this list keeps.
    pub fn get_cid(&self) -> (id: ComponentId)
        ensures
            id == self@.id,
    {
        self.id
    }

    /// The rows of this list.
    pub fn buffer(&self) -> (buffer: &Buffer)
        ensures
            buffer@ == self@.buffer,
    {
        &self.buffer
    }
}

} // verus!
