//! Entity identifier and manager types.

use vstd::prelude::*;

verus! {

/// Dual identifier for an entity.
///
/// `index` locates the entity's components and is recycled once the entity
/// is deleted; `uuid` tells successive owners of one index apart.
#[derive(Clone, Copy, Debug, PartialEq, Eq, Structural)]
pub struct Entity {
    /// The entity's index, used to locate elements
    pub index: usize,
    /// The unique identifier of the entity, as a 128-bit number
    pub uuid: u128,
}

impl Entity {
    /// The entity that stands for "no entity": index 0 with the nil
    /// identifier. It is never issued.
    pub open spec fn spec_nil() -> Entity {
        Entity { index: 0, uuid: 0 }
    }

    #[inline(always)]
    pub fn new(index: usize, uuid: u128) -> (entity: Entity)
        ensures
            entity == (Entity { index, uuid }),
    {
        Entity { index, uuid }
    }

    #[inline]
    pub fn nil() -> (entity: Entity)
        ensures
            entity == Entity::spec_nil(),
    {
        Entity::new(0, 0)
    }
}

/// The bits that every random (version 4) identifier has in common: the
/// version field holds 4 and the variant field holds binary 10.
pub open spec fn is_random_uuid(bits: u128) -> bool {
    bits & 0x0000_0000_0000_f000_c000_0000_0000_0000 == 0x0000_0000_0000_4000_8000_0000_0000_0000
}

/// A random identifier is never the nil identifier.
pub proof fn lemma_random_uuid_is_not_nil(bits: u128)
    requires
        is_random_uuid(bits),
    ensures
        bits != 0,
{
    assert(bits & 0x0000_0000_0000_f000_c000_0000_0000_0000
        == 0x0000_0000_0000_4000_8000_0000_0000_0000 ==> bits != 0) by (bit_vector);
}

/// Draws a fresh identifier from `uuid::Uuid::new_v4` and hands it out as
/// the 128-bit number of `Uuid::as_u128`.
///
/// Trusted: the call is not verified. The contract claims only what holds of
/// every draw, namely that the version and variant fields are those of a
/// random identifier. The draw fails with a panic when the operating system
/// cannot supply random bytes.
#[verifier::external_body]
fn random_uuid() -> (bits: u128)
    ensures
        is_random_uuid(bits),
{
    uuid::Uuid::new_v4().as_u128()
}

/// What an [`IdPool`] holds: the released slots, the most recently released
/// one last, and the next slot that has never been issued.
pub struct PoolView {
    pub recycled: Seq<usize>,
    pub next_id: nat,
}

impl PoolView {
    /// A pool that has issued nothing yet. Slot 0 is reserved, so the first
    /// slot to be issued is 1.
    pub open spec fn fresh() -> PoolView {
        PoolView { recycled: Seq::empty(), next_id: 1 }
    }

    /// Whether a slot can be acquired without running out of numbers.
    pub open spec fn can_acquire(self) -> bool {
        self.recycled.len() > 0 || self.next_id < usize::MAX
    }

    /// The slot that the next acquisition issues: the most recently released
    /// one if there is any, else the next fresh one.
    pub open spec fn next_slot(self) -> nat {
        if self.recycled.len() > 0 {
            self.recycled.last() as nat
        } else {
            self.next_id
        }
    }

    /// The pool after a slot has been acquired.
    pub open spec fn acquire(self) -> PoolView {
        if self.recycled.len() > 0 {
            PoolView { recycled: self.recycled.drop_last(), next_id: self.next_id }
        } else {
            PoolView { recycled: self.recycled, next_id: self.next_id + 1 }
        }
    }

    /// The pool after `slot` has been released.
    pub open spec fn release(self, slot: usize) -> PoolView {
        PoolView { recycled: self.recycled.push(slot), next_id: self.next_id }
    }
}

/// A recycling allocator of slot numbers.
///
/// Released slots are reissued before new ones are minted, the most
/// recently released first.
pub struct IdPool {
    recycled: Vec<usize>,
    next_id: usize,
}

impl View for IdPool {
    type V = PoolView;

    closed spec fn view(&self) -> PoolView {
        PoolView { recycled: self.recycled@, next_id: self.next_id as nat }
    }
}

impl IdPool {
    pub fn new() -> (pool: IdPool)
        ensures
            pool@ == PoolView::fresh(),
    {
        IdPool { recycled: Vec::new(), next_id: 1 }
    }

    /// Whether a slot can still be acquired.
    pub fn can_get_id(&self) -> (possible: bool)
        ensures
            possible == self@.can_acquire(),
    {
        self.recycled.len() > 0 || self.next_id < usize::MAX
    }

    /// Acquires a slot.
    pub fn get_id(&mut self) -> (id: usize)
        requires
            old(self)@.can_acquire(),
        ensures
            id == old(self)@.next_slot(),
            final(self)@ == old(self)@.acquire(),
    {
        match self.recycled.pop() {
            Some(id) => id,
            None => {
                self.next_id += 1;
                self.next_id - 1
            },
        }
    }

    /// Releases a slot. Nothing checks that `id` was issued and has not been
    /// released since: that is up to the caller.
    pub fn return_id(&mut self, id: usize)
        ensures
            final(self)@ == old(self)@.release(id),
    {
        self.recycled.push(id);
    }
}

/// What an [`EntityManager`] holds: the pool of slots, the entity on record
/// for each slot, and which slots are occupied.
pub struct RegistryView {
    pub pool: PoolView,
    pub slots: Seq<Entity>,
    pub enabled: Seq<bool>,
}

impl RegistryView {
    /// A registry that has issued nothing yet.
    pub open spec fn fresh() -> RegistryView {
        RegistryView { pool: PoolView::fresh(), slots: Seq::empty(), enabled: Seq::empty() }
    }

    /// Whether `slot` is occupied.
    pub open spec fn is_live(self, slot: nat) -> bool {
        slot < self.enabled.len() && self.enabled[slot as int]
    }

    /// Whether `entity` is the entity on record for its slot and the slot is
    /// occupied. An index beyond the slots is not valid.
    pub open spec fn is_valid(self, entity: Entity) -> bool {
        &&& entity.index < self.slots.len()
        &&& self.slots[entity.index as int] == entity
        &&& self.is_live(entity.index as nat)
    }

    /// The bookkeeping is consistent: both arrays cover the same slots, no
    /// slot beyond the issued ones is known, occupied slots have been issued
    /// and are not waiting for reuse, and no slot waits for reuse twice.
    pub open spec fn wf(self) -> bool {
        &&& self.slots.len() == self.enabled.len()
        &&& self.slots.len() <= self.pool.next_id <= usize::MAX
        &&& 1 <= self.pool.next_id
        &&& self.pool.recycled.no_duplicates()
        &&& forall|k: int|
            0 <= k < self.pool.recycled.len() ==> 1 <= #[trigger] self.pool.recycled[k]
                < self.slots.len()
        &&& forall|k: int|
            0 <= k < self.pool.recycled.len() ==> !self.enabled[#[trigger] self.pool.recycled[k] as int]
        &&& forall|i: int| 0 <= i < self.enabled.len() && #[trigger] self.enabled[i] ==> 1 <= i
        &&& forall|i: int|
            0 <= i < self.slots.len() && !self.enabled[i] ==> #[trigger] self.slots[i]
                == Entity::spec_nil()
    }

    /// The entity that a creation with identifier `uuid` issues.
    pub open spec fn created(self, uuid: u128) -> Entity {
        Entity { index: self.pool.next_slot() as usize, uuid }
    }

    /// The registry after an entity with identifier `uuid` has been created:
    /// a slot is acquired, both arrays grow to cover it if they do not yet,
    /// the entity is put on record and the slot is marked occupied.
    pub open spec fn create(self, uuid: u128) -> RegistryView {
        let slot = self.pool.next_slot() as int;
        RegistryView {
            pool: self.pool.acquire(),
            slots: Seq::new(
                if self.slots.len() <= slot {
                    (slot + 1) as nat
                } else {
                    self.slots.len()
                },
                |i: int|
                    if i == slot {
                        self.created(uuid)
                    } else if i < self.slots.len() {
                        self.slots[i]
                    } else {
                        Entity::spec_nil()
                    },
            ),
            enabled: Seq::new(
                if self.enabled.len() <= slot {
                    (slot + 1) as nat
                } else {
                    self.enabled.len()
                },
                |i: int|
                    if i == slot {
                        true
                    } else if i < self.enabled.len() {
                        self.enabled[i]
                    } else {
                        false
                    },
            ),
        }
    }

    /// The registry after `entity` has been deleted. Deleting an entity that
    /// is not valid changes nothing. Otherwise the slot's record is reset,
    /// the slot is marked free and it is released for reuse.
    pub open spec fn delete(self, entity: Entity) -> RegistryView {
        if self.is_valid(entity) {
            RegistryView {
                pool: self.pool.release(entity.index),
                slots: self.slots.update(entity.index as int, Entity::spec_nil()),
                enabled: self.enabled.update(entity.index as int, false),
            }
        } else {
            self
        }
    }
}

/// Handles creation, activation, and validating of entities.
pub struct EntityManager {
    ids: IdPool,
    entities: Vec<Entity>,
    enabled: Vec<bool>,
}

impl View for EntityManager {
    type V = RegistryView;

    closed spec fn view(&self) -> RegistryView {
        RegistryView { pool: self.ids@, slots: self.entities@, enabled: self.enabled@ }
    }
}

impl EntityManager {
    /// The manager's bookkeeping is consistent.
    pub open spec fn wf(&self) -> bool {
        self@.wf()
    }

    /// Returns a new `EntityManager`
    pub fn new() -> (manager: EntityManager)
        ensures
            manager.wf(),
            manager@ == RegistryView::fresh(),
    {
        EntityManager { ids: IdPool::new(), entities: Vec::new(), enabled: Vec::new() }
    }

    /// Whether an entity can still be created.
    pub fn can_create(&self) -> (possible: bool)
        ensures
            possible == self@.pool.can_acquire(),
    {
        self.ids.can_get_id()
    }

    /// Creates a new `Entity`, assigning it the first available index and a
    /// random identifier.
    pub fn create_entity(&mut self) -> (entity: Entity)
        requires
            old(self).wf(),
            old(self)@.pool.can_acquire(),
        ensures
            final(self).wf(),
            is_random_uuid(entity.uuid),
            entity == old(self)@.created(entity.uuid),
            final(self)@ == old(self)@.create(entity.uuid),
    {
        let uuid = random_uuid();
        self.create_entity_with(uuid)
    }

    /// Creates a new `Entity`, assigning it the first available index and
    /// the identifier `uuid`.
    pub fn create_entity_with(&mut self, uuid: u128) -> (entity: Entity)
        requires
            old(self).wf(),
            old(self)@.pool.can_acquire(),
        ensures
            final(self).wf(),
            entity == old(self)@.created(uuid),
            final(self)@ == old(self)@.create(uuid),
    {
        proof {
            old(self)@.lemma_create_preserves_wf(uuid);
        }
        let ret = Entity::new(self.ids.get_id(), uuid);
        if ret.index >= self.entities.len() {
            self.entities.resize(ret.index + 1, Entity::nil());
        }
        self.entities[ret.index] = ret;
        if ret.index >= self.enabled.len() {
            self.enabled.resize(ret.index + 1, false);
        }
        self.enabled[ret.index] = true;
        assert(self@.slots =~= old(self)@.create(uuid).slots);
        assert(self@.enabled =~= old(self)@.create(uuid).enabled);
        ret
    }

    /// Returns true if an entity is valid (not removed from the manager).
    #[inline]
    pub fn is_valid(&self, entity: &Entity) -> (valid: bool)
        ensures
            valid == self@.is_valid(*entity),
    {
        entity.index < self.entities.len() && entity.index < self.enabled.len()
            && self.entities[entity.index] == *entity && self.enabled[entity.index]
    }

    /// Deletes an entity from the manager. An entity that is not valid, such
    /// as one that was deleted before, is left alone and `false` is returned.
    pub fn delete_entity(&mut self, entity: &Entity) -> (deleted: bool)
        requires
            old(self).wf(),
        ensures
            final(self).wf(),
            deleted == old(self)@.is_valid(*entity),
            final(self)@ == old(self)@.delete(*entity),
    {
        if !self.is_valid(entity) {
            return false;
        }
        proof {
            old(self)@.lemma_delete_preserves_wf(*entity);
        }
        self.entities[entity.index] = Entity::nil();
        self.enabled[entity.index] = false;
        self.ids.return_id(entity.index);
        true
    }
}

impl RegistryView {
    /// Creating an entity keeps the bookkeeping consistent.
    pub proof fn lemma_create_preserves_wf(self, uuid: u128)
        requires
            self.wf(),
            self.pool.can_acquire(),
        ensures
            self.create(uuid).wf(),
            1 <= self.pool.next_slot() < usize::MAX,
            !self.is_live(self.pool.next_slot()),
    {
        let after = self.create(uuid);
        let slot = self.pool.next_slot() as int;
        if self.pool.recycled.len() > 0 {
            let last = self.pool.recycled.len() - 1;
            assert(self.pool.recycled[last] == slot);
            assert forall|k: int| 0 <= k < after.pool.recycled.len() implies 1
                <= #[trigger] after.pool.recycled[k] < after.slots.len()
                && !after.enabled[after.pool.recycled[k] as int] by {
                assert(after.pool.recycled[k] == self.pool.recycled[k]);
                assert(self.pool.recycled[k] != self.pool.recycled[last]);
            }
        }
        assert(after.wf());
    }

    /// Deleting an entity keeps the bookkeeping consistent.
    pub proof fn lemma_delete_preserves_wf(self, entity: Entity)
        requires
            self.wf(),
        ensures
            self.delete(entity).wf(),
    {
        if self.is_valid(entity) {
            let after = self.delete(entity);
            let slot = entity.index;
            assert forall|k: int| 0 <= k < self.pool.recycled.len() implies self.pool.recycled[k]
                != slot by {
                assert(!self.enabled[self.pool.recycled[k] as int]);
            }
            assert forall|k: int| 0 <= k < after.pool.recycled.len() implies 1
                <= #[trigger] after.pool.recycled[k] < after.slots.len()
                && !after.enabled[after.pool.recycled[k] as int] by {
                if k < self.pool.recycled.len() {
                    assert(after.pool.recycled[k] == self.pool.recycled[k]);
                }
            }
            assert(after.pool.recycled.no_duplicates());
            assert(after.wf());
        }
    }
}

impl RegistryView {
    /// Two valid entities never share a slot: if they have the same index,
    /// they are the same entity, identifier included.
    pub proof fn lemma_valid_entities_are_distinct(self, a: Entity, b: Entity)
        requires
            self.is_valid(a),
            self.is_valid(b),
            a.index == b.index,
        ensures
            a == b,
    {
    }

    /// A created entity is valid, its index is not 0, and its slot was not
    /// occupied: no valid entity had that index, so the new entity shares
    /// its index with no other valid entity.
    pub proof fn lemma_created_is_fresh(self, uuid: u128, other: Entity)
        requires
            self.wf(),
            self.pool.can_acquire(),
            self.is_valid(other),
        ensures
            self.create(uuid).is_valid(self.created(uuid)),
            self.created(uuid).index != 0,
            self.created(uuid).index != other.index,
            self.create(uuid).is_valid(other),
    {
        self.lemma_create_preserves_wf(uuid);
    }

    /// Every entity but the created one is valid after a creation exactly if
    /// it was valid before.
    pub proof fn lemma_create_keeps_others(self, uuid: u128, other: Entity)
        requires
            self.wf(),
            self.pool.can_acquire(),
            other != self.created(uuid),
        ensures
            self.create(uuid).is_valid(other) == self.is_valid(other),
    {
        self.lemma_create_preserves_wf(uuid);
    }

    /// A deleted entity is no longer valid, and every other entity is valid
    /// after the deletion exactly if it was valid before.
    pub proof fn lemma_delete_keeps_others(self, entity: Entity, other: Entity)
        requires
            self.wf(),
            other != entity,
        ensures
            !self.delete(entity).is_valid(entity),
            self.delete(entity).is_valid(other) == self.is_valid(other),
    {
    }

    /// Recycling: after an entity has been created and deleted, the next
    /// creation reuses its slot, the new entity is valid and the deleted one
    /// was not valid in between.
    pub proof fn lemma_recycled_slot_is_reissued(self, first: u128, second: u128)
        requires
            self.wf(),
            self.pool.can_acquire(),
        ensures
            ({
                let e = self.created(first);
                let deleted = self.create(first).delete(e);
                let e2 = deleted.created(second);
                &&& self.create(first).is_valid(e)
                &&& !deleted.is_valid(e)
                &&& deleted.wf()
                &&& deleted.pool.can_acquire()
                &&& e2.index == e.index
                &&& deleted.create(second).is_valid(e2)
            }),
    {
        let e = self.created(first);
        let created = self.create(first);
        self.lemma_create_preserves_wf(first);
        created.lemma_delete_preserves_wf(e);
        let deleted = created.delete(e);
        assert(deleted.pool.recycled.last() == e.index);
        deleted.lemma_create_preserves_wf(second);
    }

    /// Recycling: the deleted entity stays invalid once its slot has been
    /// reissued, provided that the new owner got another identifier.
    pub proof fn lemma_stale_entity_stays_invalid(self, first: u128, second: u128)
        requires
            self.wf(),
            self.pool.can_acquire(),
            first != second,
        ensures
            ({
                let e = self.created(first);
                let deleted = self.create(first).delete(e);
                !deleted.create(second).is_valid(e)
            }),
    {
        self.lemma_recycled_slot_is_reissued(first, second);
    }
}

/// One call on an [`EntityManager`] that changes it.
pub enum RegistryOp {
    /// A creation that draws the given identifier.
    Create(u128),
    /// A deletion of the given entity.
    Delete(Entity),
}

impl RegistryView {
    /// The registry after one call.
    pub open spec fn apply(self, op: RegistryOp) -> RegistryView {
        match op {
            RegistryOp::Create(uuid) => self.create(uuid),
            RegistryOp::Delete(entity) => self.delete(entity),
        }
    }

    /// The registry that a new manager arrives at through the given calls,
    /// made in order.
    pub open spec fn replay(ops: Seq<RegistryOp>) -> RegistryView
        decreases ops.len(),
    {
        if ops.len() == 0 {
            RegistryView::fresh()
        } else {
            RegistryView::replay(ops.drop_last()).apply(ops.last())
        }
    }

    /// Whatever creations and deletions are made, in whatever order, the
    /// bookkeeping stays consistent and a further creation is possible, as
    /// long as the calls are fewer than the slot numbers that the machine
    /// has.
    pub proof fn lemma_replay_wf(ops: Seq<RegistryOp>)
        requires
            ops.len() + 1 < usize::MAX,
        ensures
            RegistryView::replay(ops).wf(),
            RegistryView::replay(ops).pool.next_id <= ops.len() + 1,
            RegistryView::replay(ops).pool.can_acquire(),
        decreases ops.len(),
    {
        if ops.len() > 0 {
            let before = RegistryView::replay(ops.drop_last());
            RegistryView::lemma_replay_wf(ops.drop_last());
            match ops.last() {
                RegistryOp::Create(uuid) => {
                    before.lemma_create_preserves_wf(uuid);
                },
                RegistryOp::Delete(entity) => {
                    before.lemma_delete_preserves_wf(entity);
                },
            }
        }
    }

    /// Identity uniqueness: after any sequence of creations and deletions,
    /// two entities that are valid at the same time and differ in index or
    /// identifier differ in index, so that no slot, and no pair of index and
    /// identifier, stands for two of them.
    pub proof fn lemma_identities_are_unique(ops: Seq<RegistryOp>, a: Entity, b: Entity)
        requires
            ops.len() + 1 < usize::MAX,
            RegistryView::replay(ops).is_valid(a),
            RegistryView::replay(ops).is_valid(b),
            a != b,
        ensures
            a.index != b.index,
            a.index != 0,
            b.index != 0,
    {
        RegistryView::lemma_replay_wf(ops);
    }

    /// After any sequence of creations and deletions, the next creation
    /// issues an index that no valid entity has.
    pub proof fn lemma_next_creation_is_fresh(ops: Seq<RegistryOp>, uuid: u128, other: Entity)
        requires
            ops.len() + 1 < usize::MAX,
            RegistryView::replay(ops).is_valid(other),
        ensures
            RegistryView::replay(ops).created(uuid).index != other.index,
            RegistryView::replay(ops).create(uuid).is_valid(other),
            RegistryView::replay(ops).create(uuid).is_valid(RegistryView::replay(ops).created(uuid)),
    {
        RegistryView::lemma_replay_wf(ops);
        RegistryView::replay(ops).lemma_created_is_fresh(uuid, other);
    }
}

} // verus!
