//! Bridge to the entity system's own identifier type.
//!
//! The entity system issues its identifiers as opaque `Entity` values
//! whose slot index and generation counter are read through accessors, and
//! which can be rebuilt from a packed word whose high 32 bits are the
//! generation and whose low 32 bits are the index. The functions here move
//! between that type and this crate's identifier and handle types: only
//! the `Entity` accessors themselves are taken on trust, and the bit
//! packing around them is verified.

use vstd::prelude::*;

use bevy_ecs::entity::Entity;
use crate::codec::EntityId;
use crate::codec::IntoHandle;
use crate::codec::JointHandle;
use crate::codec::ObjectHandle;
use crate::codec::fits_handle;

verus! {

#[verifier::external_type_specification]
#[verifier::external_body]
pub struct ExEntity(Entity);

/// The slot index the entity system stamped into an identifier. Named: the
/// field is private and only the accessor shows it, but it is a function
/// of the identifier value alone.
pub uninterp spec fn entity_index(e: Entity) -> u32;

/// The generation counter the entity system stamped into an identifier.
/// Named for the same reason as `entity_index`.
pub uninterp spec fn entity_generation(e: Entity) -> u32;

/// Relies on bevy_ecs's `Entity::index`: returns the identifier's slot
/// index, a function of the value alone.
pub assume_specification[ Entity::index ](e: Entity) -> (r: u32)
    ensures
        r == entity_index(e),
;

/// Relies on bevy_ecs's `Entity::generation`: returns the identifier's
/// generation counter, a function of the value alone.
pub assume_specification[ Entity::generation ](e: Entity) -> (r: u32)
    ensures
        r == entity_generation(e),
;

/// Relies on bevy_ecs's `Entity::from_bits`: rebuilds the identifier whose
/// generation counter is the high 32 bits of `bits` and whose slot index
/// is the low 32 bits.
pub assume_specification[ Entity::from_bits ](bits: u64) -> (e: Entity)
    ensures
        entity_index(e) == bits & 0xffff_ffff,
        entity_generation(e) == bits >> 32,
;

/// This crate's identifier for an entity-system `Entity`. Always in range
/// for a physics handle: the entity system's counters are exactly as wide
/// as the handle's fields.
pub fn entity_id_of(e: Entity) -> (id: EntityId)
    ensures
        id.slot == entity_index(e),
        id.generation == entity_generation(e),
        fits_handle(id),
{
    EntityId { slot: e.index() as u64, generation: e.generation() as u64 }
}

/// The object handle addressing an entity-system `Entity`: the handle
/// carrying the very counters the entity system stamped into it.
pub fn handle_of_entity(e: Entity) -> (h: ObjectHandle)
    ensures
        h.slot == entity_index(e),
        h.generation == entity_generation(e),
{
    ObjectHandle { slot: e.index(), generation: e.generation() }
}

/// The joint handle addressing an entity-system `Entity`, through the same
/// counters as the object handle it wraps.
pub fn joint_handle_of_entity(e: Entity) -> (j: JointHandle)
    ensures
        j.0.slot == entity_index(e),
        j.0.generation == entity_generation(e),
{
    JointHandle(handle_of_entity(e))
}

/// Rebuilds the entity-system `Entity` a handle addresses, by packing the
/// handle's generation and slot into the entity system's bit layout.
pub fn entity_of_handle(h: ObjectHandle) -> (e: Entity)
    ensures
        entity_index(e) == h.slot,
        entity_generation(e) == h.generation,
{
    let s: u64 = h.slot as u64;
    let g: u64 = h.generation as u64;
    let bits: u64 = (g << 32) | s;
    proof {
        assert(s <= 0xffff_ffff && g <= 0xffff_ffff ==> (((g << 32) | s) & 0xffff_ffff == s && ((g
            << 32) | s) >> 32 == g)) by (bit_vector);
    }
    Entity::from_bits(bits)
}

impl IntoHandle<ObjectHandle> for Entity {
    /// Every entity-system identifier fits a handle: its counters are
    /// exactly as wide as the handle's fields.
    open spec fn encodable(&self) -> bool {
        true
    }

    open spec fn target(&self) -> ObjectHandle {
        ObjectHandle { slot: entity_index(*self), generation: entity_generation(*self) }
    }

    fn handle(self) -> (h: ObjectHandle) {
        handle_of_entity(self)
    }
}

impl IntoHandle<JointHandle> for Entity {
    open spec fn encodable(&self) -> bool {
        true
    }

    open spec fn target(&self) -> JointHandle {
        JointHandle(ObjectHandle { slot: entity_index(*self), generation: entity_generation(*self) })
    }

    fn handle(self) -> (j: JointHandle) {
        joint_handle_of_entity(self)
    }
}

/// Rebuilds the entity-system `Entity` a joint handle addresses, through
/// its inner object handle.
pub fn entity_of_joint_handle(j: JointHandle) -> (e: Entity)
    ensures
        entity_index(e) == j.0.slot,
        entity_generation(e) == j.0.generation,
{
    entity_of_handle(j.0)
}

} // verus!
