//! Codec between entity identifiers and physics handles.
//!
//! Both identifier spaces carry the same two counters — a reusable slot
//! index and a generation counter — in different layouts. The codec is a
//! pure, stateless bit rearrangement: it performs no lookup and keeps no
//! side table. Encoding fails loudly when a counter is wider than the
//! handle representation allots, rather than truncating; decoding is total.

use vstd::prelude::*;

verus! {

/// Identifier issued by the entity system: a reusable slot index and the
/// generation counter incremented each time that slot is reused. The entity
/// system's counters may in principle be wider than a physics handle's
/// fields, so both are carried at full width here.
#[derive(Clone, Copy, PartialEq, Eq, Structural, Debug, Hash)]
pub struct EntityId {
    pub slot: u64,
    pub generation: u64,
}

/// Handle by which the physics solver addresses one simulated object:
/// the same slot index and generation counter, each held in the 32 bits
/// the handle representation allots.
#[derive(Clone, Copy, PartialEq, Eq, Structural, Debug, Hash)]
pub struct ObjectHandle {
    pub slot: u32,
    pub generation: u32,
}

/// Handle by which the physics solver addresses one joint: a single-field
/// wrapper around the generic object handle, sharing its layout.
#[derive(Clone, Copy, PartialEq, Eq, Structural, Debug, Hash)]
pub struct JointHandle(pub ObjectHandle);

/// Why an entity identifier could not be encoded as a physics handle.
#[derive(Clone, Copy, PartialEq, Eq, Structural, Debug)]
pub enum EncodeError {
    /// The slot index does not fit in the handle's slot field.
    SlotOutOfRange,
    /// The generation counter does not fit in the handle's generation field.
    GenerationOutOfRange,
}

/// An entity identifier fits in a physics handle exactly when both of its
/// counters fit in the handle's 32-bit fields.
pub open spec fn fits_handle(e: EntityId) -> bool {
    e.slot <= u32::MAX && e.generation <= u32::MAX
}

/// The object handle that an in-range entity identifier encodes to.
pub open spec fn object_handle_of(e: EntityId) -> ObjectHandle {
    ObjectHandle { slot: e.slot as u32, generation: e.generation as u32 }
}

/// The entity identifier that an object handle decodes to.
pub open spec fn entity_of_object(h: ObjectHandle) -> EntityId {
    EntityId { slot: h.slot as u64, generation: h.generation as u64 }
}

/// The joint handle that an in-range entity identifier encodes to.
pub open spec fn joint_handle_of(e: EntityId) -> JointHandle {
    JointHandle(object_handle_of(e))
}

/// The entity identifier that a joint handle decodes to.
pub open spec fn entity_of_joint(j: JointHandle) -> EntityId {
    entity_of_object(j.0)
}

/// Encodes an entity identifier as a generic object handle. Returns the
/// handle exactly when both counters fit the handle's bit widths, and the
/// error naming the first counter that does not; it never truncates.
pub fn encode_object(e: EntityId) -> (r: Result<ObjectHandle, EncodeError>)
    ensures
        r is Ok <==> fits_handle(e),
        fits_handle(e) ==> r == Ok::<ObjectHandle, EncodeError>(object_handle_of(e)),
        e.slot > u32::MAX ==> r == Err::<ObjectHandle, EncodeError>(EncodeError::SlotOutOfRange),
        e.slot <= u32::MAX && e.generation > u32::MAX ==> r == Err::<ObjectHandle, EncodeError>(
            EncodeError::GenerationOutOfRange,
        ),
{
    if e.slot > u32::MAX as u64 {
        Err(EncodeError::SlotOutOfRange)
    } else if e.generation > u32::MAX as u64 {
        Err(EncodeError::GenerationOutOfRange)
    } else {
        Ok(ObjectHandle { slot: e.slot as u32, generation: e.generation as u32 })
    }
}

/// Decodes a generic object handle back to the entity identifier it was
/// encoded from. Total: every handle decodes, and always to an identifier
/// that fits back in a handle.
pub fn decode_object(h: ObjectHandle) -> (e: EntityId)
    ensures
        e == entity_of_object(h),
        fits_handle(e),
{
    EntityId { slot: h.slot as u64, generation: h.generation as u64 }
}

/// Encodes an entity identifier as a joint handle by wrapping its object
/// encoding; the failure conditions are exactly those of `encode_object`.
pub fn encode_joint(e: EntityId) -> (r: Result<JointHandle, EncodeError>)
    ensures
        r is Ok <==> fits_handle(e),
        fits_handle(e) ==> r == Ok::<JointHandle, EncodeError>(joint_handle_of(e)),
        e.slot > u32::MAX ==> r == Err::<JointHandle, EncodeError>(EncodeError::SlotOutOfRange),
        e.slot <= u32::MAX && e.generation > u32::MAX ==> r == Err::<JointHandle, EncodeError>(
            EncodeError::GenerationOutOfRange,
        ),
{
    match encode_object(e) {
        Ok(h) => Ok(JointHandle(h)),
        Err(err) => Err(err),
    }
}

/// Decodes a joint handle back to the entity identifier it was encoded
/// from, through its inner object handle.
pub fn decode_joint(j: JointHandle) -> (e: EntityId)
    ensures
        e == entity_of_joint(j),
        fits_handle(e),
{
    decode_object(j.0)
}

/// Conversion of an identifier into a physics handle of kind `H`.
/// `encodable` says when the conversion is defined — both counters fit the
/// handle's bit widths — and `target` which handle it yields.
pub trait IntoHandle<H> {
    /// Whether this identifier fits handle kind `H`.
    spec fn encodable(&self) -> bool;

    /// The handle this identifier encodes to, when it fits.
    spec fn target(&self) -> H;

    /// Encodes this identifier as a handle of kind `H`.
    fn handle(self) -> (h: H)
        requires
            self.encodable(),
        ensures
            h == self.target(),
    ;
}

/// Conversion of a physics handle back into the entity identifier it was
/// encoded from; total, since every handle's counters fit the identifier.
pub trait IntoEntity {
    /// The identifier this handle decodes to.
    spec fn source(&self) -> EntityId;

    /// Decodes this handle back to its entity identifier.
    fn entity(self) -> (e: EntityId)
        ensures
            e == self.source(),
    ;
}

impl IntoHandle<ObjectHandle> for EntityId {
    open spec fn encodable(&self) -> bool {
        fits_handle(*self)
    }

    open spec fn target(&self) -> ObjectHandle {
        object_handle_of(*self)
    }

    fn handle(self) -> (h: ObjectHandle) {
        ObjectHandle { slot: self.slot as u32, generation: self.generation as u32 }
    }
}

impl IntoHandle<JointHandle> for EntityId {
    open spec fn encodable(&self) -> bool {
        fits_handle(*self)
    }

    open spec fn target(&self) -> JointHandle {
        joint_handle_of(*self)
    }

    fn handle(self) -> (h: JointHandle) {
        JointHandle(ObjectHandle { slot: self.slot as u32, generation: self.generation as u32 })
    }
}

impl IntoEntity for ObjectHandle {
    open spec fn source(&self) -> EntityId {
        entity_of_object(*self)
    }

    fn entity(self) -> (e: EntityId) {
        EntityId { slot: self.slot as u64, generation: self.generation as u64 }
    }
}

impl IntoEntity for JointHandle {
    open spec fn source(&self) -> EntityId {
        entity_of_joint(*self)
    }

    fn entity(self) -> (e: EntityId) {
        self.0.entity()
    }
}

/// Encoding then decoding is the identity on every in-range entity
/// identifier, and decoding then encoding is the identity on every handle,
/// for the object kind and the joint kind alike.
pub proof fn lemma_codec_bijection(e: EntityId, h: ObjectHandle, j: JointHandle)
    requires
        fits_handle(e),
    ensures
        entity_of_object(object_handle_of(e)) == e,
        object_handle_of(entity_of_object(h)) == h,
        entity_of_joint(joint_handle_of(e)) == e,
        joint_handle_of(entity_of_joint(j)) == j,
{
}

/// No two distinct in-range entity identifiers encode to the same handle,
/// for the object kind and the joint kind alike.
pub proof fn lemma_codec_injective(e1: EntityId, e2: EntityId)
    requires
        fits_handle(e1),
        fits_handle(e2),
        e1 != e2,
    ensures
        object_handle_of(e1) != object_handle_of(e2),
        joint_handle_of(e1) != joint_handle_of(e2),
{
    lemma_codec_bijection(e1, object_handle_of(e1), joint_handle_of(e1));
    lemma_codec_bijection(e2, object_handle_of(e2), joint_handle_of(e2));
}

/// An out-of-range entity identifier is decoded from no handle at all, so
/// the only correct answer to encoding it is a loud failure — which
/// `encode_object` and `encode_joint` promise in that very case.
pub proof fn lemma_out_of_range_has_no_handle(e: EntityId, h: ObjectHandle)
    requires
        !fits_handle(e),
    ensures
        entity_of_object(h) != e,
{
}

} // verus!
