use bevy_ecs::entity::Entity;
use physics_adapter::bridge::entity_id_of;
use physics_adapter::bridge::entity_of_handle;
use physics_adapter::bridge::entity_of_joint_handle;
use physics_adapter::bridge::handle_of_entity;
use physics_adapter::bridge::joint_handle_of_entity;
use physics_adapter::codec::decode_joint;
use physics_adapter::codec::decode_object;
use physics_adapter::codec::encode_joint;
use physics_adapter::codec::encode_object;
use physics_adapter::codec::EncodeError;
use physics_adapter::codec::EntityId;
use physics_adapter::codec::IntoEntity;
use physics_adapter::codec::IntoHandle;
use physics_adapter::codec::JointHandle;
use physics_adapter::codec::ObjectHandle;

#[test]
fn object_round_trip() {
    let e = EntityId { slot: 11, generation: 3 };
    let h = encode_object(e).unwrap();
    assert_eq!(h.slot, 11);
    assert_eq!(h.generation, 3);
    assert_eq!(decode_object(h), e);
}

#[test]
fn joint_round_trip() {
    let e = EntityId { slot: 7, generation: 9 };
    let j = encode_joint(e).unwrap();
    assert_eq!(j.0.slot, 7);
    assert_eq!(j.0.generation, 9);
    assert_eq!(decode_joint(j), e);
}

#[test]
fn handle_to_entity_round_trip() {
    let h = ObjectHandle { slot: 123, generation: 456 };
    assert_eq!(encode_object(decode_object(h)), Ok(h));
    let j = JointHandle(h);
    assert_eq!(encode_joint(decode_joint(j)), Ok(j));
}

#[test]
fn distinct_entities_encode_distinctly() {
    let e1 = EntityId { slot: 1, generation: 0 };
    let e2 = EntityId { slot: 0, generation: 1 };
    assert_ne!(encode_object(e1).unwrap(), encode_object(e2).unwrap());
    assert_ne!(encode_joint(e1).unwrap(), encode_joint(e2).unwrap());
}

#[test]
fn generation_overflow_rejected() {
    let e = EntityId { slot: 1, generation: 1 << 32 };
    assert_eq!(encode_object(e), Err(EncodeError::GenerationOutOfRange));
    assert_eq!(encode_joint(e), Err(EncodeError::GenerationOutOfRange));
}

#[test]
fn slot_overflow_rejected() {
    let e = EntityId { slot: 1 << 32, generation: 0 };
    assert_eq!(encode_object(e), Err(EncodeError::SlotOutOfRange));
    let both = EntityId { slot: u64::MAX, generation: u64::MAX };
    assert_eq!(encode_object(both), Err(EncodeError::SlotOutOfRange));
    assert_eq!(encode_joint(both), Err(EncodeError::SlotOutOfRange));
}

#[test]
fn boundary_values_encode() {
    let e = EntityId { slot: u32::MAX as u64, generation: u32::MAX as u64 };
    let h = encode_object(e).unwrap();
    assert_eq!(h.slot, u32::MAX);
    assert_eq!(h.generation, u32::MAX);
    assert_eq!(decode_object(h), e);
}

#[test]
fn trait_conversions_match_free_functions() {
    let e = EntityId { slot: 8, generation: 2 };
    let h: ObjectHandle = e.handle();
    assert_eq!(h, encode_object(e).unwrap());
    let j: JointHandle = e.handle();
    assert_eq!(j, encode_joint(e).unwrap());
    assert_eq!(h.entity(), e);
    assert_eq!(j.entity(), e);
}

#[test]
fn bevy_entity_to_handles() {
    let e = Entity::from_raw(42);
    let h = handle_of_entity(e);
    assert_eq!(h, ObjectHandle { slot: 42, generation: 0 });
    let j = joint_handle_of_entity(e);
    assert_eq!(j.0, h);
    assert_eq!(entity_id_of(e), EntityId { slot: 42, generation: 0 });
}

#[test]
fn bevy_entity_rebuilt_from_handle() {
    let h = ObjectHandle { slot: 3, generation: 7 };
    let e = entity_of_handle(h);
    assert_eq!(e.index(), 3);
    assert_eq!(e.generation(), 7);
    assert_eq!(e, Entity::from_bits((7u64 << 32) | 3));
    let e2 = entity_of_joint_handle(JointHandle(h));
    assert_eq!(e2, e);
}

#[test]
fn bevy_entity_implements_into_handle() {
    let e = Entity::from_bits((2u64 << 32) | 6);
    let h: ObjectHandle = e.handle();
    assert_eq!(h, ObjectHandle { slot: 6, generation: 2 });
    let j: JointHandle = e.handle();
    assert_eq!(j.0, h);
}

#[test]
fn bevy_entity_round_trip_through_handle() {
    let issued = Entity::from_bits((9u64 << 32) | 31);
    let rebuilt = entity_of_handle(handle_of_entity(issued));
    assert_eq!(rebuilt, issued);
}
