use physics_adapter::codec::encode_object;
use physics_adapter::codec::EntityId;
use physics_adapter::codec::ObjectHandle;
use physics_adapter::component_set::ComponentSet;
use physics_adapter::component_set::ComponentSetMut;
use physics_adapter::component_set::ComponentSetOption;
use physics_adapter::component_set::ComponentWrapper;
use physics_adapter::component_set::QueryComponentSetMut;
use physics_adapter::time::Time;
use physics_adapter::time::TimeInterface;

fn handle_for(slot: u64, generation: u64) -> ObjectHandle {
    encode_object(EntityId { slot, generation }).unwrap()
}

fn id(slot: u64, generation: u64) -> EntityId {
    EntityId { slot, generation }
}

#[test]
fn insert_then_get() {
    let mut set: QueryComponentSetMut<i64> = QueryComponentSetMut::new();
    set.insert(id(1, 0), ComponentWrapper(10));
    assert_eq!(set.get(handle_for(1, 0)), Some(&10));
}

#[test]
fn absent_is_quiet() {
    let mut set: QueryComponentSetMut<i64> = QueryComponentSetMut::new();
    set.insert(id(1, 0), ComponentWrapper(10));
    // stale handle: same slot, a later generation
    assert_eq!(set.get(handle_for(1, 1)), None);
    // no entity was ever stored at this slot
    assert_eq!(set.get(handle_for(9, 0)), None);
    // writes through unresolved handles are silent no-ops
    set.set_internal(handle_for(1, 1), 99);
    assert_eq!(set.map_mut_internal(handle_for(9, 0), |v: i64| (v, ())), None);
    assert_eq!(set.get(handle_for(1, 0)), Some(&10));
}

#[test]
fn removed_entity_is_absent() {
    let mut set: QueryComponentSetMut<i64> = QueryComponentSetMut::new();
    set.insert(id(4, 2), ComponentWrapper(7));
    set.remove(id(4, 2));
    assert_eq!(set.get(handle_for(4, 2)), None);
    set.set_internal(handle_for(4, 2), 50);
    assert_eq!(set.get(handle_for(4, 2)), None);
}

#[test]
fn set_then_get_round_trip() {
    let mut set: QueryComponentSetMut<i64> = QueryComponentSetMut::new();
    set.insert(id(2, 5), ComponentWrapper(1));
    set.set_internal(handle_for(2, 5), 42);
    assert_eq!(set.get(handle_for(2, 5)), Some(&42));
}

#[test]
fn map_mut_applies_once_and_stores() {
    let mut set: QueryComponentSetMut<i64> = QueryComponentSetMut::new();
    set.insert(id(3, 1), ComponentWrapper(10));
    let r = set.map_mut_internal(handle_for(3, 1), |v: i64| (v + 5, v * 2));
    assert_eq!(r, Some(20));
    assert_eq!(set.get(handle_for(3, 1)), Some(&15));
}

#[test]
fn enumeration_visits_exactly_the_stored_set() {
    let mut set: QueryComponentSetMut<i64> = QueryComponentSetMut::new();
    set.insert(id(1, 0), ComponentWrapper(100));
    set.insert(id(2, 0), ComponentWrapper(200));
    set.insert(id(3, 0), ComponentWrapper(300));
    let mut seen: Vec<(u32, i64)> = Vec::new();
    let n = set.entry_count();
    let mut i = 0;
    while i < n {
        seen.push((set.handle_at(i).slot, *set.value_at(i)));
        i += 1;
    }
    seen.sort();
    assert_eq!(seen, vec![(1, 100), (2, 200), (3, 300)]);

    set.remove(id(2, 0));
    let mut seen: Vec<(u32, i64)> = Vec::new();
    let n = set.entry_count();
    let mut i = 0;
    while i < n {
        seen.push((set.handle_at(i).slot, *set.value_at(i)));
        i += 1;
    }
    seen.sort();
    assert_eq!(seen, vec![(1, 100), (3, 300)]);
}

#[test]
fn replacing_insert_keeps_one_entry() {
    let mut set: QueryComponentSetMut<i64> = QueryComponentSetMut::new();
    set.insert(id(5, 0), ComponentWrapper(1));
    set.insert(id(5, 0), ComponentWrapper(2));
    assert_eq!(set.entry_count(), 1);
    assert_eq!(set.get(handle_for(5, 0)), Some(&2));
}

#[test]
fn size_hint_means_unknown() {
    let mut set: QueryComponentSetMut<i64> = QueryComponentSetMut::new();
    assert_eq!(set.size_hint(), 0);
    set.insert(id(1, 0), ComponentWrapper(1));
    assert_eq!(set.size_hint(), 0);
}

#[test]
fn tick_timestamp_supersedes() {
    let mut t = Time::default();
    assert_eq!(t.timestamp(), 0);
    t.update_with_timestamp(100);
    t.update_with_timestamp(250);
    assert_eq!(t.timestamp(), 250);
}

#[test]
fn default_delta_is_zero_seconds() {
    let t = Time::default();
    assert_eq!(f64::from_bits(t.delta_seconds_bits()), 0.0);
    assert_eq!(f64::from_bits(t.delta_seconds_bits()) as f32, 0.0f32);
}

#[test]
fn update_leaves_delta_untouched() {
    let mut t = Time::default();
    let before = t.delta_seconds_bits();
    t.update_with_timestamp(77);
    assert_eq!(t.delta_seconds_bits(), before);
}
