//! Component-set view of entity-keyed storage.
//!
//! The physics solver expects to address simulated objects through its own
//! handles and to treat their state as one dense component table per
//! component kind: point lookup, wholesale or in-place mutation, and a
//! full-set walk. The entity system, for its part, keys the same state by
//! entity identifier and wraps each value in a single-field carrier type so
//! that its storage can be typed per physics concept. The adapter here owns
//! that translation: every incoming handle is decoded to an entity
//! identifier, the carrier is unwrapped on the way out and rewrapped on the
//! way in, and a handle that does not resolve to a live entry is answered
//! quietly — lookups return nothing and mutations do nothing, never an
//! error.
//!
//! The full-set walk is the checked, order-agnostic path: it holds the set
//! by shared borrow for the walk's whole duration, so the exclusivity that
//! an engine's unchecked direct scan must demand of its callers holds here
//! by construction, and no separate escape hatch is offered.

use vstd::prelude::*;

use crate::codec::EntityId;
use crate::codec::ObjectHandle;
use crate::codec::entity_of_object;
use crate::codec::fits_handle;
use crate::codec::object_handle_of;

verus! {

/// Single-field carrier wrapped around every physics-relevant value held
/// by the entity system, solely so that storage can be typed per physics
/// concept. The adapter unwraps and rewraps it transparently; it never
/// crosses to the physics side.
pub struct ComponentWrapper<T>(pub T);

/// Adapter presenting one entity-keyed component store to the physics
/// solver as a component set addressed by handles. It is the sole owner of
/// the entries it holds; the solver reads, enumerates and mutates them
/// through the operations below, and the entity system populates them
/// through `insert` and `remove`.
pub struct QueryComponentSetMut<T> {
    entries: Vec<(EntityId, ComponentWrapper<T>)>,
}

impl<T> QueryComponentSetMut<T> {
    /// The stored entries, in enumeration order.
    pub closed spec fn spec_pairs(self) -> Seq<(EntityId, ComponentWrapper<T>)> {
        self.entries@
    }

    /// Well-formedness: no entity identifier is stored twice, and every
    /// stored identifier fits a physics handle, so that each entry can be
    /// addressed by exactly one handle.
    pub open spec fn wf(self) -> bool {
        &&& forall|i: int, j: int|
            0 <= i < j < self.spec_pairs().len() ==> (#[trigger] self.spec_pairs()[i]).0 != (
            #[trigger] self.spec_pairs()[j]).0
        &&& forall|i: int|
            0 <= i < self.spec_pairs().len() ==> fits_handle((#[trigger] self.spec_pairs()[i]).0)
    }

    /// Whether some entry is stored under `e`.
    pub open spec fn spec_contains(self, e: EntityId) -> bool {
        exists|i: int|
            0 <= i < self.spec_pairs().len() && (#[trigger] self.spec_pairs()[i]).0 == e
    }

    /// The unwrapped value stored under `e`, when one is.
    pub open spec fn value_of(self, e: EntityId) -> T {
        self.spec_pairs()[choose|i: int|
            0 <= i < self.spec_pairs().len() && (#[trigger] self.spec_pairs()[i]).0 == e].1.0
    }

    /// The store as a map from entity identifier to unwrapped value; the
    /// contracts below speak of this view.
    pub open spec fn contents(self) -> Map<EntityId, T> {
        Map::new(|e: EntityId| self.spec_contains(e), |e: EntityId| self.value_of(e))
    }

    /// The entry at a position determines the map view at its key.
    pub proof fn lemma_contents_at(self, i: int)
        requires
            self.wf(),
            0 <= i < self.spec_pairs().len(),
        ensures
            self.contents().dom().contains(self.spec_pairs()[i].0),
            self.contents()[self.spec_pairs()[i].0] == self.spec_pairs()[i].1.0,
    {
        let e = self.spec_pairs()[i].0;
        assert(self.spec_contains(e));
        let j = choose|j: int|
            0 <= j < self.spec_pairs().len() && (#[trigger] self.spec_pairs()[j]).0 == e;
        if i < j {
            assert(self.spec_pairs()[i].0 != self.spec_pairs()[j].0);
        } else if j < i {
            assert(self.spec_pairs()[j].0 != self.spec_pairs()[i].0);
        }
    }

    /// An empty component set.
    pub fn new() -> (s: Self)
        ensures
            s.wf(),
            s.contents() == Map::<EntityId, T>::empty(),
            s.spec_pairs().len() == 0,
    {
        let s = QueryComponentSetMut { entries: Vec::new() };
        proof {
            assert(s.contents() =~= Map::<EntityId, T>::empty());
        }
        s
    }

    /// Position of the entry stored under `e`, if any.
    fn position_of(&self, e: EntityId) -> (r: Option<usize>)
        ensures
            match r {
                Some(i) => i < self.spec_pairs().len() && self.spec_pairs()[i as int].0 == e,
                None => !self.spec_contains(e),
            },
    {
        let n = self.entries.len();
        let mut i: usize = 0;
        while i < n
            invariant
                n == self.spec_pairs().len(),
                i <= n,
                forall|j: int| 0 <= j < i ==> (#[trigger] self.spec_pairs()[j]).0 != e,
            decreases n - i,
        {
            if self.entries[i].0 == e {
                return Some(i);
            }
            i += 1;
        }
        None
    }

    /// Appending an entry under a fresh identifier inserts its value into
    /// the map view.
    proof fn lemma_contents_push(pre: Self, post: Self, e: EntityId, v: T)
        requires
            pre.wf(),
            !pre.spec_contains(e),
            fits_handle(e),
            post.spec_pairs() == pre.spec_pairs().push((e, ComponentWrapper(v))),
        ensures
            post.wf(),
            post.contents() == pre.contents().insert(e, v),
    {
        let n = pre.spec_pairs().len() as int;
        assert forall|i: int, j: int| 0 <= i < j < post.spec_pairs().len() implies (
        #[trigger] post.spec_pairs()[i]).0 != (#[trigger] post.spec_pairs()[j]).0 by {
            assert(post.spec_pairs()[i] == pre.spec_pairs()[i]);
            if j == n {
                if pre.spec_pairs()[i].0 == e {
                    assert(pre.spec_contains(e));
                }
            } else {
                assert(post.spec_pairs()[j] == pre.spec_pairs()[j]);
            }
        }
        assert forall|i: int| 0 <= i < post.spec_pairs().len() implies fits_handle((
        #[trigger] post.spec_pairs()[i]).0) by {
            if i < n {
                assert(post.spec_pairs()[i] == pre.spec_pairs()[i]);
            }
        }
        assert(post.wf());
        assert forall|k: EntityId| #[trigger] post.contents().dom().contains(k) implies
            pre.contents().insert(e, v).dom().contains(k) && post.contents()[k]
            == pre.contents().insert(e, v)[k] by {
            let j = choose|j: int|
                0 <= j < post.spec_pairs().len() && (#[trigger] post.spec_pairs()[j]).0 == k;
            post.lemma_contents_at(j);
            if j < n {
                assert(post.spec_pairs()[j] == pre.spec_pairs()[j]);
                pre.lemma_contents_at(j);
                if k == e {
                    assert(pre.spec_contains(e));
                }
            }
        }
        assert forall|k: EntityId| pre.contents().insert(e, v).dom().contains(k) implies
            #[trigger] post.contents().dom().contains(k) by {
            if k == e {
                assert(post.spec_pairs()[n].0 == e);
                assert(post.spec_contains(e));
            } else {
                let j = choose|j: int|
                    0 <= j < pre.spec_pairs().len() && (#[trigger] pre.spec_pairs()[j]).0 == k;
                assert(post.spec_pairs()[j] == pre.spec_pairs()[j]);
                assert(post.spec_contains(k));
            }
        }
        assert(post.contents() =~= pre.contents().insert(e, v));
    }

    /// Replacing the value of the entry at a position updates the map view
    /// at that entry's key and nothing else.
    proof fn lemma_contents_update(pre: Self, post: Self, i: int, v: T)
        requires
            pre.wf(),
            0 <= i < pre.spec_pairs().len(),
            post.spec_pairs() == pre.spec_pairs().update(i, (pre.spec_pairs()[i].0,
            ComponentWrapper(v))),
        ensures
            post.wf(),
            post.contents() == pre.contents().insert(pre.spec_pairs()[i].0, v),
    {
        let e = pre.spec_pairs()[i].0;
        assert forall|a: int, b: int| 0 <= a < b < post.spec_pairs().len() implies (
        #[trigger] post.spec_pairs()[a]).0 != (#[trigger] post.spec_pairs()[b]).0 by {
            assert((#[trigger] pre.spec_pairs()[a]).0 != (#[trigger] pre.spec_pairs()[b]).0);
        }
        assert forall|a: int| 0 <= a < post.spec_pairs().len() implies fits_handle((
        #[trigger] post.spec_pairs()[a]).0) by {
            assert(fits_handle((#[trigger] pre.spec_pairs()[a]).0));
        }
        assert(post.wf());
        assert forall|k: EntityId| #[trigger] post.contents().dom().contains(k) implies
            pre.contents().insert(e, v).dom().contains(k) && post.contents()[k]
            == pre.contents().insert(e, v)[k] by {
            let j = choose|j: int|
                0 <= j < post.spec_pairs().len() && (#[trigger] post.spec_pairs()[j]).0 == k;
            post.lemma_contents_at(j);
            assert(pre.spec_pairs()[j].0 == k);
            pre.lemma_contents_at(j);
            if j != i {
                assert(post.spec_pairs()[j] == pre.spec_pairs()[j]);
                if k == e {
                    if j < i {
                        assert(pre.spec_pairs()[j].0 != pre.spec_pairs()[i].0);
                    } else {
                        assert(pre.spec_pairs()[i].0 != pre.spec_pairs()[j].0);
                    }
                }
            }
        }
        assert forall|k: EntityId| pre.contents().insert(e, v).dom().contains(k) implies
            #[trigger] post.contents().dom().contains(k) by {
            let j = choose|j: int|
                0 <= j < pre.spec_pairs().len() && (#[trigger] pre.spec_pairs()[j]).0 == k;
            assert(post.spec_pairs()[j].0 == k);
            assert(post.spec_contains(k));
        }
        assert(post.contents() =~= pre.contents().insert(e, v));
    }

    /// Dropping the entry at a position removes its key from the map view
    /// and nothing else.
    proof fn lemma_contents_remove(pre: Self, post: Self, i: int)
        requires
            pre.wf(),
            0 <= i < pre.spec_pairs().len(),
            post.spec_pairs() == pre.spec_pairs().remove(i),
        ensures
            post.wf(),
            post.contents() == pre.contents().remove(pre.spec_pairs()[i].0),
    {
        let e = pre.spec_pairs()[i].0;
        let n = post.spec_pairs().len() as int;
        assert forall|a: int, b: int| 0 <= a < b < n implies (
        #[trigger] post.spec_pairs()[a]).0 != (#[trigger] post.spec_pairs()[b]).0 by {
            let pa: int = if a < i { a } else { a + 1 };
            let pb: int = if b < i { b } else { b + 1 };
            assert(post.spec_pairs()[a] == pre.spec_pairs()[pa]);
            assert(post.spec_pairs()[b] == pre.spec_pairs()[pb]);
            assert(pre.spec_pairs()[pa].0 != pre.spec_pairs()[pb].0);
        }
        assert forall|a: int| 0 <= a < n implies fits_handle((
        #[trigger] post.spec_pairs()[a]).0) by {
            let pa: int = if a < i { a } else { a + 1 };
            assert(post.spec_pairs()[a] == pre.spec_pairs()[pa]);
            assert(fits_handle(pre.spec_pairs()[pa].0));
        }
        assert(post.wf());
        assert forall|k: EntityId| #[trigger] post.contents().dom().contains(k) implies
            pre.contents().remove(e).dom().contains(k) && post.contents()[k]
            == pre.contents().remove(e)[k] by {
            let j = choose|j: int|
                0 <= j < post.spec_pairs().len() && (#[trigger] post.spec_pairs()[j]).0 == k;
            post.lemma_contents_at(j);
            let pj: int = if j < i { j } else { j + 1 };
            assert(post.spec_pairs()[j] == pre.spec_pairs()[pj]);
            pre.lemma_contents_at(pj);
            if k == e {
                if pj < i {
                    assert(pre.spec_pairs()[pj].0 != pre.spec_pairs()[i].0);
                } else {
                    assert(pre.spec_pairs()[i].0 != pre.spec_pairs()[pj].0);
                }
            }
        }
        assert forall|k: EntityId| pre.contents().remove(e).dom().contains(k) implies
            #[trigger] post.contents().dom().contains(k) by {
            let j = choose|j: int|
                0 <= j < pre.spec_pairs().len() && (#[trigger] pre.spec_pairs()[j]).0 == k;
            if j < i {
                assert(post.spec_pairs()[j] == pre.spec_pairs()[j]);
                assert(post.spec_contains(k));
            } else {
                if j == i {
                    assert(false);
                }
                assert(post.spec_pairs()[j - 1] == pre.spec_pairs()[j]);
                assert(post.spec_contains(k));
            }
        }
        assert(post.contents() =~= pre.contents().remove(e));
    }

    /// Stores `wrapped` for entity `e`, replacing any entry already held
    /// under it. This is the entity-system side of the adapter: components
    /// arrive wrapped, keyed by identifier, and only identifiers a physics
    /// handle can address participate in simulation.
    pub fn insert(&mut self, e: EntityId, wrapped: ComponentWrapper<T>)
        requires
            old(self).wf(),
            fits_handle(e),
        ensures
            final(self).wf(),
            final(self).contents() == old(self).contents().insert(e, wrapped.0),
    {
        match self.position_of(e) {
            Some(i) => {
                let ghost pre = *self;
                self.entries.remove(i);
                self.entries.insert(i, (e, wrapped));
                proof {
                    assert(self.spec_pairs() =~= pre.spec_pairs().update(
                        i as int,
                        (e, ComponentWrapper(wrapped.0)),
                    ));
                    Self::lemma_contents_update(pre, *self, i as int, wrapped.0);
                }
            },
            None => {
                let ghost pre = *self;
                self.entries.push((e, wrapped));
                proof {
                    assert(self.spec_pairs() =~= pre.spec_pairs().push(
                        (e, ComponentWrapper(wrapped.0)),
                    ));
                    Self::lemma_contents_push(pre, *self, e, wrapped.0);
                }
            },
        }
    }

    /// Drops the entry held under `e`, if any; the entity-system side of
    /// component removal or entity destruction.
    pub fn remove(&mut self, e: EntityId)
        requires
            old(self).wf(),
        ensures
            final(self).wf(),
            final(self).contents() == old(self).contents().remove(e),
    {
        match self.position_of(e) {
            Some(i) => {
                let ghost pre = *self;
                self.entries.remove(i);
                proof {
                    assert(self.spec_pairs() =~= pre.spec_pairs().remove(i as int));
                    Self::lemma_contents_remove(pre, *self, i as int);
                }
            },
            None => {
                proof {
                    assert(self.contents() =~= self.contents().remove(e));
                }
            },
        }
    }

    /// Mutation round-trip: writing a value under a live handle — the
    /// relation `set_internal` promises — leaves exactly that value to be
    /// read back through the same handle.
    pub proof fn lemma_mutation_round_trip(pre: Self, post: Self, handle: ObjectHandle, v: T)
        requires
            pre.wf(),
            pre.contents().dom().contains(entity_of_object(handle)),
            post.contents() == pre.contents().insert(entity_of_object(handle), v),
        ensures
            post.contents().dom().contains(entity_of_object(handle)),
            post.contents()[entity_of_object(handle)] == v,
    {
    }

    /// A handle whose entity's entry was removed resolves to nothing
    /// afterwards — the stale reference is answered quietly, never as an
    /// error.
    pub proof fn lemma_stale_handle_absent(pre: Self, post: Self, e: EntityId)
        requires
            post.contents() == pre.contents().remove(e),
        ensures
            !post.contents().dom().contains(e),
    {
    }
}

/// Point-read capability of the component-set contract: the physics solver
/// looks one component up by handle. `contents_view` is the abstract map
/// the capability contracts speak of, and `inv` the validity an adapter
/// maintains across calls.
pub trait ComponentSetOption<T> {
    /// The set, viewed as a map from entity identifier to component.
    spec fn contents_view(&self) -> Map<EntityId, T>;

    /// Validity of the adapter's state.
    spec fn inv(&self) -> bool;

    /// Point read: the component under the handle's entity, or nothing —
    /// not an error — when the handle is stale or the component is absent.
    fn get(&self, handle: ObjectHandle) -> (r: Option<&T>)
        requires
            self.inv(),
        ensures
            self.contents_view().dom().contains(entity_of_object(handle)) ==> (r matches Some(v)
                && *v == self.contents_view()[entity_of_object(handle)]),
            !self.contents_view().dom().contains(entity_of_object(handle)) ==> r is None,
    ;
}

/// Full-set enumeration capability of the component-set contract: a walk
/// over every stored component exactly once, in unspecified order, as a
/// count of positions and per-position access.
pub trait ComponentSet<T>: ComponentSetOption<T> {
    /// The stored entries in the order the walk visits them.
    spec fn entries_view(&self) -> Seq<(EntityId, T)>;

    /// Hint of the set's size. Zero means "unknown"; callers must not use
    /// it to size anything.
    fn size_hint(&self) -> usize;

    /// Number of positions the walk visits.
    fn entry_count(&self) -> (n: usize)
        requires
            self.inv(),
        ensures
            n == self.entries_view().len(),
    ;

    /// The handle addressing the entry at position `i` of the walk.
    fn handle_at(&self, i: usize) -> (h: ObjectHandle)
        requires
            self.inv(),
            i < self.entries_view().len(),
        ensures
            h == object_handle_of(self.entries_view()[i as int].0),
    ;

    /// The component at position `i` of the walk, unwrapped.
    fn value_at(&self, i: usize) -> (v: &T)
        requires
            self.inv(),
            i < self.entries_view().len(),
        ensures
            *v == self.entries_view()[i as int].1,
    ;

    /// Enumeration completeness: the walk visits every stored component
    /// exactly once. Distinct positions carry distinct handles, an
    /// identifier is in the map view exactly when some position holds it,
    /// and each position's value is the map view's value at its key.
    proof fn lemma_enumeration_complete(&self)
        requires
            self.inv(),
        ensures
            forall|i: int, j: int|
                0 <= i < j < self.entries_view().len() ==> object_handle_of(
                    (#[trigger] self.entries_view()[i]).0,
                ) != object_handle_of((#[trigger] self.entries_view()[j]).0),
            forall|e: EntityId|
                #[trigger] self.contents_view().dom().contains(e) <==> exists|i: int|
                    0 <= i < self.entries_view().len() && (#[trigger] self.entries_view()[i]).0
                        == e,
            forall|i: int|
                0 <= i < self.entries_view().len() ==> self.contents_view()[(
                #[trigger] self.entries_view()[i]).0] == self.entries_view()[i].1,
    ;
}

/// Point-write capability of the component-set contract: wholesale
/// replacement and in-place mutation by handle, both silently doing
/// nothing when the handle does not resolve to a live component.
pub trait ComponentSetMut<T>: ComponentSetOption<T> {
    /// Replaces the component under the handle's entity wholesale; a
    /// silent no-op when the handle is stale or the component is absent.
    fn set_internal(&mut self, handle: ObjectHandle, value: T)
        requires
            old(self).inv(),
        ensures
            final(self).inv(),
            old(self).contents_view().dom().contains(entity_of_object(handle))
                ==> final(self).contents_view() == old(self).contents_view().insert(
                entity_of_object(handle),
                value,
            ),
            !old(self).contents_view().dom().contains(entity_of_object(handle))
                ==> final(self).contents_view() == old(self).contents_view(),
    ;

    /// Passes the component under the handle's entity through `f`, stores
    /// the component `f` hands back and returns `f`'s other result; when
    /// the handle does not resolve to a live component, returns nothing
    /// and changes nothing.
    fn map_mut_internal<R, F: FnOnce(T) -> (T, R)>(&mut self, handle: ObjectHandle, f: F) -> (r:
        Option<R>)
        requires
            old(self).inv(),
            old(self).contents_view().dom().contains(entity_of_object(handle)) ==> call_requires(
                f,
                (old(self).contents_view()[entity_of_object(handle)],),
            ),
        ensures
            final(self).inv(),
            !old(self).contents_view().dom().contains(entity_of_object(handle)) ==> (r is None
                && final(self).contents_view() == old(self).contents_view()),
            old(self).contents_view().dom().contains(entity_of_object(handle)) ==> (exists|
                t2: T,
                out: R,
            |
                r == Some(out) && #[trigger] call_ensures(
                    f,
                    (old(self).contents_view()[entity_of_object(handle)],),
                    (t2, out),
                ) && final(self).contents_view() == old(self).contents_view().insert(
                    entity_of_object(handle),
                    t2,
                )),
    ;
}

impl<T> ComponentSetOption<T> for QueryComponentSetMut<T> {
    open spec fn contents_view(&self) -> Map<EntityId, T> {
        self.contents()
    }

    open spec fn inv(&self) -> bool {
        self.wf()
    }

    fn get(&self, handle: ObjectHandle) -> (r: Option<&T>) {
        let e = crate::codec::decode_object(handle);
        match self.position_of(e) {
            Some(i) => {
                proof {
                    self.lemma_contents_at(i as int);
                }
                Some(&self.entries[i].1.0)
            },
            None => None,
        }
    }
}

impl<T> ComponentSet<T> for QueryComponentSetMut<T> {
    open spec fn entries_view(&self) -> Seq<(EntityId, T)> {
        Seq::new(
            self.spec_pairs().len(),
            |i: int| (self.spec_pairs()[i].0, self.spec_pairs()[i].1.0),
        )
    }

    fn size_hint(&self) -> usize {
        0
    }

    fn entry_count(&self) -> (n: usize) {
        self.entries.len()
    }

    fn handle_at(&self, i: usize) -> (h: ObjectHandle) {
        proof {
            assert(self.entries_view()[i as int].0 == self.spec_pairs()[i as int].0);
        }
        let e = self.entries[i].0;
        ObjectHandle { slot: e.slot as u32, generation: e.generation as u32 }
    }

    fn value_at(&self, i: usize) -> (v: &T) {
        proof {
            assert(self.entries_view()[i as int].1 == self.spec_pairs()[i as int].1.0);
        }
        &self.entries[i].1.0
    }

    proof fn lemma_enumeration_complete(&self) {
        assert forall|i: int, j: int| 0 <= i < j < self.entries_view().len() implies
            object_handle_of((#[trigger] self.entries_view()[i]).0) != object_handle_of(
                (#[trigger] self.entries_view()[j]).0,
            ) by {
            assert(self.entries_view()[i].0 == self.spec_pairs()[i].0);
            assert(self.entries_view()[j].0 == self.spec_pairs()[j].0);
            assert(self.spec_pairs()[i].0 != self.spec_pairs()[j].0);
            crate::codec::lemma_codec_injective(self.spec_pairs()[i].0, self.spec_pairs()[j].0);
        }
        assert forall|e: EntityId| #[trigger] self.contents_view().dom().contains(e) implies (exists|
            i: int,
        |
            0 <= i < self.entries_view().len() && (#[trigger] self.entries_view()[i]).0 == e) by {
            let j = choose|j: int|
                0 <= j < self.spec_pairs().len() && (#[trigger] self.spec_pairs()[j]).0 == e;
            assert(self.entries_view()[j].0 == e);
        }
        assert forall|e: EntityId|
            (exists|i: int|
                0 <= i < self.entries_view().len() && (#[trigger] self.entries_view()[i]).0
                    == e) implies #[trigger] self.contents_view().dom().contains(e) by {
            let j = choose|i: int|
                0 <= i < self.entries_view().len() && (#[trigger] self.entries_view()[i]).0 == e;
            assert(self.spec_pairs()[j].0 == e);
            assert(self.spec_contains(e));
        }
        assert forall|i: int| 0 <= i < self.entries_view().len() implies self.contents_view()[(
        #[trigger] self.entries_view()[i]).0] == self.entries_view()[i].1 by {
            self.lemma_contents_at(i);
            assert(self.entries_view()[i].0 == self.spec_pairs()[i].0);
            assert(self.entries_view()[i].1 == self.spec_pairs()[i].1.0);
        }
    }
}

impl<T> ComponentSetMut<T> for QueryComponentSetMut<T> {
    fn set_internal(&mut self, handle: ObjectHandle, value: T) {
        let e = crate::codec::decode_object(handle);
        match self.position_of(e) {
            Some(i) => {
                let ghost pre = *self;
                proof {
                    pre.lemma_contents_at(i as int);
                }
                self.entries.remove(i);
                self.entries.insert(i, (e, ComponentWrapper(value)));
                proof {
                    assert(self.spec_pairs() =~= pre.spec_pairs().update(
                        i as int,
                        (e, ComponentWrapper(value)),
                    ));
                    Self::lemma_contents_update(pre, *self, i as int, value);
                }
            },
            None => {
            },
        }
    }

    fn map_mut_internal<R, F: FnOnce(T) -> (T, R)>(&mut self, handle: ObjectHandle, f: F) -> (r:
        Option<R>) {
        let e = crate::codec::decode_object(handle);
        match self.position_of(e) {
            Some(i) => {
                let ghost pre = *self;
                proof {
                    pre.lemma_contents_at(i as int);
                }
                let pair = self.entries.remove(i);
                let (pe, pw) = pair;
                let (t2, out) = f(pw.0);
                self.entries.insert(i, (pe, ComponentWrapper(t2)));
                proof {
                    assert(self.spec_pairs() =~= pre.spec_pairs().update(
                        i as int,
                        (e, ComponentWrapper(t2)),
                    ));
                    Self::lemma_contents_update(pre, *self, i as int, t2);
                }
                Some(out)
            },
            None => None,
        }
    }
}

} // verus!
