//! Plugin-side types shared with the unverified shell.
//!
//! The step driver registers its work with the engine in fixed stages and
//! instantiates the plugin with the query and time types it drives the
//! solver with. The wiring itself — resource registration, system
//! scheduling — belongs to the shell at the engine's rim; these are the
//! bare types the library and the shell agree on.

use core::marker::PhantomData;

use vstd::prelude::*;

verus! {

/// Marker component for the default "no user data" query that the
/// solver's hooks run with when the user supplies none.
pub struct S;

/// The stages the step driver adds around the engine's own: finalizing
/// newly created bodies, colliders and joints before the update, and
/// syncing transforms back out after it.
#[derive(Debug, Hash, PartialEq, Eq, Clone)]
pub enum PhysicsStages {
    FinalizeCreations,
    SyncTransforms,
}

/// The physics plugin value: it carries only the two type parameters the
/// step driver instantiates its systems with — the user-data query and
/// the tick-time tracker.
pub struct RapierPhysicsPlugin<UserData, X>(pub PhantomData<UserData>, pub PhantomData<X>);

impl<UserData, X> Default for RapierPhysicsPlugin<UserData, X> {
    /// The only value of the type.
    fn default() -> (p: Self)
        ensures
            p == (RapierPhysicsPlugin(PhantomData::<UserData>, PhantomData::<X>)),
    {
        RapierPhysicsPlugin(PhantomData, PhantomData)
    }
}

} // verus!
