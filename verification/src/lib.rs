//! Adapter layer between an entity-component store and a physics solver.
//!
//! The entity system addresses objects by identifiers made of a reusable
//! slot index and a generation counter; the physics solver addresses the
//! same objects by its own handles, which carry the same two counters in a
//! different layout. This crate provides the lossless codec between the two
//! identifier spaces, a component-set view of entity-keyed storage that the
//! solver can read, enumerate and mutate through handles, and the per-tick
//! time snapshot consumed by the step driver.

use vstd::prelude::*;

pub mod bridge;
pub mod codec;
pub mod component_set;
pub mod plugin;
pub mod time;

verus! {

/// Builder of the component bundle that realizes one physics-side
/// description inside the entity system; implemented by users of the
/// adapter for each description they spawn entities from.
pub trait BundleBuilder {
    /// The bundle of components built.
    type Bundle;

    /// Builds the bundle this description stands for.
    fn bundle(&self) -> Self::Bundle;
}

} // verus!
