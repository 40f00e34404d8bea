//! Requests that objects and the collision pass hand to the scene.

use vstd::prelude::*;
use crate::entity::Entity;
use crate::layers::ColLayer;

verus! {

/// A deferred request or notice, produced during one frame and consumed in
/// the same frame.
///
/// `B` is the numeric part of an object (where it is, how large, how it
/// moves), which this library carries but never reads.
pub enum SceneEvent<B> {
    /// Nothing to do.
    Nothing,
    /// Add the object to the scene under a fresh identifier.
    SpawnEntity(Entity<B>),
    /// Remove the object with this identifier.
    DestroyEntity(u32),
    /// Objects `a` and `b` touch; each is named with the layer it had when
    /// the contact was found.
    Collision { a: u32, b: u32, layer_a: ColLayer, layer_b: ColLayer },
    /// The asteroid `id` was shot apart where `at` says.
    DemolishAsteroid { at: B, id: u32 },
    /// The player lost a life.
    PlayerDeath,
    /// Debris should appear where the value says.
    SpawnDebris(B),
    /// A shot was fired from the given layer.
    Shoot(ColLayer),
}

} // verus!
