//! A scene for trying things out.

use vstd::prelude::*;
use crate::entity::{EnemyEntity, Entity};
use crate::ids::{bump, IdAllocator};
use crate::scene::Scene;

verus! {

/// A scene for trying things out: one enemy.
pub struct TestScene<B> {
    pub scene: Scene<B>,
}

impl<B> TestScene<B> {
    /// A scene without objects.
    pub fn new() -> (test: Self)
        ensures
            test.scene@ == Seq::<Entity<B>>::empty(),
    {
        TestScene { scene: Scene::new() }
    }

    /// The name of the scene.
    pub fn get_scene_name(&self) -> (name: String)
        ensures
            name@ == "TestScene"@,
    {
        "TestScene".to_owned()
    }

    /// Sets the scene up: the enemy with the given body and patrol direction
    /// is spawned.
    pub fn create_scene(&mut self, ids: &mut IdAllocator, enemy: B, x_dir: i8)
        ensures
            final(ids).next_id() == bump(old(ids).next_id()),
            final(self).scene@ == old(self).scene@.push(
                Entity::Enemy(
                    EnemyEntity { id: old(ids).next_id(), body: enemy, destroy: false, x_dir },
                ),
            ),
    {
        let _ = self.scene.add_entity(ids, Entity::Enemy(EnemyEntity::new(enemy, x_dir)));
    }
}

} // verus!
