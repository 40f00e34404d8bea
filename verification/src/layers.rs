//! Collision layers and the table that says which layers may touch.

use vstd::prelude::*;

verus! {

/// Number of collision layers.
pub const LAYER_COUNT: usize = 5;

/// The category of an object for collision purposes.
#[derive(Copy, Clone, Debug, PartialEq, Eq, Structural)]
pub enum ColLayer {
    Player,
    Asteroid,
    BulletPlayer,
    BulletEnemy,
    Enemy,
}

impl ColLayer {
    /// Row and column of this layer in [`COLLISION_TABLE`].
    pub open spec fn index(self) -> int {
        match self {
            ColLayer::Player => 0,
            ColLayer::Asteroid => 1,
            ColLayer::BulletPlayer => 2,
            ColLayer::BulletEnemy => 3,
            ColLayer::Enemy => 4,
        }
    }

    /// Row and column of this layer in [`COLLISION_TABLE`].
    pub fn idx(self) -> (i: usize)
        ensures
            i == self.index(),
            i < LAYER_COUNT,
    {
        match self {
            ColLayer::Player => 0,
            ColLayer::Asteroid => 1,
            ColLayer::BulletPlayer => 2,
            ColLayer::BulletEnemy => 3,
            ColLayer::Enemy => 4,
        }
    }
}

/// `COLLISION_TABLE[i][j]` says whether an object of layer `i` and one of
/// layer `j` are tested against each other.
pub const COLLISION_TABLE: [[bool; LAYER_COUNT]; LAYER_COUNT] = [
    //           Player Asteroid BulletP BulletE Enemy
    /* Player  */ [false, true, false, true, true],
    /* Asteroid*/ [true, false, true, true, true],
    /* BulletP */ [false, true, false, false, true],
    /* BulletE */ [true, true, false, false, false],
    /* Enemy   */ [true, true, true, false, false],
];

/// Whether objects of the two layers may collide.
pub open spec fn may_collide(a: ColLayer, b: ColLayer) -> bool {
    COLLISION_TABLE[a.index()][b.index()]
}

/// Looks the two layers up in [`COLLISION_TABLE`].
pub fn layers_collide(a: ColLayer, b: ColLayer) -> (hit: bool)
    ensures
        hit == may_collide(a, b),
{
    COLLISION_TABLE[a.idx()][b.idx()]
}

/// The collision table is symmetric: whether two layers may collide does
/// not depend on the order in which they are given.
pub proof fn lemma_table_symmetric(a: ColLayer, b: ColLayer)
    ensures
        may_collide(a, b) == may_collide(b, a),
{
}

/// The collision table equals its transpose, entry by entry.
pub proof fn lemma_table_entries_symmetric(i: int, j: int)
    requires
        0 <= i < LAYER_COUNT,
        0 <= j < LAYER_COUNT,
    ensures
        COLLISION_TABLE[i][j] == COLLISION_TABLE[j][i],
{
}

} // verus!
