//! The kinds of simulated objects and what each decides.
//!
//! An object is an identifier, a numeric part `B` that the caller owns and
//! computes with, and a few flags. The functions here take the outcome of
//! the caller's measurements (a lifetime is over, a cooldown has passed) and
//! decide which events the object emits and how its flags change.

use vstd::prelude::*;
use crate::chance::random_i8;
use crate::events::SceneEvent;
use crate::layers::ColLayer;

verus! {

/// Milliseconds that a bullet flies before it asks to be removed.
pub const BULLET_LIFETIME_MS: u32 = 500;

/// Milliseconds that debris stays before it asks to be removed.
pub const DEBRIS_LIFETIME_MS: u32 = 1500;

/// Milliseconds that the player is invulnerable after a hit.
pub const GOD_MODE_MS: u32 = 5000;

/// Milliseconds between two shots of the player, and of an enemy.
pub const SHOOT_COOLDOWN_MS: u32 = 250;

/// The ship under the player's control.
pub struct PlayerEntity<B> {
    pub id: u32,
    pub body: B,
    /// Set by a damaging contact, cleared by the next update.
    pub is_hitted: bool,
    /// While set, contacts do no damage.
    pub is_god_mode: bool,
}

/// A shot, fired by the player or by an enemy.
pub struct BulletEntity<B> {
    pub id: u32,
    pub body: B,
    /// The layer of whoever fired the shot.
    pub layer: ColLayer,
    /// Set by any contact: the bullet is used up.
    pub spent: bool,
}

/// A drifting rock.
pub struct AsteroidEntity<B> {
    pub id: u32,
    pub body: B,
    pub is_need_destroy: bool,
}

/// A patrolling saucer.
pub struct EnemyEntity<B> {
    pub id: u32,
    pub body: B,
    pub destroy: bool,
    /// Horizontal bias of the patrol.
    pub x_dir: i8,
}

/// A cosmetic fragment.
pub struct DebrisEntity<B> {
    pub id: u32,
    pub body: B,
}

/// Any simulated object.
pub enum Entity<B> {
    Player(PlayerEntity<B>),
    Bullet(BulletEntity<B>),
    Asteroid(AsteroidEntity<B>),
    Enemy(EnemyEntity<B>),
    Debris(DebrisEntity<B>),
}

/// A contact with this layer damages the player.
pub open spec fn hurts_player(layer: ColLayer) -> bool {
    layer == ColLayer::BulletEnemy || layer == ColLayer::Asteroid || layer == ColLayer::Enemy
}

/// A contact with this layer breaks an asteroid.
pub open spec fn breaks_asteroid(layer: ColLayer) -> bool {
    layer == ColLayer::BulletPlayer || layer == ColLayer::BulletEnemy || layer == ColLayer::Player
        || layer == ColLayer::Enemy
}

/// A contact with this layer destroys an enemy.
pub open spec fn kills_enemy(layer: ColLayer) -> bool {
    layer == ColLayer::BulletPlayer || layer == ColLayer::Asteroid
}

impl<B> PlayerEntity<B> {
    /// A player that has not been spawned yet: identifier 0, unharmed,
    /// vulnerable.
    pub fn new(body: B) -> (player: Self)
        ensures
            player == (PlayerEntity { id: 0, body, is_hitted: false, is_god_mode: false }),
    {
        PlayerEntity { id: 0, body, is_hitted: false, is_god_mode: false }
    }

    /// The player after a contact with an object of `layer`.
    pub open spec fn hit_by(self, layer: ColLayer) -> Self {
        if !self.is_god_mode && hurts_player(layer) {
            PlayerEntity { is_hitted: true, ..self }
        } else {
            self
        }
    }

    /// Records a contact. It counts unless the player is invulnerable or the
    /// other layer is harmless.
    pub fn on_collision(&mut self, layer: ColLayer)
        ensures
            *final(self) == old(self).hit_by(layer),
    {
        if self.is_god_mode {
            return ;
        }
        match layer {
            ColLayer::BulletEnemy | ColLayer::Asteroid | ColLayer::Enemy => {
                self.is_hitted = true;
            },
            _ => {},
        }
    }

    /// The player is invulnerable during this update: it was so before, or
    /// it has just been hit.
    pub open spec fn shielded(self) -> bool {
        self.is_hitted || self.is_god_mode
    }

    /// Tells whether the player is invulnerable during this update: the
    /// caller resets and runs the timer of the spell while this holds.
    pub fn is_shielded(&self) -> (s: bool)
        ensures
            s == self.shielded(),
    {
        self.is_hitted || self.is_god_mode
    }

    /// The flags after an update. `god_mode_over` is read only while the
    /// player is invulnerable.
    pub open spec fn updated(self, god_mode_over: bool) -> Self {
        PlayerEntity {
            is_hitted: false,
            is_god_mode: self.shielded() && !god_mode_over,
            ..self
        }
    }

    /// The events of an update: the loss of a life if the player was hit,
    /// then a bullet if the trigger is held and the gun is ready.
    pub open spec fn update_events(self, fire: bool, gun_ready: bool, bullet: B) -> Seq<
        SceneEvent<B>,
    > {
        let death = if self.is_hitted {
            seq![SceneEvent::PlayerDeath]
        } else {
            seq![]
        };
        let shot = if fire && gun_ready {
            seq![SceneEvent::SpawnEntity(Entity::Bullet(BulletEntity::fresh(bullet, ColLayer::BulletPlayer)))]
        } else {
            seq![]
        };
        death + shot
    }

    /// One update of the player's flags.
    ///
    /// A hit is answered with a [`SceneEvent::PlayerDeath`] and a spell of
    /// invulnerability, which ends at the first update where
    /// `god_mode_over` holds: the caller says so once the spell has lasted
    /// for more than [`GOD_MODE_MS`]. With `fire` and `gun_ready` a bullet
    /// with body `bullet` is requested on the player's firing layer; the gun
    /// is ready when the last shot is [`SHOOT_COOLDOWN_MS`] or more ago.
    pub fn update(&mut self, god_mode_over: bool, fire: bool, gun_ready: bool, bullet: B) -> (events:
        Vec<SceneEvent<B>>)
        ensures
            final(self).id == old(self).id,
            final(self).body == old(self).body,
            !final(self).is_hitted,
            final(self).is_god_mode == (old(self).shielded() && !god_mode_over),
            events@ == old(self).update_events(fire, gun_ready, bullet),
    {
        let mut events: Vec<SceneEvent<B>> = Vec::new();
        if self.is_hitted {
            self.is_hitted = false;
            self.is_god_mode = true;
            events.push(SceneEvent::PlayerDeath);
        }
        if self.is_god_mode && god_mode_over {
            self.is_god_mode = false;
        }
        if fire && gun_ready {
            events.push(
                SceneEvent::SpawnEntity(Entity::Bullet(BulletEntity::new(bullet, ColLayer::BulletPlayer))),
            );
        }
        assert(events@ =~= old(self).update_events(fire, gun_ready, bullet));
        events
    }
}

impl<B> BulletEntity<B> {
    /// A bullet that has not been spawned yet, fired from `layer`.
    pub open spec fn fresh(body: B, layer: ColLayer) -> Self {
        BulletEntity { id: 0, body, layer, spent: false }
    }

    /// A bullet that has not been spawned yet, fired from `layer`.
    pub fn new(body: B, layer: ColLayer) -> (bullet: Self)
        ensures
            bullet == Self::fresh(body, layer),
    {
        BulletEntity { id: 0, body, layer, spent: false }
    }

    /// Any contact uses the bullet up.
    pub fn on_collision(&mut self, layer: ColLayer)
        ensures
            *final(self) == (BulletEntity { spent: true, ..*old(self) }),
    {
        self.spent = true;
    }

    /// The events of an update: the bullet asks to be removed once it is
    /// used up or has outlived its lifetime.
    pub open spec fn update_events(self, outlived: bool) -> Seq<SceneEvent<B>> {
        if self.spent || outlived {
            seq![SceneEvent::DestroyEntity(self.id)]
        } else {
            seq![]
        }
    }

    /// One update. `outlived` says that the bullet has flown for more than
    /// [`BULLET_LIFETIME_MS`].
    pub fn update(&self, outlived: bool) -> (events: Vec<SceneEvent<B>>)
        ensures
            events@ == self.update_events(outlived),
    {
        let mut events: Vec<SceneEvent<B>> = Vec::new();
        if self.spent || outlived {
            events.push(SceneEvent::DestroyEntity(self.id));
        }
        assert(events@ =~= self.update_events(outlived));
        events
    }
}

impl<B> AsteroidEntity<B> {
    /// An asteroid that has not been spawned yet.
    pub fn new(body: B) -> (asteroid: Self)
        ensures
            asteroid == (AsteroidEntity { id: 0, body, is_need_destroy: false }),
    {
        AsteroidEntity { id: 0, body, is_need_destroy: false }
    }

    /// The asteroid after a contact with an object of `layer`.
    pub open spec fn hit_by(self, layer: ColLayer) -> Self {
        if breaks_asteroid(layer) {
            AsteroidEntity { is_need_destroy: true, ..self }
        } else {
            self
        }
    }

    /// Records a contact: bullets, the player and enemies break the asteroid.
    pub fn on_collision(&mut self, layer: ColLayer)
        ensures
            *final(self) == old(self).hit_by(layer),
    {
        match layer {
            ColLayer::BulletPlayer | ColLayer::BulletEnemy | ColLayer::Player | ColLayer::Enemy => {
                self.is_need_destroy = true;
            },
            _ => {},
        }
    }

    /// The events of an update: a broken asteroid reports where it broke and
    /// asks to be removed.
    pub open spec fn update_events(self, at: B) -> Seq<SceneEvent<B>> {
        if self.is_need_destroy {
            seq![
                SceneEvent::DemolishAsteroid { at, id: self.id },
                SceneEvent::DestroyEntity(self.id),
            ]
        } else {
            seq![]
        }
    }

    /// One update. `at` describes the asteroid as it is now, for the report
    /// of a break.
    pub fn update(&self, at: B) -> (events: Vec<SceneEvent<B>>)
        ensures
            events@ == self.update_events(at),
    {
        let mut events: Vec<SceneEvent<B>> = Vec::new();
        if self.is_need_destroy {
            events.push(SceneEvent::DemolishAsteroid { at, id: self.id });
            events.push(SceneEvent::DestroyEntity(self.id));
        }
        assert(events@ =~= self.update_events(at));
        events
    }
}

impl<B> EnemyEntity<B> {
    /// An enemy that has not been spawned yet, patrolling towards `x_dir`.
    pub fn new(body: B, x_dir: i8) -> (enemy: Self)
        ensures
            enemy == (EnemyEntity { id: 0, body, destroy: false, x_dir }),
    {
        EnemyEntity { id: 0, body, destroy: false, x_dir }
    }

    /// What becomes of a drawn patrol direction: zero is thrown away.
    pub open spec fn kept_direction(drawn: i8) -> Option<i8> {
        if drawn != 0 {
            Some(drawn)
        } else {
            None
        }
    }

    /// Keeps a drawn patrol direction unless it is zero.
    pub fn keep_direction(drawn: i8) -> (dir: Option<i8>)
        ensures
            dir == Self::kept_direction(drawn),
    {
        if drawn != 0 {
            Some(drawn)
        } else {
            None
        }
    }

    /// Draws a patrol direction from `-1..1` and keeps it unless it is zero.
    /// The caller draws again until a direction is kept.
    pub fn draw_direction() -> (dir: Option<i8>)
        ensures
            exists|drawn: i8| -1 <= drawn < 1 && dir == Self::kept_direction(drawn),
    {
        let drawn = random_i8(-1, 1);
        Self::keep_direction(drawn)
    }

    /// The enemy after a contact with an object of `layer`.
    pub open spec fn hit_by(self, layer: ColLayer) -> Self {
        if kills_enemy(layer) {
            EnemyEntity { destroy: true, ..self }
        } else {
            self
        }
    }

    /// Records a contact: the player's bullets and asteroids destroy the
    /// enemy.
    pub fn on_collision(&mut self, layer: ColLayer)
        ensures
            *final(self) == old(self).hit_by(layer),
    {
        match layer {
            ColLayer::BulletPlayer | ColLayer::Asteroid => {
                self.destroy = true;
            },
            _ => {},
        }
    }

    /// The events of an update: a destroyed enemy asks to be removed and
    /// leaves debris; an enemy whose gun is ready fires.
    pub open spec fn update_events(self, at: B, gun_ready: bool, bullet: B) -> Seq<SceneEvent<B>> {
        let wreck = if self.destroy {
            seq![SceneEvent::DestroyEntity(self.id), SceneEvent::SpawnDebris(at)]
        } else {
            seq![]
        };
        let shot = if gun_ready {
            seq![SceneEvent::SpawnEntity(Entity::Bullet(BulletEntity::fresh(bullet, ColLayer::BulletEnemy)))]
        } else {
            seq![]
        };
        wreck + shot
    }

    /// One update. `at` describes the enemy as it is now, `gun_ready` says
    /// that the last shot is [`SHOOT_COOLDOWN_MS`] or more ago, and `bullet`
    /// is the body of the bullet to fire then.
    pub fn update(&self, at: B, gun_ready: bool, bullet: B) -> (events: Vec<SceneEvent<B>>)
        ensures
            events@ == self.update_events(at, gun_ready, bullet),
    {
        let mut events: Vec<SceneEvent<B>> = Vec::new();
        if self.destroy {
            events.push(SceneEvent::DestroyEntity(self.id));
            events.push(SceneEvent::SpawnDebris(at));
        }
        if gun_ready {
            events.push(
                SceneEvent::SpawnEntity(Entity::Bullet(BulletEntity::new(bullet, ColLayer::BulletEnemy))),
            );
        }
        assert(events@ =~= self.update_events(at, gun_ready, bullet));
        events
    }
}

impl<B> DebrisEntity<B> {
    /// Debris that has not been spawned yet.
    pub fn new(body: B) -> (debris: Self)
        ensures
            debris == (DebrisEntity { id: 0, body }),
    {
        DebrisEntity { id: 0, body }
    }

    /// The events of an update: debris asks to be removed once it has
    /// outlived its lifetime.
    pub open spec fn update_events(self, outlived: bool) -> Seq<SceneEvent<B>> {
        if outlived {
            seq![SceneEvent::DestroyEntity(self.id)]
        } else {
            seq![]
        }
    }

    /// One update. `outlived` says that the debris has been around for more
    /// than [`DEBRIS_LIFETIME_MS`].
    pub fn update(&self, outlived: bool) -> (events: Vec<SceneEvent<B>>)
        ensures
            events@ == self.update_events(outlived),
    {
        let mut events: Vec<SceneEvent<B>> = Vec::new();
        if outlived {
            events.push(SceneEvent::DestroyEntity(self.id));
        }
        assert(events@ =~= self.update_events(outlived));
        events
    }
}

impl<B> Entity<B> {
    /// The object's identifier; 0 before it is spawned.
    pub open spec fn id(self) -> u32 {
        match self {
            Entity::Player(e) => e.id,
            Entity::Bullet(e) => e.id,
            Entity::Asteroid(e) => e.id,
            Entity::Enemy(e) => e.id,
            Entity::Debris(e) => e.id,
        }
    }

    /// The object's numeric part.
    pub open spec fn body(self) -> B {
        match self {
            Entity::Player(e) => e.body,
            Entity::Bullet(e) => e.body,
            Entity::Asteroid(e) => e.body,
            Entity::Enemy(e) => e.body,
            Entity::Debris(e) => e.body,
        }
    }

    /// The same object under another identifier.
    pub open spec fn with_id(self, id: u32) -> Self {
        match self {
            Entity::Player(e) => Entity::Player(PlayerEntity { id, ..e }),
            Entity::Bullet(e) => Entity::Bullet(BulletEntity { id, ..e }),
            Entity::Asteroid(e) => Entity::Asteroid(AsteroidEntity { id, ..e }),
            Entity::Enemy(e) => Entity::Enemy(EnemyEntity { id, ..e }),
            Entity::Debris(e) => Entity::Debris(DebrisEntity { id, ..e }),
        }
    }

    /// The object's collision layer.
    pub open spec fn layer(self) -> ColLayer {
        match self {
            Entity::Player(_) => ColLayer::Player,
            Entity::Bullet(e) => e.layer,
            Entity::Asteroid(_) => ColLayer::Asteroid,
            Entity::Enemy(_) => ColLayer::Enemy,
            Entity::Debris(_) => ColLayer::Player,
        }
    }

    /// The object takes part in collisions: everything but debris does.
    pub open spec fn collides(self) -> bool {
        !(self is Debris)
    }

    /// The object after a contact with an object of `layer`.
    pub open spec fn hit_by(self, layer: ColLayer) -> Self {
        match self {
            Entity::Player(e) => Entity::Player(e.hit_by(layer)),
            Entity::Bullet(e) => Entity::Bullet(BulletEntity { spent: true, ..e }),
            Entity::Asteroid(e) => Entity::Asteroid(e.hit_by(layer)),
            Entity::Enemy(e) => Entity::Enemy(e.hit_by(layer)),
            Entity::Debris(e) => Entity::Debris(e),
        }
    }

    /// Gives the object its identifier.
    pub fn set_entity_id(&mut self, entity_id: u32)
        ensures
            *final(self) == old(self).with_id(entity_id),
    {
        match self {
            Entity::Player(e) => {
                e.id = entity_id;
            },
            Entity::Bullet(e) => {
                e.id = entity_id;
            },
            Entity::Asteroid(e) => {
                e.id = entity_id;
            },
            Entity::Enemy(e) => {
                e.id = entity_id;
            },
            Entity::Debris(e) => {
                e.id = entity_id;
            },
        }
    }

    /// The object's identifier.
    pub fn get_entity_id(&self) -> (id: u32)
        ensures
            id == self.id(),
    {
        match self {
            Entity::Player(e) => e.id,
            Entity::Bullet(e) => e.id,
            Entity::Asteroid(e) => e.id,
            Entity::Enemy(e) => e.id,
            Entity::Debris(e) => e.id,
        }
    }

    /// Whether collision checks apply to the object at all.
    pub fn can_collide(&self) -> (yes: bool)
        ensures
            yes == self.collides(),
    {
        match self {
            Entity::Debris(_) => false,
            _ => true,
        }
    }

    /// The object's collision layer.
    pub fn get_collision_layer(&self) -> (layer: ColLayer)
        ensures
            layer == self.layer(),
    {
        match self {
            Entity::Player(_) => ColLayer::Player,
            Entity::Bullet(e) => e.layer,
            Entity::Asteroid(_) => ColLayer::Asteroid,
            Entity::Enemy(_) => ColLayer::Enemy,
            Entity::Debris(_) => ColLayer::Player,
        }
    }

    /// The shape to test contacts with: the numeric part of an object that
    /// takes part in collisions, nothing for one that does not.
    pub fn get_collision_mesh(&self) -> (shape: Option<&B>)
        ensures
            shape == (if self.collides() {
                Some(&self.body())
            } else {
                None
            }),
    {
        match self {
            Entity::Player(e) => Some(&e.body),
            Entity::Bullet(e) => Some(&e.body),
            Entity::Asteroid(e) => Some(&e.body),
            Entity::Enemy(e) => Some(&e.body),
            Entity::Debris(_) => None,
        }
    }

    /// Tells the object that it touches an object of `layer`.
    pub fn on_collision(&mut self, layer: ColLayer)
        ensures
            *final(self) == old(self).hit_by(layer),
    {
        match self {
            Entity::Player(e) => e.on_collision(layer),
            Entity::Bullet(e) => e.on_collision(layer),
            Entity::Asteroid(e) => e.on_collision(layer),
            Entity::Enemy(e) => e.on_collision(layer),
            Entity::Debris(_) => {},
        }
    }
}

} // verus!
