//! The rules of the game scene: lives, score, waves of asteroids, and what
//! becomes of an asteroid that is shot apart.

use vstd::prelude::*;
use crate::chance::random_usize;
use crate::config::Config;
use crate::entity::{AsteroidEntity, DebrisEntity, EnemyEntity, Entity, PlayerEntity};
use crate::events::SceneEvent;
use crate::ids::{bump, IdAllocator};
use crate::scene::{without, Scene};
use crate::switch::{SceneId, SceneSwitch};
use crate::web::{SendData, WebClient};

verus! {

/// Lives at the start of a game.
pub const START_HEALTHS: i8 = 3;

/// Asteroids in the first wave.
pub const FIRST_WAVE: u32 = 5;

/// How many asteroids each wave has more than the one before.
pub const WAVE_GROWTH: u32 = 2;

/// How far from each edge of the field an enemy appears at least.
pub const ENEMY_MARGIN: usize = 100;

/// How far from every object an enemy appears at least.
pub const ENEMY_KEEP_OUT: u32 = 400;

/// How far from the player an asteroid of a wave appears at least.
pub const ASTEROID_KEEP_OUT: u32 = 120;

/// Milliseconds after which the enemy's spawn timer runs out.
pub const ENEMY_PERIOD_MS: u32 = 5000;

/// Milliseconds that the enemy's spawn timer is set back below zero when an
/// enemy came in.
pub const ENEMY_PAUSE_MS: u32 = 10000;

/// The points that an asteroid of scale 1 is worth.
pub const POINTS_PER_SCALE: u32 = 50;

/// The largest fragment of an asteroid has this share of its scale, in
/// hundredths.
pub const FRAGMENT_MAX_PERCENT: u32 = 50;

/// The smallest fragment has this share of the largest fragment's scale, in
/// hundredths.
pub const FRAGMENT_MIN_PERCENT: u32 = 55;

/// An asteroid whose smallest fragment would have a scale below this, in
/// hundredths, leaves no fragments.
pub const FRAGMENT_LEAST_PERCENT: u32 = 15;

/// Whether the game is still played.
#[derive(Copy, Clone, Debug, PartialEq, Eq, Structural)]
pub enum GameState {
    Active,
    End,
}

impl Default for GameState {
    fn default() -> (state: GameState)
        ensures
            state == GameState::Active,
    {
        GameState::Active
    }
}

/// What the caller found out about an asteroid that was shot apart.
#[derive(Copy, Clone, Debug, PartialEq, Eq, Structural)]
pub struct Breakup {
    /// The points that the asteroid is worth: [`POINTS_PER_SCALE`] times
    /// its scale, rounded down.
    pub points: u32,
    /// The asteroid is large enough to leave fragments: the smallest would
    /// have a scale of [`FRAGMENT_LEAST_PERCENT`] hundredths or more.
    pub splits: bool,
}

/// What became of an asteroid that was shot apart: the caller's findings and
/// the bodies of the fragments that took its place.
pub struct Fragments<B> {
    pub breakup: Breakup,
    pub children: Seq<B>,
}

/// What became of the enemy's spawn timer in a frame.
pub enum EnemyOutcome<B> {
    /// The timer has not run out.
    Waiting,
    /// The timer has run out, but something was too close to the drawn
    /// place.
    Blocked { place: (usize, usize) },
    /// The enemy came in at the drawn place.
    Spawned { place: (usize, usize), body: B, x_dir: i8 },
}

/// What became of one try to place an asteroid of the wave.
pub enum AsteroidOutcome<B> {
    /// The drawn place was too close to the player.
    Rejected { place: (usize, usize) },
    /// The asteroid came in at the drawn place.
    Spawned { place: (usize, usize), body: B },
}

/// What the player did on the screen that is shown when the game is over.
pub struct EndScreenInput {
    /// The text of the nickname field, if the player changed it.
    pub edited: Option<String>,
    /// The player pressed "Send".
    pub send_clicked: bool,
    /// The player pressed "Menu".
    pub menu_clicked: bool,
}

/// The game scene as contracts see it.
pub struct GameModel<B> {
    pub objects: Seq<Entity<B>>,
    pub next_id: u32,
    pub asteroids_ids: Seq<u32>,
    pub player_id: u32,
    pub state: GameState,
    pub player_healths: i8,
    pub scores: u32,
    pub asteroids_count: u32,
}

impl<B> GameModel<B> {
    /// The scene with one more asteroid, spawned under the next identifier
    /// and counted among the asteroids of the wave.
    pub open spec fn with_asteroid(self, body: B) -> Self {
        GameModel {
            objects: self.objects.push(
                Entity::Asteroid(AsteroidEntity { id: self.next_id, body, is_need_destroy: false }),
            ),
            next_id: bump(self.next_id),
            asteroids_ids: self.asteroids_ids.push(self.next_id),
            ..self
        }
    }

    /// The scene with one more asteroid for each body, in their order.
    pub open spec fn with_asteroids(self, bodies: Seq<B>) -> Self
        decreases bodies.len(),
    {
        if bodies.len() == 0 {
            self
        } else {
            self.with_asteroids(bodies.drop_last()).with_asteroid(bodies.last())
        }
    }

    /// The scene with one more enemy, spawned under the next identifier.
    pub open spec fn with_enemy(self, body: B, x_dir: i8) -> Self {
        GameModel {
            objects: self.objects.push(
                Entity::Enemy(EnemyEntity { id: self.next_id, body, destroy: false, x_dir }),
            ),
            next_id: bump(self.next_id),
            ..self
        }
    }

    /// The scene with one more piece of debris, spawned under the next
    /// identifier.
    pub open spec fn with_debris(self, body: B) -> Self {
        GameModel {
            objects: self.objects.push(Entity::Debris(DebrisEntity { id: self.next_id, body })),
            next_id: bump(self.next_id),
            ..self
        }
    }

    /// The scene with one more piece of debris for each body, in their
    /// order.
    pub open spec fn with_all_debris(self, bodies: Seq<B>) -> Self
        decreases bodies.len(),
    {
        if bodies.len() == 0 {
            self
        } else {
            self.with_all_debris(bodies.drop_last()).with_debris(bodies.last())
        }
    }

    /// The scene after one try to place an asteroid.
    pub open spec fn after_placing(self, outcome: AsteroidOutcome<B>) -> Self {
        match outcome {
            AsteroidOutcome::Spawned { place, body } => self.with_asteroid(body),
            AsteroidOutcome::Rejected { place } => self,
        }
    }

    /// The scene after the spawn timer had its say.
    pub open spec fn after_spawn_timer(self, outcome: EnemyOutcome<B>) -> Self {
        match outcome {
            EnemyOutcome::Spawned { place, body, x_dir } => self.with_enemy(body, x_dir),
            _ => self,
        }
    }

    /// The scene after an asteroid was shot apart: its points are added to
    /// the score, it no longer counts among the asteroids of the wave, and
    /// its fragments are spawned as asteroids.
    pub open spec fn demolished(self, id: u32, fragments: Fragments<B>) -> Self {
        (GameModel {
            scores: self.scores.wrapping_add(fragments.breakup.points),
            asteroids_ids: self.asteroids_ids.remove_value(id),
            ..self
        }).with_asteroids(fragments.children)
    }

    /// The scene after the player lost a life: with the last life the game
    /// is over and the player leaves the scene.
    pub open spec fn died(self) -> Self {
        let left = self.player_healths.wrapping_sub(1);
        if left <= 0 {
            GameModel {
                player_healths: left,
                state: GameState::End,
                objects: without(self.objects, self.player_id),
                ..self
            }
        } else {
            GameModel { player_healths: left, ..self }
        }
    }

    /// The scene after one event of the frame's batch.
    pub open spec fn resolved(self, event: SceneEvent<B>, fragments: Fragments<B>) -> Self {
        match event {
            SceneEvent::DemolishAsteroid { at, id } => self.demolished(id, fragments),
            SceneEvent::PlayerDeath => self.died(),
            _ => self,
        }
    }

    /// The scene after the events of the frame's batch, in their order.
    /// `trace` holds for each event what became of the asteroid, where the
    /// event reports one that was shot apart.
    pub open spec fn resolved_all(self, events: Seq<SceneEvent<B>>, trace: Seq<Fragments<B>>) -> Self
        decreases events.len(),
    {
        if events.len() == 0 || trace.len() != events.len() {
            self
        } else {
            self.resolved_all(events.drop_last(), trace.drop_last()).resolved(
                events.last(),
                trace.last(),
            )
        }
    }

    /// The scene after the wave was looked at: when no asteroid of the wave
    /// is left, the next wave is larger by [`WAVE_GROWTH`].
    pub open spec fn next_wave(self) -> Self {
        if self.asteroids_ids.len() == 0 {
            GameModel { asteroids_count: self.asteroids_count.wrapping_add(WAVE_GROWTH), ..self }
        } else {
            self
        }
    }
}

/// The outcome is one that a try to place an asteroid can have: a place on
/// the field is drawn and put to `is_far`, and only for a place that is far
/// enough `make` makes the asteroid that comes in.
pub open spec fn placed<B, F: Fn(usize, usize) -> bool, G: Fn(usize, usize) -> B>(
    config: Config,
    is_far: F,
    make: G,
    outcome: AsteroidOutcome<B>,
) -> bool {
    match outcome {
        AsteroidOutcome::Rejected { place } => {
            &&& place.0 < config.actual_size().0
            &&& place.1 < config.actual_size().1
            &&& is_far.ensures(place, false)
        },
        AsteroidOutcome::Spawned { place, body } => {
            &&& place.0 < config.actual_size().0
            &&& place.1 < config.actual_size().1
            &&& is_far.ensures(place, true)
            &&& make.ensures(place, body)
        },
    }
}

/// The place keeps [`ENEMY_MARGIN`] to every edge of the field.
pub open spec fn within_margin(config: Config, place: (usize, usize)) -> bool {
    &&& ENEMY_MARGIN <= place.0 < config.actual_size().0 - ENEMY_MARGIN
    &&& ENEMY_MARGIN <= place.1 < config.actual_size().1 - ENEMY_MARGIN
}

/// The outcome is one that the spawn timer can have: nothing happens before
/// the timer has run out; once it has, a place within the margins is drawn
/// and put to `is_clear`, and only for a clear place `make` makes the enemy
/// that comes in.
pub open spec fn timed<B, F: Fn(usize, usize) -> bool, G: Fn(usize, usize) -> (B, i8)>(
    config: Config,
    due: bool,
    is_clear: F,
    make: G,
    outcome: EnemyOutcome<B>,
) -> bool {
    match outcome {
        EnemyOutcome::Waiting => !due,
        EnemyOutcome::Blocked { place } => {
            &&& due
            &&& within_margin(config, place)
            &&& is_clear.ensures(place, false)
        },
        EnemyOutcome::Spawned { place, body, x_dir } => {
            &&& due
            &&& within_margin(config, place)
            &&& is_clear.ensures(place, true)
            &&& make.ensures(place, (body, x_dir))
        },
    }
}

/// The fragments fit the findings: an asteroid that does not split leaves
/// none, one that splits leaves two or three.
pub open spec fn fan_out<B>(fragments: Fragments<B>) -> bool {
    if fragments.breakup.splits {
        2 <= fragments.children.len() < 4
    } else {
        fragments.children.len() == 0
    }
}

/// `trace` holds, for each report of an asteroid shot apart, what `assess`
/// found for it and the fragments that `child` made for it.
pub open spec fn traced<B, J: Fn(&B) -> Breakup, C: Fn(&B) -> B>(
    events: Seq<SceneEvent<B>>,
    assess: J,
    child: C,
    trace: Seq<Fragments<B>>,
) -> bool {
    &&& trace.len() == events.len()
    &&& forall|i: int|
        0 <= i < events.len() ==> (#[trigger] events[i] matches SceneEvent::DemolishAsteroid {
            at,
            id,
        } ==> {
            &&& assess.ensures((&at,), trace[i].breakup)
            &&& fan_out(trace[i])
            &&& forall|k: int|
                0 <= k < trace[i].children.len() ==> child.ensures(
                    (&at,),
                    #[trigger] trace[i].children[k],
                )
        })
}

/// The scene in which the game is played.
pub struct GameScene<B> {
    pub scene: Scene<B>,
    /// The asteroids of the running wave that have not been shot apart.
    pub asteroids_ids: Vec<u32>,
    pub player_id: u32,
    pub web_client: WebClient,
    pub state: GameState,
    pub player_healths: i8,
    pub scores: u32,
    /// The size of the running wave.
    pub asteroids_count: u32,
}

impl<B> GameScene<B> {
    /// The scene as contracts see it, together with the allocator that its
    /// objects get their identifiers from.
    pub open spec fn model(self, ids: IdAllocator) -> GameModel<B> {
        GameModel {
            objects: self.scene@,
            next_id: ids.next_id(),
            asteroids_ids: self.asteroids_ids@,
            player_id: self.player_id,
            state: self.state,
            player_healths: self.player_healths,
            scores: self.scores,
            asteroids_count: self.asteroids_count,
        }
    }

    /// An empty scene: no objects, no lives, no score, no wave.
    pub fn new() -> (game: Self)
        ensures
            game.scene@ == Seq::<Entity<B>>::empty(),
            game.asteroids_ids@ == Seq::<u32>::empty(),
            game.player_id == 0,
            game.state == GameState::Active,
            game.player_healths == 0,
            game.scores == 0,
            game.asteroids_count == 0,
            game.web_client.nickname() == Seq::<char>::empty(),
    {
        GameScene {
            scene: Scene::new(),
            asteroids_ids: Vec::new(),
            player_id: 0,
            web_client: WebClient::new(),
            state: GameState::Active,
            player_healths: 0,
            scores: 0,
            asteroids_count: 0,
        }
    }

    /// The name of the scene.
    pub fn get_scene_name(&self) -> (name: String)
        ensures
            name@ == "GameScene"@,
    {
        "GameScene".to_owned()
    }

    /// The live objects.
    pub fn get_entities(&self) -> (entities: &Vec<Entity<B>>)
        ensures
            entities@ == self.scene@,
    {
        self.scene.get_entities()
    }

    /// Sets the game up: three lives, a first wave of five asteroids still
    /// to come, and the player spawned with the given body.
    pub fn create_scene(&mut self, ids: &mut IdAllocator, player: B)
        ensures
            final(self).model(*final(ids)) == (GameModel {
                objects: old(self).scene@.push(
                    Entity::Player(
                        PlayerEntity {
                            id: old(ids).next_id(),
                            body: player,
                            is_hitted: false,
                            is_god_mode: false,
                        },
                    ),
                ),
                next_id: bump(old(ids).next_id()),
                player_id: old(ids).next_id(),
                player_healths: START_HEALTHS,
                asteroids_count: FIRST_WAVE,
                ..old(self).model(*old(ids))
            }),
            final(self).web_client == old(self).web_client,
    {
        self.player_healths = START_HEALTHS;
        self.asteroids_count = FIRST_WAVE;
        self.player_id = self.scene.add_entity(ids, Entity::Player(PlayerEntity::new(player)));
    }

    /// The running wave is short of asteroids: fewer are counted than the
    /// wave has.
    pub fn needs_asteroids(&self) -> (short: bool)
        ensures
            short == (self.asteroids_ids@.len() < self.asteroids_count),
    {
        self.asteroids_ids.len() < self.asteroids_count as usize
    }

    /// The running wave is to be filled anew: no asteroid of the wave is
    /// left and the game is still played. Once the game is over there is no
    /// player to keep the asteroids away from, and no wave is filled.
    pub fn wave_to_fill(&self) -> (fill: bool)
        ensures
            fill == (self.asteroids_ids@.len() == 0 && self.state == GameState::Active),
    {
        self.asteroids_ids.len() == 0 && match self.state {
            GameState::Active => true,
            GameState::End => false,
        }
    }

    /// Draws a place for an asteroid anywhere on the field.
    pub fn draw_asteroid_position(config: &Config) -> (place: (usize, usize))
        requires
            config.actual_size().0 > 0,
            config.actual_size().1 > 0,
        ensures
            place.0 < config.actual_size().0,
            place.1 < config.actual_size().1,
    {
        let x = random_usize(0, config.x());
        let y = random_usize(0, config.y());
        (x, y)
    }

    /// Draws a place for an enemy, at least [`ENEMY_MARGIN`] away from every
    /// edge of the field.
    pub fn draw_enemy_position(config: &Config) -> (place: (usize, usize))
        requires
            config.actual_size().0 > 2 * ENEMY_MARGIN,
            config.actual_size().1 > 2 * ENEMY_MARGIN,
        ensures
            ENEMY_MARGIN <= place.0 < config.actual_size().0 - ENEMY_MARGIN,
            ENEMY_MARGIN <= place.1 < config.actual_size().1 - ENEMY_MARGIN,
    {
        let x = random_usize(ENEMY_MARGIN, config.x() - ENEMY_MARGIN);
        let y = random_usize(ENEMY_MARGIN, config.y() - ENEMY_MARGIN);
        (x, y)
    }

    /// Spawns an asteroid with the given body and counts it among the
    /// asteroids of the wave. Hands back its identifier.
    pub fn spawn_asteroid(&mut self, ids: &mut IdAllocator, body: B) -> (id: u32)
        ensures
            id == old(ids).next_id(),
            final(self).model(*final(ids)) == old(self).model(*old(ids)).with_asteroid(body),
            final(self).web_client == old(self).web_client,
    {
        let id = self.scene.add_entity(ids, Entity::Asteroid(AsteroidEntity::new(body)));
        self.asteroids_ids.push(id);
        id
    }

    /// Tries once to place an asteroid of the wave.
    ///
    /// A place anywhere on the field is drawn, and `is_far` says whether it
    /// is far enough from the player. If so, `make` makes the asteroid's
    /// body for that place and the asteroid is spawned and counted among the
    /// asteroids of the wave. Hands back whether it came in; the caller
    /// tries again while the wave is short.
    pub fn try_spawn_asteroid<F: Fn(usize, usize) -> bool, G: Fn(usize, usize) -> B>(
        &mut self,
        ids: &mut IdAllocator,
        config: &Config,
        is_far: &F,
        make: &G,
    ) -> (spawned: bool)
        requires
            config.actual_size().0 > 0,
            config.actual_size().1 > 0,
            forall|x: usize, y: usize| is_far.requires((x, y)),
            forall|x: usize, y: usize| make.requires((x, y)),
        ensures
            exists|outcome: AsteroidOutcome<B>|
                {
                    &&& #[trigger] placed(*config, *is_far, *make, outcome)
                    &&& spawned == (outcome is Spawned)
                    &&& final(self).model(*final(ids)) == old(self).model(*old(ids)).after_placing(
                        outcome,
                    )
                },
            final(self).web_client == old(self).web_client,
    {
        let place = Self::draw_asteroid_position(config);
        if is_far(place.0, place.1) {
            let body = make(place.0, place.1);
            let _ = self.spawn_asteroid(ids, body);
            assert(placed(*config, *is_far, *make, AsteroidOutcome::Spawned { place, body }));
            true
        } else {
            assert(placed(*config, *is_far, *make, AsteroidOutcome::<B>::Rejected { place }));
            false
        }
    }

    /// Spawns an enemy with the given body and patrol direction. Hands back
    /// its identifier.
    pub fn spawn_enemy(&mut self, ids: &mut IdAllocator, body: B, x_dir: i8) -> (id: u32)
        ensures
            id == old(ids).next_id(),
            final(self).model(*final(ids)) == old(self).model(*old(ids)).with_enemy(body, x_dir),
            final(self).web_client == old(self).web_client,
    {
        self.scene.add_entity(ids, Entity::Enemy(EnemyEntity::new(body, x_dir)))
    }

    /// Lets an enemy in if its spawn timer has run out and its place is
    /// clear.
    ///
    /// `due` says that the timer has run out. Then a place is drawn that
    /// keeps [`ENEMY_MARGIN`] to every edge of the field, and `is_clear`
    /// says whether every object is far enough from it. If so, `make` makes
    /// the enemy's body and patrol direction for that place and the enemy is
    /// spawned. Hands back whether it came in, so that the caller can set
    /// the timer back.
    pub fn spawn_enemy_timer<F: Fn(usize, usize) -> bool, G: Fn(usize, usize) -> (B, i8)>(
        &mut self,
        ids: &mut IdAllocator,
        config: &Config,
        due: bool,
        is_clear: &F,
        make: &G,
    ) -> (spawned: bool)
        requires
            due ==> config.actual_size().0 > 2 * ENEMY_MARGIN && config.actual_size().1 > 2
                * ENEMY_MARGIN,
            forall|x: usize, y: usize| is_clear.requires((x, y)),
            forall|x: usize, y: usize| make.requires((x, y)),
        ensures
            exists|outcome: EnemyOutcome<B>|
                {
                    &&& #[trigger] timed(*config, due, *is_clear, *make, outcome)
                    &&& spawned == (outcome is Spawned)
                    &&& final(self).model(*final(ids)) == old(self).model(
                        *old(ids),
                    ).after_spawn_timer(outcome)
                },
            final(self).web_client == old(self).web_client,
    {
        if !due {
            assert(timed(*config, due, *is_clear, *make, EnemyOutcome::<B>::Waiting));
            return false;
        }
        let place = Self::draw_enemy_position(config);
        if is_clear(place.0, place.1) {
            let (body, x_dir) = make(place.0, place.1);
            let _ = self.spawn_enemy(ids, body, x_dir);
            assert(timed(
                *config,
                due,
                *is_clear,
                *make,
                EnemyOutcome::Spawned { place, body, x_dir },
            ));
            true
        } else {
            assert(timed(*config, due, *is_clear, *make, EnemyOutcome::<B>::Blocked { place }));
            false
        }
    }

    /// Scatters debris: three to five pieces are spawned, the `k`-th with
    /// the body that `piece` makes for `k`. Hands back how many.
    pub fn spawn_debris<F: Fn(usize) -> B>(&mut self, ids: &mut IdAllocator, piece: &F) -> (count:
        usize)
        requires
            forall|k: usize| piece.requires((k,)),
        ensures
            3 <= count < 6,
            exists|bodies: Seq<B>|
                {
                    &&& bodies.len() == count
                    &&& forall|k: int|
                        0 <= k < count ==> piece.ensures((k as usize,), #[trigger] bodies[k])
                    &&& final(self).model(*final(ids)) == old(self).model(
                        *old(ids),
                    ).with_all_debris(bodies)
                },
            final(self).web_client == old(self).web_client,
    {
        let count = random_usize(3, 6);
        let ghost mut bodies: Seq<B> = Seq::empty();
        let mut k: usize = 0;
        while k < count
            invariant
                forall|k: usize| piece.requires((k,)),
                k <= count,
                bodies.len() == k,
                forall|j: int| 0 <= j < k ==> piece.ensures((j as usize,), #[trigger] bodies[j]),
                self.model(*ids) == old(self).model(*old(ids)).with_all_debris(bodies),
                self.web_client == old(self).web_client,
            decreases count - k,
        {
            let body = piece(k);
            proof {
                assert(bodies.push(body).drop_last() =~= bodies);
                bodies = bodies.push(body);
            }
            let _ = self.scene.add_entity(ids, Entity::Debris(DebrisEntity::new(body)));
            k += 1;
        }
        proof {
            assert(bodies.len() == count && (forall|k: int|
                0 <= k < count ==> piece.ensures((k as usize,), #[trigger] bodies[k]))
                && self.model(*ids) == old(self).model(*old(ids)).with_all_debris(bodies));
        }
        count
    }

    /// Takes a life from the player. With the last life the game is over and
    /// the player leaves the scene.
    pub fn player_death(&mut self, ids: &IdAllocator)
        ensures
            final(self).model(*ids) == old(self).model(*ids).died(),
            final(self).web_client == old(self).web_client,
    {
        self.player_healths = self.player_healths.wrapping_sub(1);
        if self.player_healths <= 0 {
            self.state = GameState::End;
            self.scene.remove_entity(self.player_id);
        }
    }

    /// Strikes the identifier from the asteroids of the wave, once.
    fn forget_asteroid(&mut self, id: u32)
        ensures
            final(self).asteroids_ids@ == old(self).asteroids_ids@.remove_value(id),
            final(self).scene == old(self).scene,
            final(self).player_id == old(self).player_id,
            final(self).web_client == old(self).web_client,
            final(self).state == old(self).state,
            final(self).player_healths == old(self).player_healths,
            final(self).scores == old(self).scores,
            final(self).asteroids_count == old(self).asteroids_count,
    {
        let mut i: usize = 0;
        while i < self.asteroids_ids.len()
            invariant
                *self == *old(self),
                i <= self.asteroids_ids@.len(),
                forall|j: int| 0 <= j < i ==> self.asteroids_ids@[j] != id,
            decreases self.asteroids_ids.len() - i,
        {
            if self.asteroids_ids[i] == id {
                proof {
                    let all = self.asteroids_ids@;
                    assert(all[i as int] == id);
                    assert(all.contains(id));
                    all.index_of_first_ensures(id);
                    let first = all.index_of_first(id)->0;
                    if first < i {
                        assert(all[first] != id);
                    }
                }
                let _ = self.asteroids_ids.remove(i);
                return ;
            }
            i += 1;
        }
        proof {
            let all = self.asteroids_ids@;
            all.index_of_first_ensures(id);
            if all.contains(id) {
                let first = all.index_of_first(id)->0;
                assert(all[first] == id);
            }
        }
    }

    /// Settles the report of an asteroid that was shot apart at `at`.
    ///
    /// `assess` says what the asteroid is worth and whether it is large
    /// enough to split. Its points go to the score and it is struck from the
    /// wave. If it splits, two or three fragments are spawned as asteroids
    /// of the wave, each with a body that `child` makes.
    fn demolish<J: Fn(&B) -> Breakup, C: Fn(&B) -> B>(
        &mut self,
        ids: &mut IdAllocator,
        at: &B,
        id: u32,
        assess: &J,
        child: &C,
    ) -> (fragments: Ghost<Fragments<B>>)
        requires
            forall|b: &B| assess.requires((b,)),
            forall|b: &B| child.requires((b,)),
        ensures
            assess.ensures((at,), fragments@.breakup),
            fan_out(fragments@),
            forall|k: int|
                0 <= k < fragments@.children.len() ==> child.ensures(
                    (at,),
                    #[trigger] fragments@.children[k],
                ),
            final(self).model(*final(ids)) == old(self).model(*old(ids)).demolished(id, fragments@),
            final(self).web_client == old(self).web_client,
    {
        let breakup = assess(at);
        self.scores = self.scores.wrapping_add(breakup.points);
        self.forget_asteroid(id);
        let count: usize = if breakup.splits {
            random_usize(2, 4)
        } else {
            0
        };
        let ghost base = self.model(*ids);
        let ghost mut children: Seq<B> = Seq::empty();
        let mut k: usize = 0;
        while k < count
            invariant
                forall|b: &B| child.requires((b,)),
                k <= count,
                children.len() == k,
                forall|j: int| 0 <= j < k ==> child.ensures((at,), #[trigger] children[j]),
                self.model(*ids) == base.with_asteroids(children),
                self.web_client == old(self).web_client,
            decreases count - k,
        {
            let body = child(at);
            proof {
                assert(children.push(body).drop_last() =~= children);
                children = children.push(body);
            }
            let _ = self.spawn_asteroid(ids, body);
            k += 1;
        }
        Ghost(Fragments { breakup, children })
    }

    /// The scene's own rules for one frame.
    ///
    /// First the enemy's spawn timer has its say, as in
    /// [`GameScene::spawn_enemy_timer`]. Then the events of the frame's
    /// batch are settled in their order: a report of an asteroid shot apart
    /// scores, strikes the asteroid from the wave and spawns two or three
    /// fragments if `assess` finds it large enough, each with a body made by
    /// `child`; the loss of a life counts the lives down and ends the game
    /// with the last one. At last, when no asteroid of the wave is left, the
    /// wave grows by two and is left for the caller to fill.
    ///
    /// Hands back whether the enemy came in.
    pub fn custom_events_solve<
        F: Fn(usize, usize) -> bool,
        G: Fn(usize, usize) -> (B, i8),
        J: Fn(&B) -> Breakup,
        C: Fn(&B) -> B,
    >(
        &mut self,
        ids: &mut IdAllocator,
        scene_event: &Vec<SceneEvent<B>>,
        config: &Config,
        due: bool,
        is_clear: &F,
        make: &G,
        assess: &J,
        child: &C,
    ) -> (spawned: bool)
        requires
            due ==> config.actual_size().0 > 2 * ENEMY_MARGIN && config.actual_size().1 > 2
                * ENEMY_MARGIN,
            forall|x: usize, y: usize| is_clear.requires((x, y)),
            forall|x: usize, y: usize| make.requires((x, y)),
            forall|b: &B| assess.requires((b,)),
            forall|b: &B| child.requires((b,)),
        ensures
            exists|outcome: EnemyOutcome<B>, trace: Seq<Fragments<B>>|
                {
                    &&& #[trigger] timed(*config, due, *is_clear, *make, outcome)
                    &&& #[trigger] traced(scene_event@, *assess, *child, trace)
                    &&& spawned == (outcome is Spawned)
                    &&& final(self).model(*final(ids)) == old(self).model(
                        *old(ids),
                    ).after_spawn_timer(outcome).resolved_all(scene_event@, trace).next_wave()
                },
            final(self).web_client == old(self).web_client,
    {
        let spawned = self.spawn_enemy_timer(ids, config, due, is_clear, make);
        let ghost outcome = choose|outcome: EnemyOutcome<B>|
            {
                &&& #[trigger] timed(*config, due, *is_clear, *make, outcome)
                &&& spawned == (outcome is Spawned)
                &&& self.model(*ids) == old(self).model(*old(ids)).after_spawn_timer(outcome)
            };
        let ghost start = self.model(*ids);
        let ghost mut trace: Seq<Fragments<B>> = Seq::empty();
        let mut n: usize = 0;
        while n < scene_event.len()
            invariant
                forall|b: &B| assess.requires((b,)),
                forall|b: &B| child.requires((b,)),
                n <= scene_event.len(),
                traced(scene_event@.take(n as int), *assess, *child, trace),
                self.model(*ids) == start.resolved_all(scene_event@.take(n as int), trace),
                self.web_client == old(self).web_client,
            decreases scene_event.len() - n,
        {
            let ghost mut found = Fragments {
                breakup: Breakup { points: 0, splits: false },
                children: Seq::<B>::empty(),
            };
            match &scene_event[n] {
                SceneEvent::DemolishAsteroid { at, id } => {
                    let fragments = self.demolish(ids, at, *id, assess, child);
                    proof {
                        found = fragments@;
                    }
                },
                SceneEvent::PlayerDeath => {
                    self.player_death(ids);
                },
                _ => {},
            }
            proof {
                let grown = trace.push(found);
                let seen = scene_event@.take(n + 1);
                assert(seen.drop_last() =~= scene_event@.take(n as int));
                assert(seen.last() == scene_event@[n as int]);
                assert(grown.drop_last() =~= trace);
                assert(traced(seen, *assess, *child, grown)) by {
                    assert forall|i: int| 0 <= i < seen.len() implies (
                    #[trigger] seen[i] matches SceneEvent::DemolishAsteroid { at, id } ==> {
                        &&& assess.ensures((&at,), grown[i].breakup)
                        &&& fan_out(grown[i])
                        &&& forall|k: int|
                            0 <= k < grown[i].children.len() ==> child.ensures(
                                (&at,),
                                #[trigger] grown[i].children[k],
                            )
                    }) by {
                        if i < n {
                            assert(seen[i] == scene_event@.take(n as int)[i]);
                            assert(grown[i] == trace[i]);
                        }
                    }
                }
                trace = grown;
            }
            n += 1;
        }
        if self.asteroids_ids.len() == 0 {
            self.asteroids_count = self.asteroids_count.wrapping_add(WAVE_GROWTH);
        }
        proof {
            assert(scene_event@.take(scene_event@.len() as int) =~= scene_event@);
            assert(timed(*config, due, *is_clear, *make, outcome) && traced(
                scene_event@,
                *assess,
                *child,
                trace,
            ) && spawned == (outcome is Spawned) && self.model(*ids) == old(self).model(
                *old(ids),
            ).after_spawn_timer(outcome).resolved_all(scene_event@, trace).next_wave());
        }
        spawned
    }

    /// What the screen of a finished game asks of the driver.
    ///
    /// While the game is played nothing is asked. Once it is over, a change
    /// of the nickname field is taken in; "Send" counts if the nickname was
    /// long enough before this frame's change, and then the score is handed
    /// back for submission under the nickname as it is now; "Send" that
    /// counts and "Menu" both lead back to the menu.
    pub fn ui(&mut self, input: EndScreenInput) -> (asked: (SceneSwitch, Option<SendData>))
        ensures
            final(self).scene == old(self).scene,
            final(self).asteroids_ids == old(self).asteroids_ids,
            final(self).player_id == old(self).player_id,
            final(self).state == old(self).state,
            final(self).player_healths == old(self).player_healths,
            final(self).scores == old(self).scores,
            final(self).asteroids_count == old(self).asteroids_count,
            old(self).state == GameState::Active ==> asked.0 == SceneSwitch::Stay && asked.1 is None
                && final(self).web_client == old(self).web_client,
            old(self).state == GameState::End ==> {
                let can_send = old(self).web_client.nickname().len() >= crate::web::NICKNAME_MIN;
                let sent = input.send_clicked && can_send;
                &&& final(self).web_client.nickname() == (match input.edited {
                    Some(text) => crate::web::cleaned(text@),
                    None => old(self).web_client.nickname(),
                })
                &&& final(self).web_client.leaderboard() == old(self).web_client.leaderboard()
                &&& asked.0 == (if sent || input.menu_clicked {
                    SceneSwitch::Switch(SceneId::Menu)
                } else {
                    SceneSwitch::Stay
                })
                &&& asked.1 is Some == sent
                &&& sent ==> asked.1->0@ == (final(self).web_client.nickname(), old(self).scores)
            },
    {
        match self.state {
            GameState::Active => (SceneSwitch::Stay, None),
            GameState::End => {
                let can_send = self.web_client.is_available_name();
                let mut scene_switch = SceneSwitch::Stay;
                let mut submission: Option<SendData> = None;
                match input.edited {
                    Some(text) => {
                        self.web_client.change_nickname(text);
                    },
                    None => {},
                }
                if input.send_clicked && can_send {
                    submission = Some(self.web_client.send_web_data(self.scores));
                    scene_switch = SceneSwitch::Switch(SceneId::Menu);
                }
                if input.menu_clicked {
                    scene_switch = SceneSwitch::Switch(SceneId::Menu);
                }
                (scene_switch, submission)
            },
        }
    }
}

} // verus!
