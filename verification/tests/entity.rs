use asteroids::entity::{
    AsteroidEntity, BulletEntity, DebrisEntity, EnemyEntity, Entity, PlayerEntity,
    BULLET_LIFETIME_MS, DEBRIS_LIFETIME_MS, GOD_MODE_MS, SHOOT_COOLDOWN_MS,
};
use asteroids::events::SceneEvent;
use asteroids::layers::ColLayer;

const ALL: [ColLayer; 5] = [
    ColLayer::Player,
    ColLayer::Asteroid,
    ColLayer::BulletPlayer,
    ColLayer::BulletEnemy,
    ColLayer::Enemy,
];

fn destroyed_ids<B>(events: &[SceneEvent<B>]) -> Vec<u32> {
    events
        .iter()
        .filter_map(|e| match e {
            SceneEvent::DestroyEntity(id) => Some(*id),
            _ => None,
        })
        .collect()
}

fn seconds(millis: u32) -> f32 {
    millis as f32 / 1000.0
}

#[test]
fn the_times_of_the_rules() {
    assert_eq!(seconds(BULLET_LIFETIME_MS), 0.5);
    assert_eq!(seconds(DEBRIS_LIFETIME_MS), 1.5);
    assert_eq!(seconds(GOD_MODE_MS), 5.0);
    assert_eq!(seconds(SHOOT_COOLDOWN_MS), 0.25);
}

#[test]
fn bullet_lifetime() {
    let lifetime = seconds(BULLET_LIFETIME_MS);
    let dt = 0.1f32;
    let mut bullet: BulletEntity<()> = BulletEntity::new((), ColLayer::BulletPlayer);
    bullet.id = 7;
    let mut timer = 0.0f32;
    let mut requests: Vec<(usize, u32)> = Vec::new();
    for step in 1..=6 {
        timer += dt;
        let events = bullet.update(timer > lifetime);
        for id in destroyed_ids(&events) {
            requests.push((step, id));
        }
        assert!(events.len() <= 1);
    }
    assert_eq!(requests, vec![(6, 7)]);
}

#[test]
fn a_bullet_that_hit_something_asks_to_be_removed() {
    for layer in ALL {
        let mut bullet: BulletEntity<u8> = BulletEntity::new(0, ColLayer::BulletEnemy);
        bullet.id = 3;
        assert!(bullet.update(false).is_empty());
        bullet.on_collision(layer);
        assert!(bullet.spent);
        assert_eq!(destroyed_ids(&bullet.update(false)), vec![3]);
    }
}

#[test]
fn a_bullet_keeps_the_layer_it_was_fired_from() {
    let friend = Entity::Bullet(BulletEntity::new(0u8, ColLayer::BulletPlayer));
    let foe = Entity::Bullet(BulletEntity::new(0u8, ColLayer::BulletEnemy));
    assert_eq!(friend.get_collision_layer(), ColLayer::BulletPlayer);
    assert_eq!(foe.get_collision_layer(), ColLayer::BulletEnemy);
    assert_eq!(friend.get_entity_id(), 0);
}

#[test]
fn the_player_is_hurt_by_enemy_bullets_asteroids_and_enemies() {
    for layer in ALL {
        let mut player: PlayerEntity<u8> = PlayerEntity::new(0);
        player.on_collision(layer);
        let hurts = matches!(layer, ColLayer::BulletEnemy | ColLayer::Asteroid | ColLayer::Enemy);
        assert_eq!(player.is_hitted, hurts);
    }
}

#[test]
fn an_invulnerable_player_is_not_hurt() {
    for layer in ALL {
        let mut player: PlayerEntity<u8> = PlayerEntity::new(0);
        player.is_god_mode = true;
        player.on_collision(layer);
        assert!(!player.is_hitted);
    }
}

#[test]
fn a_player_that_was_hit_is_invulnerable_for_five_seconds() {
    let mut player: PlayerEntity<u8> = PlayerEntity::new(1);
    player.on_collision(ColLayer::Asteroid);
    let dt = 0.0625f32;
    let mut god_mode_time = 0.0f32;
    let mut frames = 0;
    loop {
        if player.is_hitted {
            god_mode_time = 0.0;
        }
        let shielded = player.is_shielded();
        let mut over = false;
        if shielded {
            god_mode_time += dt;
            over = god_mode_time > seconds(GOD_MODE_MS);
        }
        player.update(over, false, false, 0);
        frames += 1;
        if !player.is_god_mode {
            break;
        }
        assert!(frames < 1000);
    }
    // Eighty frames of a sixteenth of a second make five seconds, which is
    // not yet more than five.
    assert_eq!(frames, 81);
}

#[test]
fn the_player_fires_four_times_a_second() {
    let mut player: PlayerEntity<u8> = PlayerEntity::new(1);
    let dt = 0.0625f32;
    let mut shoot_time = 0.0f32;
    let mut shots = Vec::new();
    for frame in 1..=16 {
        shoot_time += dt;
        let ready = shoot_time >= seconds(SHOOT_COOLDOWN_MS);
        let events = player.update(false, true, ready, 0);
        if !events.is_empty() {
            shoot_time = 0.0;
            shots.push(frame);
        }
    }
    assert_eq!(shots, vec![4, 8, 12, 16]);
}

#[test]
fn a_player_is_shielded_while_hit_or_invulnerable() {
    let mut player: PlayerEntity<u8> = PlayerEntity::new(1);
    assert!(!player.is_shielded());
    player.on_collision(ColLayer::Asteroid);
    assert!(player.is_shielded());
    player.update(false, false, false, 0);
    assert!(!player.is_hitted);
    assert!(player.is_shielded());
    player.update(true, false, false, 0);
    assert!(!player.is_shielded());
}

#[test]
fn a_hit_player_dies_once_and_becomes_invulnerable() {
    let mut player: PlayerEntity<u8> = PlayerEntity::new(1);
    player.id = 4;
    player.on_collision(ColLayer::Asteroid);
    let events = player.update(false, false, false, 9);
    assert_eq!(events.len(), 1);
    assert!(matches!(events[0], SceneEvent::PlayerDeath));
    assert!(!player.is_hitted);
    assert!(player.is_god_mode);
    assert_eq!(player.id, 4);
    assert_eq!(player.body, 1);

    player.on_collision(ColLayer::Asteroid);
    assert!(!player.is_hitted);
    assert!(player.update(false, false, false, 9).is_empty());
    assert!(player.is_god_mode);

    assert!(player.update(true, false, false, 9).is_empty());
    assert!(!player.is_god_mode);
}

#[test]
fn invulnerability_that_is_over_in_the_frame_of_the_hit_ends_at_once() {
    let mut player: PlayerEntity<u8> = PlayerEntity::new(1);
    player.on_collision(ColLayer::Enemy);
    let events = player.update(true, false, false, 9);
    assert_eq!(events.len(), 1);
    assert!(!player.is_god_mode);
}

#[test]
fn the_player_fires_only_with_the_trigger_held_and_the_gun_ready() {
    for fire in [false, true] {
        for ready in [false, true] {
            let mut player: PlayerEntity<u8> = PlayerEntity::new(1);
            let events = player.update(false, fire, ready, 42);
            if fire && ready {
                assert_eq!(events.len(), 1);
                match &events[0] {
                    SceneEvent::SpawnEntity(Entity::Bullet(bullet)) => {
                        assert_eq!(bullet.body, 42);
                        assert_eq!(bullet.layer, ColLayer::BulletPlayer);
                        assert_eq!(bullet.id, 0);
                        assert!(!bullet.spent);
                    }
                    _ => panic!("expected a bullet"),
                }
            } else {
                assert!(events.is_empty());
            }
        }
    }
}

#[test]
fn a_dying_player_that_fires_reports_the_death_first() {
    let mut player: PlayerEntity<u8> = PlayerEntity::new(1);
    player.on_collision(ColLayer::BulletEnemy);
    let events = player.update(false, true, true, 5);
    assert_eq!(events.len(), 2);
    assert!(matches!(events[0], SceneEvent::PlayerDeath));
    assert!(matches!(events[1], SceneEvent::SpawnEntity(Entity::Bullet(_))));
}

#[test]
fn asteroids_break_on_everything_but_asteroids() {
    for layer in ALL {
        let mut asteroid: AsteroidEntity<u8> = AsteroidEntity::new(0);
        asteroid.on_collision(layer);
        assert_eq!(asteroid.is_need_destroy, layer != ColLayer::Asteroid);
    }
}

#[test]
fn a_broken_asteroid_reports_the_break_and_asks_to_be_removed() {
    let mut asteroid: AsteroidEntity<(f32, f32)> = AsteroidEntity::new((1.0, 2.0));
    asteroid.id = 11;
    assert!(asteroid.update((1.0, 2.0)).is_empty());
    asteroid.on_collision(ColLayer::BulletPlayer);
    let events = asteroid.update((3.0, 4.0));
    assert_eq!(events.len(), 2);
    match &events[0] {
        SceneEvent::DemolishAsteroid { at, id } => {
            assert_eq!(*at, (3.0, 4.0));
            assert_eq!(*id, 11);
        }
        _ => panic!("expected the report of the break first"),
    }
    assert!(matches!(events[1], SceneEvent::DestroyEntity(11)));
}

#[test]
fn enemies_are_destroyed_by_player_bullets_and_asteroids() {
    for layer in ALL {
        let mut enemy: EnemyEntity<u8> = EnemyEntity::new(0, -1);
        enemy.on_collision(layer);
        let kills = matches!(layer, ColLayer::BulletPlayer | ColLayer::Asteroid);
        assert_eq!(enemy.destroy, kills);
    }
}

#[test]
fn a_destroyed_enemy_leaves_debris_and_may_still_fire() {
    let mut enemy: EnemyEntity<u8> = EnemyEntity::new(0, -1);
    enemy.id = 9;
    assert!(enemy.update(1, false, 2).is_empty());
    let shot = enemy.update(1, true, 2);
    assert_eq!(shot.len(), 1);
    match &shot[0] {
        SceneEvent::SpawnEntity(Entity::Bullet(bullet)) => {
            assert_eq!(bullet.layer, ColLayer::BulletEnemy);
            assert_eq!(bullet.body, 2);
        }
        _ => panic!("expected a bullet"),
    }
    enemy.on_collision(ColLayer::BulletPlayer);
    let events = enemy.update(1, true, 2);
    assert_eq!(events.len(), 3);
    assert!(matches!(events[0], SceneEvent::DestroyEntity(9)));
    assert!(matches!(events[1], SceneEvent::SpawnDebris(1)));
    assert!(matches!(events[2], SceneEvent::SpawnEntity(Entity::Bullet(_))));
}

#[test]
fn a_drawn_direction_of_zero_is_thrown_away() {
    assert_eq!(EnemyEntity::<u8>::keep_direction(0), None);
    assert_eq!(EnemyEntity::<u8>::keep_direction(-1), Some(-1));
    assert_eq!(EnemyEntity::<u8>::keep_direction(1), Some(1));
}

#[test]
fn drawn_directions_come_from_the_range() {
    let mut kept = 0;
    let mut thrown = 0;
    for _ in 0..400 {
        match EnemyEntity::<u8>::draw_direction() {
            Some(dir) => {
                assert_eq!(dir, -1);
                kept += 1;
            }
            None => thrown += 1,
        }
    }
    assert!(kept > 0);
    assert!(thrown > 0);
}

#[test]
fn debris_takes_no_part_in_collisions() {
    let mut debris = Entity::Debris(DebrisEntity::new(5u8));
    assert!(!debris.can_collide());
    assert!(debris.get_collision_mesh().is_none());
    assert_eq!(debris.get_collision_layer(), ColLayer::Player);
    for layer in ALL {
        debris.on_collision(layer);
    }
    match debris {
        Entity::Debris(d) => {
            assert_eq!(d.body, 5);
            assert_eq!(d.id, 0);
        }
        _ => panic!("debris stays debris"),
    }
}

#[test]
fn debris_asks_to_be_removed_once_it_has_outlived_its_lifetime() {
    let lifetime = seconds(DEBRIS_LIFETIME_MS);
    let mut debris: DebrisEntity<()> = DebrisEntity::new(());
    debris.id = 2;
    let mut timer = 0.0f32;
    let mut first = None;
    for step in 1..=10 {
        timer += 0.25;
        let events = debris.update(timer > lifetime);
        if !events.is_empty() {
            assert!(matches!(events[0], SceneEvent::DestroyEntity(2)));
            if first.is_none() {
                first = Some(step);
            }
        }
    }
    assert_eq!(first, Some(7));
}

#[test]
fn every_kind_but_debris_offers_its_body_for_the_geometric_test() {
    let kinds: Vec<Entity<u8>> = vec![
        Entity::Player(PlayerEntity::new(1)),
        Entity::Bullet(BulletEntity::new(2, ColLayer::BulletPlayer)),
        Entity::Asteroid(AsteroidEntity::new(3)),
        Entity::Enemy(EnemyEntity::new(4, -1)),
    ];
    let layers = [ColLayer::Player, ColLayer::BulletPlayer, ColLayer::Asteroid, ColLayer::Enemy];
    for (i, kind) in kinds.iter().enumerate() {
        assert!(kind.can_collide());
        assert_eq!(kind.get_collision_mesh(), Some(&(i as u8 + 1)));
        assert_eq!(kind.get_collision_layer(), layers[i]);
    }
}

#[test]
fn setting_the_identifier_changes_nothing_else() {
    let mut enemy = Entity::Enemy(EnemyEntity::new(4u8, -1));
    enemy.set_entity_id(77);
    assert_eq!(enemy.get_entity_id(), 77);
    match enemy {
        Entity::Enemy(e) => {
            assert_eq!(e.body, 4);
            assert_eq!(e.x_dir, -1);
            assert!(!e.destroy);
        }
        _ => panic!("an enemy stays an enemy"),
    }
}
