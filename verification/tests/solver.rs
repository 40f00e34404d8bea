use std::cell::RefCell;

use asteroids::entity::{
    AsteroidEntity, BulletEntity, DebrisEntity, EnemyEntity, Entity, PlayerEntity,
};
use asteroids::events::SceneEvent;
use asteroids::ids::IdAllocator;
use asteroids::layers::ColLayer;
use asteroids::scene::Scene;
use asteroids::solver::{detect_collisions, solve_collision};

fn scene_of(objects: Vec<Entity<u32>>) -> Scene<u32> {
    let mut ids = IdAllocator::new();
    let mut scene = Scene::new();
    for o in objects {
        scene.add_entity(&mut ids, o);
    }
    scene
}

fn pairs(events: &[SceneEvent<u32>]) -> Vec<(u32, u32)> {
    events
        .iter()
        .map(|e| match e {
            SceneEvent::Collision { a, b, .. } => (*a, *b),
            _ => panic!("the solver yields collision notices only"),
        })
        .collect()
}

#[test]
fn every_touching_pair_yields_one_notice_in_the_order_of_the_pairs() {
    let scene = scene_of(vec![
        Entity::Player(PlayerEntity::new(0)),
        Entity::Asteroid(AsteroidEntity::new(0)),
        Entity::Enemy(EnemyEntity::new(0, -1)),
        Entity::Asteroid(AsteroidEntity::new(0)),
    ]);
    let always = |_: &u32, _: &u32| true;
    let events = detect_collisions(scene.get_entities(), &always);
    // Asteroids do not collide with each other: the pair (2, 4) is missing.
    assert_eq!(pairs(&events), vec![(1, 2), (1, 3), (1, 4), (2, 3), (3, 4)]);
}

#[test]
fn notices_carry_the_layers_of_both_objects() {
    let scene = scene_of(vec![
        Entity::Bullet(BulletEntity::new(0, ColLayer::BulletEnemy)),
        Entity::Player(PlayerEntity::new(0)),
    ]);
    let always = |_: &u32, _: &u32| true;
    let events = detect_collisions(scene.get_entities(), &always);
    assert_eq!(events.len(), 1);
    match &events[0] {
        SceneEvent::Collision { a, b, layer_a, layer_b } => {
            assert_eq!((*a, *b), (1, 2));
            assert_eq!(*layer_a, ColLayer::BulletEnemy);
            assert_eq!(*layer_b, ColLayer::Player);
        }
        _ => panic!("expected a collision notice"),
    }
}

#[test]
fn only_pairs_whose_layers_may_collide_are_put_to_the_test() {
    let scene = scene_of(vec![
        Entity::Bullet(BulletEntity::new(1, ColLayer::BulletPlayer)),
        Entity::Bullet(BulletEntity::new(2, ColLayer::BulletEnemy)),
        Entity::Player(PlayerEntity::new(3)),
        Entity::Debris(DebrisEntity::new(4)),
        Entity::Asteroid(AsteroidEntity::new(5)),
    ]);
    let tested = RefCell::new(Vec::new());
    let hit = |x: &u32, y: &u32| {
        tested.borrow_mut().push((*x, *y));
        false
    };
    let events = detect_collisions(scene.get_entities(), &hit);
    assert!(events.is_empty());
    assert_eq!(*tested.borrow(), vec![(1, 5), (2, 3), (2, 5), (3, 5)]);
}

#[test]
fn debris_is_never_tested() {
    let scene = scene_of(vec![
        Entity::Debris(DebrisEntity::new(0)),
        Entity::Asteroid(AsteroidEntity::new(0)),
        Entity::Enemy(EnemyEntity::new(0, -1)),
        Entity::Bullet(BulletEntity::new(0, ColLayer::BulletEnemy)),
        Entity::Debris(DebrisEntity::new(0)),
    ]);
    let always = |_: &u32, _: &u32| true;
    let events = detect_collisions(scene.get_entities(), &always);
    for (a, b) in pairs(&events) {
        assert!(a != 1 && a != 5 && b != 1 && b != 5);
    }
    assert_eq!(pairs(&events), vec![(2, 3), (2, 4)]);
}

#[test]
fn objects_that_share_an_identifier_are_not_tested_against_each_other() {
    let mut scene = scene_of(vec![
        Entity::Player(PlayerEntity::new(0)),
        Entity::Asteroid(AsteroidEntity::new(0)),
    ]);
    for e in scene.get_entities_mut().iter_mut() {
        e.set_entity_id(3);
    }
    let always = |_: &u32, _: &u32| true;
    assert!(detect_collisions(scene.get_entities(), &always).is_empty());
}

#[test]
fn the_geometric_test_decides_which_eligible_pairs_touch() {
    let scene = scene_of(vec![
        Entity::Player(PlayerEntity::new(10)),
        Entity::Asteroid(AsteroidEntity::new(10)),
        Entity::Asteroid(AsteroidEntity::new(20)),
        Entity::Enemy(EnemyEntity::new(20, -1)),
    ]);
    let same = |x: &u32, y: &u32| x == y;
    let events = detect_collisions(scene.get_entities(), &same);
    assert_eq!(pairs(&events), vec![(1, 2), (3, 4)]);
}

#[test]
fn detection_alone_tells_no_object() {
    let scene = scene_of(vec![
        Entity::Player(PlayerEntity::new(0)),
        Entity::Asteroid(AsteroidEntity::new(0)),
    ]);
    let always = |_: &u32, _: &u32| true;
    let events = detect_collisions(scene.get_entities(), &always);
    assert_eq!(events.len(), 1);
    match &scene.get_entities()[0] {
        Entity::Player(p) => assert!(!p.is_hitted),
        _ => panic!("the player comes first"),
    }
}

#[test]
fn solving_tells_both_objects_of_each_touching_pair() {
    let mut scene = scene_of(vec![
        Entity::Player(PlayerEntity::new(0)),
        Entity::Asteroid(AsteroidEntity::new(0)),
        Entity::Bullet(BulletEntity::new(1, ColLayer::BulletPlayer)),
    ]);
    let same = |x: &u32, y: &u32| x == y;
    let events = solve_collision(&mut scene, &same);
    assert_eq!(pairs(&events), vec![(1, 2)]);
    match &scene.get_entities()[0] {
        Entity::Player(p) => assert!(p.is_hitted),
        _ => panic!("the player comes first"),
    }
    match &scene.get_entities()[1] {
        Entity::Asteroid(a) => assert!(a.is_need_destroy),
        _ => panic!("the asteroid comes second"),
    }
    match &scene.get_entities()[2] {
        Entity::Bullet(b) => assert!(!b.spent),
        _ => panic!("the bullet comes third"),
    }
}

#[test]
fn an_empty_scene_and_a_single_object_have_no_pairs() {
    let always = |_: &u32, _: &u32| -> bool { panic!("there is no pair to test") };
    let empty: Scene<u32> = Scene::new();
    assert!(detect_collisions(empty.get_entities(), &always).is_empty());
    let one = scene_of(vec![Entity::Player(PlayerEntity::new(0))]);
    assert!(detect_collisions(one.get_entities(), &always).is_empty());
}

#[test]
fn the_verdict_for_a_pair_does_not_depend_on_the_order_of_the_list() {
    let kinds = |order: &[usize]| -> Vec<Entity<u32>> {
        order
            .iter()
            .map(|k| match k {
                0 => Entity::Player(PlayerEntity::new(10)),
                1 => Entity::Asteroid(AsteroidEntity::new(10)),
                2 => Entity::Bullet(BulletEntity::new(20, ColLayer::BulletEnemy)),
                3 => Entity::Enemy(EnemyEntity::new(20, -1)),
                _ => Entity::Asteroid(AsteroidEntity::new(20)),
            })
            .collect()
    };
    let same = |x: &u32, y: &u32| x == y;
    // The unordered pairs of kinds that touch, whatever the order.
    let verdicts = |order: &[usize]| -> Vec<(usize, usize)> {
        let scene = scene_of(kinds(order));
        let events = detect_collisions(scene.get_entities(), &same);
        let mut found: Vec<(usize, usize)> = pairs(&events)
            .into_iter()
            .map(|(a, b)| {
                let (x, y) = (order[a as usize - 1], order[b as usize - 1]);
                (x.min(y), x.max(y))
            })
            .collect();
        found.sort();
        found
    };
    let straight = verdicts(&[0, 1, 2, 3, 4]);
    assert_eq!(straight, vec![(0, 1), (2, 4), (3, 4)]);
    for order in [[4, 3, 2, 1, 0], [1, 0, 4, 2, 3], [2, 4, 0, 3, 1], [3, 1, 4, 0, 2]] {
        assert_eq!(verdicts(&order), straight);
    }
}

#[test]
fn two_objects_collide_in_either_order() {
    for touch in [false, true] {
        let hit = |_: &u32, _: &u32| touch;
        let mut one = scene_of(vec![
            Entity::Player(PlayerEntity::new(0)),
            Entity::Asteroid(AsteroidEntity::new(0)),
        ]);
        let mut other = scene_of(vec![
            Entity::Asteroid(AsteroidEntity::new(0)),
            Entity::Player(PlayerEntity::new(0)),
        ]);
        let first = solve_collision(&mut one, &hit);
        let second = solve_collision(&mut other, &hit);
        assert_eq!(first.len(), if touch { 1 } else { 0 });
        assert_eq!(second.len(), first.len());
        let hurt = |scene: &Scene<u32>| {
            scene.get_entities().iter().any(|e| match e {
                Entity::Player(p) => p.is_hitted,
                _ => false,
            })
        };
        assert_eq!(hurt(&one), touch);
        assert_eq!(hurt(&other), touch);
    }
}
