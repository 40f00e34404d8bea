use asteroids::entity::{AsteroidEntity, Entity};
use asteroids::events::SceneEvent;
use asteroids::ids::{get_uniq_id, IdAllocator};
use asteroids::scene::Scene;

#[test]
fn first_identifier_is_one() {
    let mut ids = IdAllocator::new();
    assert_eq!(get_uniq_id(&mut ids), 1);
    assert_eq!(get_uniq_id(&mut ids), 2);
}

#[test]
fn identifiers_are_strictly_increasing_and_distinct() {
    let mut ids = IdAllocator::new();
    let mut seen: Vec<u32> = Vec::new();
    for _ in 0..1000 {
        seen.push(get_uniq_id(&mut ids));
    }
    for pair in seen.windows(2) {
        assert!(pair[0] < pair[1]);
    }
    assert_eq!(seen[0], 1);
    assert_eq!(seen[999], 1000);
}

#[test]
fn allocators_do_not_share_a_counter() {
    let mut first = IdAllocator::new();
    let mut second = IdAllocator::new();
    assert_eq!(get_uniq_id(&mut first), 1);
    assert_eq!(get_uniq_id(&mut first), 2);
    assert_eq!(get_uniq_id(&mut second), 1);
}

fn rock(tag: u32) -> Entity<u32> {
    Entity::Asteroid(AsteroidEntity::new(tag))
}

#[test]
fn spawned_objects_get_increasing_ids_within_one_batch() {
    let mut ids = IdAllocator::new();
    let mut scene: Scene<u32> = Scene::new();
    let batch = vec![
        SceneEvent::SpawnEntity(rock(10)),
        SceneEvent::PlayerDeath,
        SceneEvent::SpawnEntity(rock(11)),
        SceneEvent::SpawnEntity(rock(12)),
    ];
    scene.apply_events(&mut ids, batch);
    let got: Vec<u32> = scene.get_entities().iter().map(|e| e.get_entity_id()).collect();
    assert_eq!(got, vec![1, 2, 3]);
}

#[test]
fn an_identifier_is_not_reused_after_a_destroy() {
    let mut ids = IdAllocator::new();
    let mut scene: Scene<u32> = Scene::new();
    let mut ever: Vec<u32> = Vec::new();
    for frame in 0..20u32 {
        let mut batch = vec![SceneEvent::SpawnEntity(rock(frame)), SceneEvent::SpawnEntity(rock(frame))];
        if let Some(first) = scene.get_entities().first() {
            batch.insert(1, SceneEvent::DestroyEntity(first.get_entity_id()));
        }
        let before: Vec<u32> = scene.get_entities().iter().map(|e| e.get_entity_id()).collect();
        scene.apply_events(&mut ids, batch);
        for e in scene.get_entities() {
            let id = e.get_entity_id();
            if !before.contains(&id) {
                assert!(!ever.contains(&id), "identifier {} was handed out twice", id);
                if let Some(last) = ever.last() {
                    assert!(*last < id);
                }
                ever.push(id);
            }
        }
    }
    assert_eq!(ever.len(), 40);
    assert_eq!(ever, (1..=40).collect::<Vec<u32>>());
}
