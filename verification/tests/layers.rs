use asteroids::layers::{layers_collide, ColLayer, COLLISION_TABLE, LAYER_COUNT};

const ALL: [ColLayer; 5] = [
    ColLayer::Player,
    ColLayer::Asteroid,
    ColLayer::BulletPlayer,
    ColLayer::BulletEnemy,
    ColLayer::Enemy,
];

#[test]
fn layer_indices_follow_declaration_order() {
    for (i, layer) in ALL.iter().enumerate() {
        assert_eq!(layer.idx(), i);
    }
    assert_eq!(LAYER_COUNT, 5);
}

#[test]
fn collision_table_is_symmetric() {
    for i in 0..LAYER_COUNT {
        for j in 0..LAYER_COUNT {
            assert_eq!(COLLISION_TABLE[i][j], COLLISION_TABLE[j][i]);
        }
    }
    for a in ALL {
        for b in ALL {
            assert_eq!(layers_collide(a, b), layers_collide(b, a));
        }
    }
}

#[test]
fn no_layer_collides_with_itself() {
    for a in ALL {
        assert!(!layers_collide(a, a));
    }
}

#[test]
fn player_bullets_hit_asteroids_and_enemies_only() {
    assert!(layers_collide(ColLayer::BulletPlayer, ColLayer::Asteroid));
    assert!(layers_collide(ColLayer::BulletPlayer, ColLayer::Enemy));
    assert!(!layers_collide(ColLayer::BulletPlayer, ColLayer::Player));
    assert!(!layers_collide(ColLayer::BulletPlayer, ColLayer::BulletEnemy));
}

#[test]
fn enemy_bullets_hit_the_player_and_asteroids_only() {
    assert!(layers_collide(ColLayer::BulletEnemy, ColLayer::Player));
    assert!(layers_collide(ColLayer::BulletEnemy, ColLayer::Asteroid));
    assert!(!layers_collide(ColLayer::BulletEnemy, ColLayer::Enemy));
}
