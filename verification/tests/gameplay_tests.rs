use bird_invaders::animation::{next_atlas_index, AnimationIndices};
use bird_invaders::bird::{
    bird_hit, flyaway_turn, hunger_bar_update, materialize_bird, Bird, BirdAsset,
};
use bird_invaders::dropping::{
    apply_dropping_hit, dropping_collider, dropping_decay_step, dropping_decision,
    dropping_fall_step, GROUND_Z,
};
use bird_invaders::interpolation::{Pose, TargetTransform, PROGRESS_PARKED};
use bird_invaders::level::{
    despawn_targets, enclosing_rectangles, scenery_collider, Level, LevelScenery,
};
use bird_invaders::physics::{Collider, Vec2i, Velocity};
use bird_invaders::player::{
    launch_projectile, materialize_player, player_move, player_spawn_components, Player,
    PlayerAsset,
};
use bird_invaders::spawner::{
    bird_weights, pick_weighted, spawn_decision, spawner_positions, total_weight, BirdSpawner,
};
use bird_invaders::level::LevelBird;

fn a_bird(hunger: i8, points: u32, drop_probability: u32) -> Bird {
    Bird {
        name: String::from("pigeon"),
        hunger,
        initial_hunger: hunger,
        on_feed_points: points,
        drop_probability,
    }
}

#[test]
fn feeding_a_bird_lowers_hunger_and_raises_the_score() {
    let mut bird = a_bird(2, 7, 0);
    let mut velocity = Velocity(30);
    let mut score: u32 = 10;
    let flew = bird_hit(&mut bird, &mut velocity, &mut score);
    assert!(!flew);
    assert_eq!(bird.hunger, 1);
    assert_eq!(score, 17);
    assert_eq!(velocity.0, 30);
}

#[test]
fn a_bird_fed_to_fullness_doubles_its_speed() {
    let mut bird = a_bird(1, 7, 0);
    let mut velocity = Velocity(30);
    let mut score: u32 = 0;
    let flew = bird_hit(&mut bird, &mut velocity, &mut score);
    assert!(flew);
    assert_eq!(bird.hunger, 0);
    assert_eq!(score, 7);
    assert_eq!(velocity.0, 60);
}

#[test]
fn a_sated_bird_ignores_hits() {
    let mut bird = a_bird(0, 7, 0);
    let mut velocity = Velocity(30);
    let mut score: u32 = 5;
    let flew = bird_hit(&mut bird, &mut velocity, &mut score);
    assert!(!flew);
    assert_eq!(bird.hunger, 0);
    assert_eq!(score, 5);
    assert_eq!(velocity.0, 30);
}

#[test]
fn the_flyaway_turn_is_two_radians_either_way() {
    let turn = flyaway_turn();
    assert!(turn == 2000 || turn == -2000);
}

#[test]
fn the_hunger_bar_tracks_the_fed_fraction() {
    let mut bird = a_bird(4, 1, 0);
    bird.hunger = 3;
    assert_eq!(hunger_bar_update(&bird), (false, 250));
    bird.hunger = 0;
    assert_eq!(hunger_bar_update(&bird), (true, 1000));
}

#[test]
fn a_bird_is_built_from_its_asset() {
    let asset = BirdAsset {
        name: String::from("magpie"),
        hunger: 3,
        size: (64, 32),
        sprite: String::from("sprites/magpie.png"),
        velocity: 40,
        on_feed_points: 9,
        drop_probability: 50,
        atlas_dimensions: Some((2, 3)),
        droppings: None,
    };
    let bundle = materialize_bird(asset);
    assert_eq!(bundle.bird.name, "magpie");
    assert_eq!(bundle.bird.hunger, 3);
    assert_eq!(bundle.bird.initial_hunger, 3);
    assert_eq!(bundle.bird.on_feed_points, 9);
    assert_eq!(bundle.bird.drop_probability, 50);
    assert_eq!(bundle.velocity, Velocity(40));
    match bundle.collider {
        Collider::Rectangle(rc) => {
            assert_eq!(rc.half_width, 32);
            assert_eq!(rc.half_height, 16);
        },
    }
    assert_eq!(bundle.animation.first, 0);
    assert_eq!(bundle.animation.last, 5);
    assert_eq!(bundle.hunger_bar_offset_x, 38);
    assert_eq!(bundle.target.progress_permille, PROGRESS_PARKED);
    assert!(!bundle.target.lerp_transform);
    assert!(bundle.target.lerp_rotation && bundle.target.lerp_scale);
}

#[test]
fn a_plain_image_is_a_one_frame_sheet() {
    let asset = BirdAsset {
        name: String::from("dove"),
        hunger: 1,
        size: (10, 10),
        sprite: String::from("sprites/dove.png"),
        velocity: 10,
        on_feed_points: 1,
        drop_probability: 0,
        atlas_dimensions: None,
        droppings: None,
    };
    let bundle = materialize_bird(asset);
    assert_eq!(bundle.animation.first, 0);
    assert_eq!(bundle.animation.last, 0);
}

#[test]
fn droppings_slow_until_they_land() {
    let mut v = Velocity(2);
    assert!(!dropping_fall_step(&mut v));
    assert_eq!(v.0, 1);
    assert!(dropping_fall_step(&mut v));
    assert_eq!(v.0, 0);
    assert!(!dropping_fall_step(&mut v));
    assert_eq!(v.0, 0);
    assert_eq!(GROUND_Z, 15);
}

#[test]
fn grounded_droppings_fade_and_vanish() {
    assert_eq!(dropping_decay_step(1000, 100), Some(900));
    assert_eq!(dropping_decay_step(100, 100), None);
    assert_eq!(dropping_decay_step(50, 100), None);
}

#[test]
fn stepping_in_a_dropping_costs_ten_health() {
    let mut health = 100;
    apply_dropping_hit(&mut health);
    assert_eq!(health, 90);
}

#[test]
fn dropping_colliders_overlap_freely() {
    match dropping_collider() {
        Collider::Rectangle(rc) => {
            assert_eq!(rc.half_width, 25);
            assert_eq!(rc.half_height, 25);
        },
    }
}

#[test]
fn sated_or_unlucky_birds_drop_nothing() {
    let weights = vec![5u32];
    assert_eq!(dropping_decision(&a_bird(0, 1, 1000), &weights), None);
    assert_eq!(dropping_decision(&a_bird(2, 1, 0), &weights), None);
}

#[test]
fn a_certain_dropping_draw_lands_on_a_positive_weight() {
    // with a zero-weighted first choice, the drawn kind must be the second
    let weights = vec![0u32, 7u32];
    assert_eq!(dropping_decision(&a_bird(2, 1, 1000), &weights), Some(1));
}

#[test]
fn the_player_is_built_from_their_asset() {
    let p = materialize_player(PlayerAsset {
        sprite: String::from("sprites/player.png"),
        speed: 12,
        health: 100,
    });
    assert_eq!(p.health, 100);
    assert_eq!(p.speed, 12);
}

#[test]
fn player_spawns_with_a_solid_hundred_unit_box() {
    let (collider, mode, translation) = player_spawn_components((5, -6, 7));
    match collider {
        Collider::Rectangle(rc) => {
            assert_eq!(rc.half_width, 50);
            assert_eq!(rc.half_height, 50);
        },
    }
    assert_eq!(mode, bird_invaders::physics::ColliderIntersectionMode::Disallow);
    assert_eq!(translation, Vec2i { x: 5, y: -6 });
}

#[test]
fn held_keys_move_the_player_axis_by_axis() {
    let player = Player { health: 100, speed: 4 };
    let at = Vec2i { x: 10, y: 20 };
    assert_eq!(player_move(at, &player, false, true, false, false, false), Vec2i { x: 6, y: 20 });
    assert_eq!(player_move(at, &player, false, false, true, true, false), Vec2i { x: 14, y: 24 });
    assert_eq!(player_move(at, &player, false, false, false, false, true), Vec2i { x: 10, y: 16 });
    // opposite keys cancel
    assert_eq!(player_move(at, &player, false, true, true, false, false), at);
}

#[test]
fn sprinting_triples_the_move_distance() {
    let player = Player { health: 100, speed: 4 };
    let at = Vec2i { x: 0, y: 0 };
    assert_eq!(player_move(at, &player, true, false, true, false, false), Vec2i { x: 12, y: 0 });
}

#[test]
fn a_launched_projectile_flies_flat_and_fast() {
    let (_, velocity, collider, at) = launch_projectile(Vec2i { x: 3, y: 4 });
    assert_eq!(velocity, Velocity(200));
    match collider {
        Collider::Rectangle(rc) => {
            assert_eq!(rc.half_width, 50);
            assert_eq!(rc.half_height, 5);
        },
    }
    assert_eq!(at, Vec2i { x: 3, y: 4 });
}

#[test]
fn weighted_picks_follow_the_cumulative_table() {
    let weights = vec![2u64, 3u64];
    assert_eq!(total_weight(&weights), 5);
    assert_eq!(pick_weighted(&weights, 0), 0);
    assert_eq!(pick_weighted(&weights, 1), 0);
    assert_eq!(pick_weighted(&weights, 2), 1);
    assert_eq!(pick_weighted(&weights, 4), 1);
}

#[test]
fn weighted_picks_skip_weightless_buckets() {
    let weights = vec![0u64, 1u64, 0u64, 2u64];
    assert_eq!(pick_weighted(&weights, 0), 1);
    assert_eq!(pick_weighted(&weights, 1), 3);
    assert_eq!(pick_weighted(&weights, 2), 3);
}

#[test]
fn bird_weights_read_the_level_in_order() {
    let birds = vec![
        LevelBird { asset: String::from("a.ron"), spawn_probability: 3 },
        LevelBird { asset: String::from("b.ron"), spawn_probability: 8 },
    ];
    assert_eq!(bird_weights(&birds), vec![3, 8]);
}

#[test]
fn spawners_hold_their_fire_through_the_cooldown() {
    let spawner = BirdSpawner { cooldown: 500, spawn_probability: 1000 };
    let weights = vec![1u64];
    assert_eq!(spawn_decision(&spawner, 1400, 1000, &weights), None);
    let fired = spawn_decision(&spawner, 1501, 1000, &weights);
    assert_eq!(fired, Some(0));
}

#[test]
fn a_zero_probability_spawner_never_fires() {
    let spawner = BirdSpawner { cooldown: 0, spawn_probability: 0 };
    assert_eq!(spawn_decision(&spawner, 100, 0, &vec![1u64]), None);
}

#[test]
fn a_certain_spawner_fires_once_off_cooldown() {
    let spawner = BirdSpawner { cooldown: 500, spawn_probability: 1000 };
    let weights = vec![0u64, 4u64];
    // the certain draw must land on the positively weighted bird
    assert_eq!(spawn_decision(&spawner, 1501, 1000, &weights), Some(1));
}

#[test]
fn spawners_spread_across_the_padded_window() {
    let positions = spawner_positions(1000, 800, 3, 5);
    assert_eq!(positions, vec![(-400, 500, 5), (0, 500, 5), (400, 500, 5)]);
    assert!(spawner_positions(1000, 800, 0, 5).is_empty());
    assert!(spawner_positions(1000, 800, -2, 5).is_empty());
}

#[test]
fn spawners_mirror_in_a_window_narrower_than_the_padding() {
    // span 100 - 200 = -100: the row runs right to left
    assert_eq!(spawner_positions(100, 800, 3, 1), vec![(50, 500, 1), (0, 500, 1), (-50, 500, 1)]);
    // span -200, two spawners: divisions truncate towards zero
    assert_eq!(spawner_positions(0, 800, 2, 0), vec![(100, 500, 0), (-100, 500, 0)]);
}

#[test]
fn the_fence_boxes_sit_outside_the_window() {
    let boxes = enclosing_rectangles(800, 600);
    assert_eq!(boxes.len(), 4);
    assert_eq!(boxes[0].0.half_width, 400);
    assert_eq!(boxes[0].0.half_height, 50);
    assert_eq!(boxes[0].1, Vec2i { x: 0, y: 350 });
    assert_eq!(boxes[1].1, Vec2i { x: 0, y: -350 });
    assert_eq!(boxes[2].0.half_width, 50);
    assert_eq!(boxes[2].0.half_height, 400);
    assert_eq!(boxes[2].1, Vec2i { x: 450, y: 0 });
    assert_eq!(boxes[3].1, Vec2i { x: -450, y: 0 });
}

#[test]
fn only_non_despawners_despawn_on_fence_contact() {
    assert_eq!(despawn_targets(true, false), (false, true));
    assert_eq!(despawn_targets(false, true), (true, false));
    assert_eq!(despawn_targets(false, false), (false, false));
    assert_eq!(despawn_targets(true, true), (false, false));
}

#[test]
fn scenery_only_collides_when_asked() {
    let solid = LevelScenery {
        image: String::from("tree.png"),
        size: (30, 40),
        translation: (0, 0, 0),
        collision: true,
    };
    let (collider, mode) = scenery_collider(&solid).unwrap();
    match collider {
        Collider::Rectangle(rc) => {
            assert_eq!(rc.half_width, 15);
            assert_eq!(rc.half_height, 20);
        },
    }
    assert_eq!(mode, bird_invaders::physics::ColliderIntersectionMode::Disallow);
    let soft = LevelScenery { collision: false, ..solid };
    assert!(scenery_collider(&soft).is_none());
}

#[test]
fn a_new_level_starts_from_zero_points() {
    let mut level = Level { level_handle: 3, score: 250 };
    level.reset_score();
    assert_eq!(level.score, 0);
    assert_eq!(level.level_handle, 3);
}

#[test]
fn animations_wrap_and_static_images_hold() {
    let sheet = AnimationIndices { first: 0, last: 5 };
    assert_eq!(next_atlas_index(&sheet, 0), 1);
    assert_eq!(next_atlas_index(&sheet, 4), 5);
    assert_eq!(next_atlas_index(&sheet, 5), 0);
    let image = AnimationIndices { first: 0, last: 0 };
    assert_eq!(next_atlas_index(&image, 0), 1);
}

#[test]
fn transitions_step_a_hundredth_at_a_time() {
    let mut t = TargetTransform::new(Pose::identity());
    assert_eq!(t.progress_permille, 0);
    assert!(t.lerp_transform && t.lerp_rotation && t.lerp_scale);
    assert_eq!(t.step(), Some(0));
    assert_eq!(t.step(), Some(10));
    assert_eq!(t.progress_permille, 20);
    t.finish();
    assert_eq!(t.progress_permille, PROGRESS_PARKED);
    assert_eq!(t.step(), None);
    let pose = Pose { x: 9, y: 9, z: 0, rotation_milli: 0, scale_permille: 1000 };
    t.update(pose);
    assert_eq!(t.progress_permille, 0);
    assert_eq!(*t.transform(), pose);
    t.finish();
    t.start();
    assert_eq!(t.progress_permille, 0);
}
