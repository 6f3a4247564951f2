//! The player and their projectiles: the components a player is built from,
//! how key presses move the player, and what launching a projectile spawns.

use vstd::prelude::*;

use crate::physics::{Collider, ColliderIntersectionMode, Rect, Vec2i, Velocity};

verus! {

/// How much faster a sprinting player moves.
pub const PLAYER_SPRINT_MULTIPLIER: i64 = 3;

/// The player in the world.
pub struct Player {
    pub health: i32,
    /// Units moved per step and pressed direction.
    pub speed: i64,
}

/// What a player's asset file describes.
pub struct PlayerAsset {
    pub sprite: String,
    pub speed: i64,
    pub health: i32,
}

/// A projectile in flight.
pub struct Projectile {}

/// Marks an entity that can launch projectiles; the host binds the launch
/// key.
pub struct ProjectileLauncher {}

/// The player components built from the player's asset once it is ready.
pub fn materialize_player(asset: PlayerAsset) -> (r: Player)
    ensures
        r.health == asset.health,
        r.speed == asset.speed,
{
    Player { health: asset.health, speed: asset.speed }
}

/// The collision components a freshly spawned player gets: a 100 by 100 box
/// that may overlap nothing, at the level's starting position for them.
pub fn player_spawn_components(initial_position: (i64, i64, i64)) -> (r: (
    Collider,
    ColliderIntersectionMode,
    Vec2i,
))
    ensures
        r.0 matches Collider::Rectangle(rc) && rc.half_width == 50 && rc.half_height == 50,
        r.1 == ColliderIntersectionMode::Disallow,
        r.2.x == initial_position.0 && r.2.y == initial_position.1,
{
    (
        Collider::Rectangle(Rect::from_size(100, 100)),
        ColliderIntersectionMode::Disallow,
        Vec2i { x: initial_position.0, y: initial_position.1 },
    )
}

/// Where the player stands after one step of held keys: each held direction
/// moves them one move distance along its axis, and sprinting triples the
/// distance.
pub fn player_move(
    translation: Vec2i,
    player: &Player,
    sprinting: bool,
    left: bool,
    right: bool,
    up: bool,
    down: bool,
) -> (r: Vec2i)
    requires
        0 <= player.speed <= 0x1000_0000_0000,
        -0x4000_0000_0000_0000 <= translation.x <= 0x4000_0000_0000_0000,
        -0x4000_0000_0000_0000 <= translation.y <= 0x4000_0000_0000_0000,
    ensures
        ({
            let distance = if sprinting {
                PLAYER_SPRINT_MULTIPLIER * player.speed
            } else {
                player.speed as int
            };
            r.x == translation.x - (if left {
                distance
            } else {
                0
            }) + (if right {
                distance
            } else {
                0
            }) && r.y == translation.y + (if up {
                distance
            } else {
                0
            }) - (if down {
                distance
            } else {
                0
            })
        }),
{
    let distance: i64 = if sprinting {
        PLAYER_SPRINT_MULTIPLIER * player.speed
    } else {
        player.speed
    };
    let mut x = translation.x;
    let mut y = translation.y;
    if left {
        x = x - distance;
    }
    if right {
        x = x + distance;
    }
    if up {
        y = y + distance;
    }
    if down {
        y = y - distance;
    }
    Vec2i { x, y }
}

/// What pressing the launch key spawns: a projectile flying at two hundred
/// units a step, with a flat 100 by 10 box, at the launcher's translation.
pub fn launch_projectile(launcher_translation: Vec2i) -> (r: (
    Projectile,
    Velocity,
    Collider,
    Vec2i,
))
    ensures
        r.1 == Velocity(200),
        r.2 matches Collider::Rectangle(rc) && rc.half_width == 50 && rc.half_height == 5,
        r.3 == launcher_translation,
{
    (
        Projectile {  },
        Velocity(200),
        Collider::Rectangle(Rect::from_size(100, 10)),
        launcher_translation,
    )
}

} // verus!
