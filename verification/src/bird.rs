//! Birds: what a bird asset describes, the components a spawned bird gets
//! once its asset is ready, and what feeding a bird does to it, to its speed
//! and to the score.

use vstd::prelude::*;

use crate::animation::AnimationIndices;
use crate::interpolation::{Pose, TargetTransform, PROGRESS_PARKED};
use crate::physics::{Collider, Rect, Velocity};
use crate::random::coin;

verus! {

/// A bird in the world.
pub struct Bird {
    pub name: String,
    /// Units of food still needed to satisfy its hunger.
    pub hunger: i8,
    /// Its hunger when it spawned, for the hunger bar.
    pub initial_hunger: i8,
    /// Points one unit of food is worth.
    pub on_feed_points: u32,
    /// Chance per step of dropping something, over
    /// [`crate::random::PROB_SCALE`].
    pub drop_probability: u32,
}

/// What a bird's asset file describes. Lengths are integer world units,
/// speeds units per step, probabilities ratios over
/// [`crate::random::PROB_SCALE`].
pub struct BirdAsset {
    pub name: String,
    pub hunger: i8,
    pub size: (i64, i64),
    pub sprite: String,
    pub velocity: i64,
    pub on_feed_points: u32,
    pub drop_probability: u32,
    /// Columns and rows of the sprite sheet; a plain image has none.
    pub atlas_dimensions: Option<(u32, u32)>,
    /// What the bird may drop, each with its weight.
    pub droppings: Option<Vec<BirdDroppingChoice>>,
}

/// One thing a bird may drop, weighted among its kind's choices.
pub struct BirdDroppingChoice {
    pub asset: String,
    pub probability: u32,
}

/// The components a bird entity is built from once its asset is ready.
pub struct BirdBundle {
    pub bird: Bird,
    pub velocity: Velocity,
    pub collider: Collider,
    pub animation: AnimationIndices,
    /// Where the hunger bar hangs beside the bird.
    pub hunger_bar_offset_x: i64,
    /// The bird's transform transition: parked, and not blending
    /// translation, which would fight its movement.
    pub target: TargetTransform<Pose>,
}

/// Builds a bird's components from its asset, as the asset-ready handler
/// does: the bird's stats as the file gives them, a collider of the sprite's
/// size, the sprite sheet's frames (one frame without atlas dimensions), and
/// the hunger bar at six tenths of the sprite's width (integer division).
pub fn materialize_bird(asset: BirdAsset) -> (r: BirdBundle)
    requires
        0 <= asset.size.0 <= 0x1_0000_0000,
        0 <= asset.size.1 <= 0x1_0000_0000,
        asset.atlas_dimensions matches Some(d) ==> 1 <= d.0 * d.1 <= 0x1_0000_0000,
    ensures
        r.bird.name == asset.name,
        r.bird.hunger == asset.hunger,
        r.bird.initial_hunger == asset.hunger,
        r.bird.on_feed_points == asset.on_feed_points,
        r.bird.drop_probability == asset.drop_probability,
        r.velocity == Velocity(asset.velocity),
        r.collider matches Collider::Rectangle(rc) && rc.half_width == asset.size.0 / 2
            && rc.half_height == asset.size.1 / 2,
        r.animation.first == 0,
        asset.atlas_dimensions matches Some(d) ==> r.animation.last == d.0 * d.1 - 1,
        asset.atlas_dimensions is None ==> r.animation.last == 0,
        r.hunger_bar_offset_x == asset.size.0 * 6 / 10,
        r.target.progress() == PROGRESS_PARKED,
        !r.target.lerp_transform,
        r.target.lerp_rotation && r.target.lerp_scale,
{
    let mut target: TargetTransform<Pose> = TargetTransform::new(Pose::identity());
    target.lerp_transform = false;
    target.finish();
    let frames: u64 = match asset.atlas_dimensions {
        Some(d) => (d.0 as u64) * (d.1 as u64),
        None => 1,
    };
    let animation = AnimationIndices { first: 0, last: (frames - 1) as usize };
    let collider = Collider::Rectangle(Rect::from_size(asset.size.0, asset.size.1));
    BirdBundle {
        bird: Bird {
            name: asset.name,
            hunger: asset.hunger,
            initial_hunger: asset.hunger,
            on_feed_points: asset.on_feed_points,
            drop_probability: asset.drop_probability,
        },
        velocity: Velocity(asset.velocity),
        collider,
        animation,
        hunger_bar_offset_x: asset.size.0 * 6 / 10,
        target,
    }
}

/// One projectile feeding one bird, as the contact handler applies it: a
/// sated bird ignores the hit and leaves the projectile in flight; otherwise
/// the projectile is spent, the bird's hunger falls by one unit, the score
/// grows by the bird's points, and a bird fed to fullness doubles its speed
/// and flies away.
pub fn bird_hit(bird: &mut Bird, velocity: &mut Velocity, score: &mut u32) -> (flew_away: bool)
    requires
        *old(score) + old(bird).on_feed_points <= u32::MAX,
        -0x2000_0000_0000_0000 <= old(velocity).0 <= 0x2000_0000_0000_0000,
    ensures
        old(bird).hunger == 0 ==> !flew_away && *final(bird) == *old(bird) && *final(velocity)
            == *old(velocity) && *final(score) == *old(score),
        old(bird).hunger != 0 ==> final(bird).hunger == (
        if old(bird).hunger == i8::MIN {
            i8::MIN as int
        } else {
            old(bird).hunger - 1
        }) && *final(score) == *old(score) + old(bird).on_feed_points,
        final(bird).name == old(bird).name,
        final(bird).initial_hunger == old(bird).initial_hunger,
        final(bird).on_feed_points == old(bird).on_feed_points,
        final(bird).drop_probability == old(bird).drop_probability,
        flew_away == (old(bird).hunger != 0 && final(bird).hunger == 0),
        flew_away ==> final(velocity).0 == 2 * old(velocity).0,
        !flew_away ==> *final(velocity) == *old(velocity),
{
    if bird.hunger == 0 {
        return false;
    }
    bird.hunger = if bird.hunger == i8::MIN {
        bird.hunger
    } else {
        bird.hunger - 1
    };
    *score = *score + bird.on_feed_points;
    if bird.hunger == 0 {
        velocity.0 = 2 * velocity.0;
        true
    } else {
        false
    }
}

/// The turn a bird flying away takes: two radians, left or right at random.
pub fn flyaway_turn() -> (r: i64)
    ensures
        r == 2000 || r == -2000,
{
    if coin() {
        -2000
    } else {
        2000
    }
}

/// What the hunger bar shows for a bird: whether it is gone (the bird is
/// sated) and how much of the bird's appetite has been fed, in thousandths
/// (integer division).
pub fn hunger_bar_update(bird: &Bird) -> (r: (bool, u32))
    requires
        0 < bird.initial_hunger,
        0 <= bird.hunger <= bird.initial_hunger,
    ensures
        r.0 == (bird.hunger == 0),
        r.1 == 1000 * (bird.initial_hunger - bird.hunger) / (bird.initial_hunger as int),
{
    let fed = (bird.initial_hunger - bird.hunger) as i64;
    let permille = 1000 * fed / (bird.initial_hunger as i64);
    (bird.hunger == 0, permille as u32)
}

} // verus!
