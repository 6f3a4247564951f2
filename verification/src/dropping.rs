//! Bird droppings: when a bird lets one go and which kind, how a dropping
//! falls and settles on the ground, how it fades away, and what stepping in
//! one costs the player.

use vstd::prelude::*;

use crate::bird::Bird;
use crate::physics::{Collider, Rect, Velocity};
use crate::random::{
    random_chance, weight_total, weighted_table_new, weighted_table_sample,
    weighted_table_weights, PROB_SCALE,
};

verus! {

/// What a dropping's asset file describes: its sprite, and how much opacity
/// it loses per step on the ground, in millionths.
pub struct BirdDroppingAsset {
    pub sprite: String,
    pub decay_rate: u32,
}

/// A dropping entity's marker.
pub struct BirdDropping;

/// Full opacity, in the millionths a dropping's fade is counted in.
pub const ALPHA_FULL: u32 = 1_000_000;

/// The fade per step assumed of a dropping whose asset is not at hand.
pub const DEFAULT_DECAY_RATE: u32 = 100;

/// The depth a dropping settles at when it lands.
pub const GROUND_Z: i64 = 15;

/// The collider a dropping gets once its asset is ready: a 50 by 50 box that
/// may overlap anything.
pub fn dropping_collider() -> (r: Collider)
    ensures
        r matches Collider::Rectangle(rc) && rc.half_width == 25 && rc.half_height == 25,
{
    Collider::Rectangle(Rect::from_size(50, 50))
}

/// Whether a bird lets a dropping go this step, and which of its kinds: a
/// sated bird drops nothing, otherwise it drops with its own probability —
/// always, at full probability — and the kind is drawn by the choices'
/// weights. For whatever the draw was, the drawn kind is one of the choices
/// and its weight is positive.
pub fn dropping_decision(bird: &Bird, weights: &Vec<u32>) -> (r: Option<usize>)
    requires
        bird.drop_probability <= PROB_SCALE,
        weights@.len() > 0,
        0 < weight_total(weights@) <= u32::MAX,
    ensures
        bird.hunger == 0 ==> r is None,
        bird.drop_probability == 0 ==> r is None,
        bird.hunger != 0 && bird.drop_probability == PROB_SCALE ==> r is Some,
        r matches Some(i) ==> bird.hunger != 0 && i < weights@.len() && weights@[i as int] > 0,
{
    if bird.hunger == 0 {
        return None;
    }
    if !random_chance(bird.drop_probability, PROB_SCALE) {
        return None;
    }
    match weighted_table_new(weights) {
        Ok(table) => Some(weighted_table_sample(&table)),
        Err(_) => vstd::pervasive::unreached(),
    }
}

/// One step of a dropping's fall: its speed decays by one unit until it
/// reaches zero; the step on which it reaches zero is the landing, and the
/// caller then sets its depth to [`GROUND_Z`] and marks it grounded.
pub fn dropping_fall_step(velocity: &mut Velocity) -> (landed: bool)
    ensures
        old(velocity).0 > 0 ==> final(velocity).0 == old(velocity).0 - 1,
        old(velocity).0 <= 0 ==> *final(velocity) == *old(velocity),
        landed == (old(velocity).0 > 0 && final(velocity).0 == 0),
{
    if velocity.0 > 0 {
        velocity.0 = velocity.0 - 1;
        velocity.0 == 0
    } else {
        false
    }
}

/// One step of a grounded dropping's fade: its opacity falls by the decay
/// rate, and once none is left the dropping is gone.
pub fn dropping_decay_step(alpha: u32, decay_rate: u32) -> (r: Option<u32>)
    ensures
        alpha <= decay_rate ==> r is None,
        alpha > decay_rate ==> r == Some((alpha - decay_rate) as u32),
{
    if alpha <= decay_rate {
        None
    } else {
        Some(alpha - decay_rate)
    }
}

/// What stepping into a dropping costs the player.
pub fn apply_dropping_hit(health: &mut i32)
    requires
        old(health) >= i32::MIN + 10,
    ensures
        *final(health) == *old(health) - 10,
{
    *health = *health - 10;
}

} // verus!
