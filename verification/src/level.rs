//! Level state and layout: the level's score and current asset, the data a
//! level file carries, the boundary hit boxes that fence the play area, and
//! the despawn rule for entities that reach the outer fence.

use vstd::prelude::*;

use crate::physics::{Aabb, Collider, ColliderIntersectionMode, Rect, Vec2i};

verus! {

/// State of the currently loaded level.
pub struct Level {
    /// Identity of the level asset whose loading drives the game state.
    pub level_handle: u64,
    pub score: u32,
}

impl Level {
    /// A freshly loaded level starts from zero points.
    pub fn reset_score(&mut self)
        ensures
            final(self).score == 0,
            final(self).level_handle == old(self).level_handle,
    {
        self.score = 0;
    }
}

/// What a level file describes. Lengths are integer world units, spawn
/// probabilities ratios over [`crate::random::PROB_SCALE`], cooldowns whole
/// milliseconds.
pub struct LevelAsset {
    pub spawn_probability: u32,
    pub spawn_cooldown: u64,
    pub spawner_qty: i32,
    pub spawner_z: i64,
    pub birds: Vec<LevelBird>,
    pub players: Vec<LevelPlayer>,
    pub layers: Vec<LevelLayer>,
    pub scenery: Vec<LevelScenery>,
}

/// A bird kind the level may spawn, weighted by its probability.
pub struct LevelBird {
    pub asset: String,
    pub spawn_probability: u32,
}

pub struct LevelPlayer {
    pub asset: String,
    pub initial_position: (i64, i64, i64),
}

pub struct LevelLayer {
    pub image: String,
    pub display_mode: LayerDisplayMode,
    pub z: i64,
}

pub enum LayerDisplayMode {
    Tiled { scale: (i64, i64) },
    Fit,
}

pub struct LevelScenery {
    pub image: String,
    pub size: (i64, i64),
    pub translation: (i64, i64, i64),
    pub collision: bool,
}

/// Lifecycle notifications of the level asset.
pub enum LevelEvent {
    Loaded { id: u64 },
    Unloaded { id: u64 },
}

/// The collider a piece of scenery gets, when it asks for one.
pub fn scenery_collider(s: &LevelScenery) -> (r: Option<(Collider, ColliderIntersectionMode)>)
    requires
        s.size.0 >= 0,
        s.size.1 >= 0,
    ensures
        r is Some <==> s.collision,
        r matches Some(c) ==> c.1 == ColliderIntersectionMode::Disallow && (c.0 matches
        Collider::Rectangle(rc) && rc.half_width == s.size.0 / 2 && rc.half_height == s.size.1
            / 2),
{
    if s.collision {
        Some((Collider::Rectangle(Rect::from_size(s.size.0, s.size.1)), ColliderIntersectionMode::Disallow))
    } else {
        None
    }
}

/// Four solid boxes that fence a `width x height` area centred on the
/// origin: one along each edge, each 100 units thick, pushed half a unit
/// plus the thickness's half outside the edge (integer division may shave
/// the odd half unit).
pub fn enclosing_rectangles(width: u64, height: u64) -> (r: Vec<(Rect, Vec2i)>)
    requires
        width <= 0x1_0000_0000,
        height <= 0x1_0000_0000,
    ensures
        r@.len() == 4,
        r@[0].0.half_width == width / 2 && r@[0].0.half_height == 50,
        r@[0].1.x == 0 && r@[0].1.y == (height + 101) / 2,
        r@[1].0 == r@[0].0,
        r@[1].1.x == 0 && r@[1].1.y == -((height + 101) / 2),
        r@[2].0.half_width == 50 && r@[2].0.half_height == (height + 200) / 2,
        r@[2].1.x == (width + 101) / 2 && r@[2].1.y == 0,
        r@[3].0 == r@[2].0,
        r@[3].1.x == -((width + 101) / 2) && r@[3].1.y == 0,
{
    let h_width = ((width + 101) / 2) as i64;
    let h_height = ((height + 101) / 2) as i64;
    let horizontal = Rect { half_width: (width / 2) as i64, half_height: 50 };
    let vertical = Rect { half_width: 50, half_height: ((height + 200) / 2) as i64 };
    let mut r: Vec<(Rect, Vec2i)> = Vec::new();
    r.push((horizontal, Vec2i { x: 0, y: h_height }));
    r.push((horizontal, Vec2i { x: 0, y: -h_height }));
    r.push((vertical, Vec2i { x: h_width, y: 0 }));
    r.push((vertical, Vec2i { x: -h_width, y: 0 }));
    r
}

/// The fence stands clear of the play area: a point strictly inside the
/// centred `width x height` area, taken as a degenerate box, overlaps none
/// of the four boundary boxes (whose edges the `requires` restate from
/// `enclosing_rectangles`).
pub proof fn lemma_play_area_clear(
    width: int,
    height: int,
    top: Aabb,
    bottom: Aabb,
    right: Aabb,
    left: Aabb,
    p: Aabb,
)
    requires
        0 <= width,
        0 <= height,
        top.min.y == (height + 101) / 2 - 50,
        bottom.max.y == -((height + 101) / 2) + 50,
        right.min.x == (width + 101) / 2 - 50,
        left.max.x == -((width + 101) / 2) + 50,
        p.min == p.max,
        -(width / 2) < p.min.x < width / 2,
        -(height / 2) < p.min.y < height / 2,
    ensures
        !p.overlaps(top),
        !p.overlaps(bottom),
        !p.overlaps(right),
        !p.overlaps(left),
{
    vstd::arithmetic::div_mod::lemma_fundamental_div_mod(height + 101, 2);
    vstd::arithmetic::div_mod::lemma_fundamental_div_mod(height, 2);
    vstd::arithmetic::div_mod::lemma_mod_bound(height + 101, 2);
    vstd::arithmetic::div_mod::lemma_mod_bound(height, 2);
    vstd::arithmetic::div_mod::lemma_fundamental_div_mod(width + 101, 2);
    vstd::arithmetic::div_mod::lemma_fundamental_div_mod(width, 2);
    vstd::arithmetic::div_mod::lemma_mod_bound(width + 101, 2);
    vstd::arithmetic::div_mod::lemma_mod_bound(width, 2);
    assert((height + 101) / 2 - 50 >= height / 2);
    assert((width + 101) / 2 - 50 >= width / 2);
}

/// Which side of a contact with a despawner is taken out of the world: any
/// side that is not itself a despawner, provided a despawner stands on one
/// side at all.
pub fn despawn_targets(a_is_despawner: bool, b_is_despawner: bool) -> (r: (bool, bool))
    ensures
        r.0 == ((a_is_despawner || b_is_despawner) && !a_is_despawner),
        r.1 == ((a_is_despawner || b_is_despawner) && !b_is_despawner),
{
    if a_is_despawner || b_is_despawner {
        (!a_is_despawner, !b_is_despawner)
    } else {
        (false, false)
    }
}

} // verus!
