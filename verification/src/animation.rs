//! Sprite-sheet animation: which atlas frame comes next when the frame timer
//! fires. The timer itself is the host's clock.

use vstd::prelude::*;

verus! {

/// The frames of an entity's sprite sheet, first to last inclusive.
#[derive(Clone, Copy, PartialEq, Eq, Structural, Debug)]
pub struct AnimationIndices {
    pub first: usize,
    pub last: usize,
}

/// The frame shown after `current` when the timer fires: a one-frame sheet
/// (a static image) pins the index at one; otherwise the animation walks
/// forward and wraps from the last frame to the first.
pub fn next_atlas_index(indices: &AnimationIndices, current: usize) -> (r: usize)
    ensures
        indices.first == indices.last ==> r == 1,
        indices.first != indices.last && current >= indices.last ==> r == indices.first,
        indices.first != indices.last && current < indices.last ==> r == current + 1,
{
    if indices.first == indices.last {
        1
    } else if current >= indices.last {
        indices.first
    } else {
        current + 1
    }
}

} // verus!
