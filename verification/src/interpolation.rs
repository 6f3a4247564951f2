//! Transform interpolation: an entity carries the pose it is heading for and
//! a transition parameter that the schedule advances a hundredth at a time;
//! the host samples its easing curve at the parameter and blends. Only the
//! parameter's bookkeeping lives here; the blending is the host's.

use vstd::prelude::*;

verus! {

/// Thousandths of the transition: the transition runs while the parameter is
/// at most this.
pub const PROGRESS_DONE: u32 = 1000;

/// How far one step advances the parameter: a hundredth of the transition.
pub const PROGRESS_STEP: u32 = 10;

/// Where [`TargetTransform::finish`] parks the parameter: past the end, so
/// no further step blends.
pub const PROGRESS_PARKED: u32 = 1100;

/// A pose in the plane: translation, depth, rotation in milliradians, scale
/// in thousandths.
#[derive(Clone, Copy, PartialEq, Eq, Structural, Debug)]
pub struct Pose {
    pub x: i64,
    pub y: i64,
    pub z: i64,
    pub rotation_milli: i64,
    pub scale_permille: i64,
}

impl Pose {
    /// No translation, no rotation, unit scale.
    pub fn identity() -> (r: Pose)
        ensures
            r.x == 0 && r.y == 0 && r.z == 0,
            r.rotation_milli == 0,
            r.scale_permille == 1000,
    {
        Pose { x: 0, y: 0, z: 0, rotation_milli: 0, scale_permille: 1000 }
    }
}

/// The pose an entity is transitioning towards, with the transition's
/// parameter and which parts of the pose the host blends.
pub struct TargetTransform<T> {
    pub transform: T,
    pub progress_permille: u32,
    pub lerp_transform: bool,
    pub lerp_rotation: bool,
    pub lerp_scale: bool,
}

impl<T> TargetTransform<T> {
    /// The pose being transitioned towards.
    pub open spec fn target(self) -> T {
        self.transform
    }

    /// The transition parameter, in thousandths.
    pub open spec fn progress(self) -> u32 {
        self.progress_permille
    }

    /// A transition towards `target`, from its start, blending everything.
    pub fn new(target: T) -> (r: TargetTransform<T>)
        ensures
            r.target() == target,
            r.progress() == 0,
            r.lerp_transform && r.lerp_rotation && r.lerp_scale,
    {
        TargetTransform {
            transform: target,
            progress_permille: 0,
            lerp_transform: true,
            lerp_rotation: true,
            lerp_scale: true,
        }
    }

    /// Heads for a new target, from the transition's start.
    pub fn update(&mut self, target: T)
        ensures
            final(self).target() == target,
            final(self).progress() == 0,
            final(self).lerp_transform == old(self).lerp_transform,
            final(self).lerp_rotation == old(self).lerp_rotation,
            final(self).lerp_scale == old(self).lerp_scale,
    {
        self.transform = target;
        self.start();
    }

    /// Rewinds the transition to its start.
    pub fn start(&mut self)
        ensures
            final(self).target() == old(self).target(),
            final(self).progress() == 0,
            final(self).lerp_transform == old(self).lerp_transform,
            final(self).lerp_rotation == old(self).lerp_rotation,
            final(self).lerp_scale == old(self).lerp_scale,
    {
        self.progress_permille = 0;
    }

    /// Parks the transition past its end.
    pub fn finish(&mut self)
        ensures
            final(self).target() == old(self).target(),
            final(self).progress() == PROGRESS_PARKED,
            final(self).lerp_transform == old(self).lerp_transform,
            final(self).lerp_rotation == old(self).lerp_rotation,
            final(self).lerp_scale == old(self).lerp_scale,
    {
        self.progress_permille = PROGRESS_PARKED;
    }

    /// The pose being transitioned towards.
    pub fn transform(&self) -> (r: &T)
        ensures
            *r == self.target(),
    {
        &self.transform
    }

    /// One schedule step: while the transition runs, hands the host the
    /// parameter to sample its easing curve at, and advances it one step;
    /// past the end it does nothing.
    pub fn step(&mut self) -> (r: Option<u32>)
        ensures
            old(self).progress() > PROGRESS_DONE ==> r is None && *final(self) == *old(self),
            old(self).progress() <= PROGRESS_DONE ==> r == Some(old(self).progress())
                && final(self).progress() == old(self).progress() + PROGRESS_STEP,
            final(self).target() == old(self).target(),
            final(self).lerp_transform == old(self).lerp_transform,
            final(self).lerp_rotation == old(self).lerp_rotation,
            final(self).lerp_scale == old(self).lerp_scale,
    {
        if self.progress_permille > PROGRESS_DONE {
            None
        } else {
            let sampled = self.progress_permille;
            self.progress_permille = self.progress_permille + PROGRESS_STEP;
            Some(sampled)
        }
    }
}

} // verus!
