use vstd::prelude::*;

verus! {

/// A landmark point with its visibility and presence scores.
///
/// The scalar type `S` is left to the caller: the library only moves scores from one
/// landmark to another and never computes with them.
#[derive(Debug, Clone, Copy)]
pub struct Landmark<S> {
    pub x: S,
    pub y: S,
    pub z: S,
    /// Score of whether the landmark is visible rather than occluded.
    pub visibility: S,
    /// Score of whether the landmark is present in the frame.
    pub presence: S,
}

/// The number of landmarks of one pose.
pub const POSE_LANDMARK_COUNT: usize = 33;

/// The landmark `world` with the visibility and presence scores of `scored`.
pub open spec fn with_scores<S>(world: Landmark<S>, scored: Landmark<S>) -> Landmark<S> {
    Landmark {
        x: world.x,
        y: world.y,
        z: world.z,
        visibility: scored.visibility,
        presence: scored.presence,
    }
}

/// The world landmarks of a pose: the first `POSE_LANDMARK_COUNT` raw world landmarks,
/// each carrying the scores of the normalized landmark with the same index.
pub open spec fn scored_world_landmarks<S>(
    raw_landmarks: Seq<Landmark<S>>,
    raw_world_landmarks: Seq<Landmark<S>>,
) -> Seq<Landmark<S>> {
    Seq::new(
        POSE_LANDMARK_COUNT as nat,
        |i: int| with_scores(raw_world_landmarks[i], raw_landmarks[i]),
    )
}

} // verus!
