use vstd::prelude::*;

verus! {

/// Why a set of pose landmark options was refused.
#[derive(Debug, Clone, Copy, PartialEq, Eq, Structural)]
pub enum OptionsError {
    /// The maximum number of poses is zero.
    ZeroPoses,
    /// The minimum pose presence confidence lies outside `[0, 1]`.
    PresenceConfidenceOutOfRange,
    /// The minimum pose detection confidence lies outside `[0, 1]`.
    DetectionConfidenceOutOfRange,
    /// The minimum tracking confidence lies outside `[0, 1]`.
    TrackingConfidenceOutOfRange,
}

/// The verdict on a set of options, given the number of poses and, for each of the
/// three confidence thresholds, whether it lies outside the unit interval.
/// The checks are made in a fixed order: the number of poses first, then the
/// presence, detection and tracking thresholds.
pub open spec fn options_verdict(
    num_poses: i32,
    presence_out_of_range: bool,
    detection_out_of_range: bool,
    tracking_out_of_range: bool,
) -> Result<(), OptionsError> {
    if num_poses == 0 {
        Err(OptionsError::ZeroPoses)
    } else if presence_out_of_range {
        Err(OptionsError::PresenceConfidenceOutOfRange)
    } else if detection_out_of_range {
        Err(OptionsError::DetectionConfidenceOutOfRange)
    } else if tracking_out_of_range {
        Err(OptionsError::TrackingConfidenceOutOfRange)
    } else {
        Ok(())
    }
}

/// The checks come in a fixed order and each error names a refused option: a zero
/// number of poses is refused first, whatever the thresholds; then an out-of-range
/// presence threshold, whatever the detection and tracking thresholds; then an
/// out-of-range detection threshold, whatever the tracking threshold; then an
/// out-of-range tracking threshold. An error names a threshold only when that threshold
/// is out of range, and the options are accepted exactly when nothing is refused.
pub proof fn lemma_options_verdict(
    num_poses: i32,
    presence_out_of_range: bool,
    detection_out_of_range: bool,
    tracking_out_of_range: bool,
)
    ensures
        ({
            let v = options_verdict(
                num_poses,
                presence_out_of_range,
                detection_out_of_range,
                tracking_out_of_range,
            );
            &&& num_poses == 0 ==> v == Err::<(), OptionsError>(OptionsError::ZeroPoses)
            &&& num_poses != 0 && presence_out_of_range ==> v == Err::<(), OptionsError>(
                OptionsError::PresenceConfidenceOutOfRange,
            )
            &&& num_poses != 0 && !presence_out_of_range && detection_out_of_range ==> v
                == Err::<(), OptionsError>(OptionsError::DetectionConfidenceOutOfRange)
            &&& num_poses != 0 && !presence_out_of_range && !detection_out_of_range
                && tracking_out_of_range ==> v == Err::<(), OptionsError>(
                OptionsError::TrackingConfidenceOutOfRange,
            )
            &&& v == Err::<(), OptionsError>(OptionsError::ZeroPoses) ==> num_poses == 0
            &&& v == Err::<(), OptionsError>(OptionsError::PresenceConfidenceOutOfRange)
                ==> presence_out_of_range
            &&& v == Err::<(), OptionsError>(OptionsError::DetectionConfidenceOutOfRange)
                ==> detection_out_of_range
            &&& v == Err::<(), OptionsError>(OptionsError::TrackingConfidenceOutOfRange)
                ==> tracking_out_of_range
            &&& (v is Ok <==> (num_poses != 0 && !presence_out_of_range
                && !detection_out_of_range && !tracking_out_of_range))
        }),
{
}

/// Checks the pose landmark options before a landmarker is built.
///
/// A threshold `c` is out of range when `c < 0 || c > 1`; the caller evaluates that
/// comparison on the threshold and hands the outcome in.
pub fn check_pose_landmark_options(
    num_poses: i32,
    presence_out_of_range: bool,
    detection_out_of_range: bool,
    tracking_out_of_range: bool,
) -> (res: Result<(), OptionsError>)
    ensures
        res == options_verdict(
            num_poses,
            presence_out_of_range,
            detection_out_of_range,
            tracking_out_of_range,
        ),
        res is Ok <==> (num_poses != 0 && !presence_out_of_range && !detection_out_of_range
            && !tracking_out_of_range),
        num_poses == 0 ==> res == Err::<(), OptionsError>(OptionsError::ZeroPoses),
        num_poses != 0 && presence_out_of_range ==> res == Err::<(), OptionsError>(
            OptionsError::PresenceConfidenceOutOfRange,
        ),
        num_poses != 0 && !presence_out_of_range && detection_out_of_range ==> res == Err::<
            (),
            OptionsError,
        >(OptionsError::DetectionConfidenceOutOfRange),
        res == Err::<(), OptionsError>(OptionsError::PresenceConfidenceOutOfRange)
            ==> presence_out_of_range,
        res == Err::<(), OptionsError>(OptionsError::DetectionConfidenceOutOfRange)
            ==> detection_out_of_range,
        res == Err::<(), OptionsError>(OptionsError::TrackingConfidenceOutOfRange)
            ==> tracking_out_of_range,
{
    proof {
        lemma_options_verdict(
            num_poses,
            presence_out_of_range,
            detection_out_of_range,
            tracking_out_of_range,
        );
    }
    if num_poses == 0 {
        return Err(OptionsError::ZeroPoses);
    }
    if presence_out_of_range {
        return Err(OptionsError::PresenceConfidenceOutOfRange);
    }
    if detection_out_of_range {
        return Err(OptionsError::DetectionConfidenceOutOfRange);
    }
    if tracking_out_of_range {
        return Err(OptionsError::TrackingConfidenceOutOfRange);
    }
    Ok(())
}

} // verus!
