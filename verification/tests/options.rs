use pose_landmarker::options::{check_pose_landmark_options, OptionsError};

#[test]
fn accepts_valid_options() {
    assert_eq!(check_pose_landmark_options(1, false, false, false), Ok(()));
    assert_eq!(check_pose_landmark_options(-3, false, false, false), Ok(()));
}

#[test]
fn refuses_zero_poses_first() {
    assert_eq!(
        check_pose_landmark_options(0, true, true, true),
        Err(OptionsError::ZeroPoses)
    );
    assert_eq!(
        check_pose_landmark_options(0, false, false, false),
        Err(OptionsError::ZeroPoses)
    );
}

#[test]
fn refuses_presence_before_detection_and_tracking() {
    assert_eq!(
        check_pose_landmark_options(1, true, true, true),
        Err(OptionsError::PresenceConfidenceOutOfRange)
    );
}

#[test]
fn refuses_detection_before_tracking() {
    assert_eq!(
        check_pose_landmark_options(2, false, true, true),
        Err(OptionsError::DetectionConfidenceOutOfRange)
    );
}

#[test]
fn refuses_tracking() {
    assert_eq!(
        check_pose_landmark_options(2, false, false, true),
        Err(OptionsError::TrackingConfidenceOutOfRange)
    );
}
