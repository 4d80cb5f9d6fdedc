use image::{ImageBuffer, Luma};
use pose_landmarker::landmark::{Landmark, POSE_LANDMARK_COUNT};
use pose_landmarker::result::{PoseDetectionOutputs, PoseLandmarkResult, PoseLandmarkResults};

type Mask = ImageBuffer<Luma<f32>, Vec<f32>>;

fn landmark(base: f32) -> Landmark<f32> {
    Landmark {
        x: base,
        y: base + 0.25,
        z: base + 0.5,
        visibility: base + 0.75,
        presence: base + 0.125,
    }
}

fn raw(count: usize, offset: f32) -> Vec<Landmark<f32>> {
    (0..count).map(|i| landmark(offset + i as f32)).collect()
}

#[test]
fn pose_from_raw_keeps_first_landmarks() {
    let normalized = raw(39, 0.0);
    let world = raw(39, 1000.0);
    let mask: Mask = ImageBuffer::new(4, 3);
    let result = PoseLandmarkResult::from_raw(normalized.clone(), world.clone(), Some(mask));

    assert_eq!(result.pose_landmarks.len(), 33);
    assert_eq!(result.pose_world_landmarks.len(), 33);
    assert_eq!(POSE_LANDMARK_COUNT, 33);
    assert!(result.segmentation_mask.is_some());
    assert_eq!(result.segmentation_mask.as_ref().unwrap().dimensions(), (4, 3));
    for i in 0..33 {
        let n = result.pose_landmarks[i];
        assert_eq!((n.x, n.y, n.z), (normalized[i].x, normalized[i].y, normalized[i].z));
        assert_eq!(n.visibility, normalized[i].visibility);
        assert_eq!(n.presence, normalized[i].presence);
        let w = result.pose_world_landmarks[i];
        assert_eq!((w.x, w.y, w.z), (world[i].x, world[i].y, world[i].z));
        assert_eq!(w.visibility, normalized[i].visibility);
        assert_eq!(w.presence, normalized[i].presence);
        assert_ne!(w.visibility, world[i].visibility);
    }
}

#[test]
fn pose_from_raw_without_mask() {
    let result: PoseLandmarkResult<f32, Mask> =
        PoseLandmarkResult::from_raw(raw(33, 0.0), raw(33, 50.0), None);
    assert_eq!(result.pose_landmarks.len(), 33);
    assert_eq!(result.pose_world_landmarks[32].x, 82.0);
    assert_eq!(result.pose_world_landmarks[32].presence, 32.125);
    assert!(result.segmentation_mask.is_none());
}

fn pose(offset: f32, with_mask: bool) -> PoseLandmarkResult<f32, Mask> {
    PoseLandmarkResult::from_raw(
        raw(39, offset),
        raw(39, offset + 100.0),
        if with_mask { Some(ImageBuffer::new(2, 2)) } else { None },
    )
}

#[test]
fn results_deref_and_into_iter_keep_order() {
    let mut results = PoseLandmarkResults(vec![pose(0.0, true), pose(10.0, false)]);
    assert!(!results.is_empty());
    assert_eq!(results.len(), 2);
    assert_eq!(results[1].pose_landmarks[0].x, 10.0);

    results.deref_mut().push(pose(20.0, false));
    results.deref_mut()[0].segmentation_mask = None;
    assert_eq!(results.len(), 3);
    assert!(results[0].segmentation_mask.is_none());

    let mut xs: Vec<f32> = Vec::new();
    for r in results {
        xs.push(r.pose_landmarks[0].x);
    }
    assert_eq!(xs, vec![0.0, 10.0, 20.0]);
}

fn detection(offset: f32, present: bool) -> PoseDetectionOutputs<f32, Mask> {
    PoseDetectionOutputs {
        pose_present: present,
        raw_landmarks: raw(39, offset),
        raw_world_landmarks: raw(39, offset + 100.0),
        segmentation_mask: Some(ImageBuffer::new(3, 2)),
    }
}

#[test]
fn detections_keep_present_poses_in_order() {
    let detections = vec![
        detection(0.0, true),
        detection(10.0, false),
        detection(20.0, true),
        detection(30.0, true),
    ];
    let results = PoseLandmarkResults::from_detections(detections, true);
    assert_eq!(results.len(), 3);
    let firsts: Vec<f32> = results.iter().map(|r| r.pose_landmarks[0].x).collect();
    assert_eq!(firsts, vec![0.0, 20.0, 30.0]);
    for r in results.iter() {
        assert_eq!(r.pose_landmarks.len(), 33);
        assert_eq!(r.pose_world_landmarks.len(), 33);
        assert_eq!(r.pose_world_landmarks[5].visibility, r.pose_landmarks[5].visibility);
        assert_eq!(r.pose_world_landmarks[5].x, r.pose_landmarks[5].x + 100.0);
        assert_eq!(r.segmentation_mask.as_ref().unwrap().dimensions(), (3, 2));
    }
}

#[test]
fn detections_without_requested_masks() {
    let results =
        PoseLandmarkResults::from_detections(vec![detection(0.0, true), detection(1.0, true)], false);
    assert_eq!(results.len(), 2);
    assert!(results.iter().all(|r| r.segmentation_mask.is_none()));
}

#[test]
fn detections_none_present() {
    let results = PoseLandmarkResults::from_detections(vec![detection(0.0, false)], true);
    assert!(results.is_empty());
    assert_eq!(results.describe(&[], &vec![], &vec![]), "No PoseLandmarkResult.\n");
}

#[test]
fn empty_results_report() {
    let results: PoseLandmarkResults<f32, Mask> = PoseLandmarkResults(Vec::new());
    assert!(results.is_empty());
    assert_eq!(results.describe(&[], &Vec::new(), &Vec::new()), "No PoseLandmarkResult.\n");
}

fn small_pose(with_mask: bool) -> PoseLandmarkResult<f32, Mask> {
    PoseLandmarkResult {
        pose_landmarks: vec![landmark(0.0), landmark(1.0)],
        pose_world_landmarks: vec![landmark(2.0)],
        segmentation_mask: if with_mask { Some(ImageBuffer::new(1, 1)) } else { None },
    }
}

#[test]
fn pose_report_layout() {
    let result = small_pose(true);
    let names = ["nose", "eye", "ear"];
    let text = result.describe(
        &names,
        &vec!["a\n".to_string(), "b\n".to_string()],
        &vec!["c\n".to_string()],
    );
    assert_eq!(
        text,
        "  Landmarks:\n\
         \x20   Normalized Landmark #0 (nose):\na\n\
         \x20   Normalized Landmark #1 (eye):\nb\n\
         \x20 WorldLandmarks:\n\
         \x20   Landmark #0 (nose):\nc\n\
         \x20 SegmentationMask: Some\n"
    );
}

#[test]
fn pose_report_without_mask() {
    let result: PoseLandmarkResult<f32, Mask> = PoseLandmarkResult {
        pose_landmarks: vec![],
        pose_world_landmarks: vec![],
        segmentation_mask: None,
    };
    assert_eq!(
        result.describe(&[], &vec![], &vec![]),
        "  Landmarks:\n  WorldLandmarks:\n"
    );
}

#[test]
fn results_report_composes_pose_reports() {
    let names = ["nose", "eye"];
    let mut poses = Vec::new();
    let mut landmark_texts = Vec::new();
    let mut world_texts = Vec::new();
    for i in 0..12 {
        poses.push(small_pose(i % 2 == 0));
        landmark_texts.push(vec![format!("n{}\n", i), format!("m{}\n", i)]);
        world_texts.push(vec![format!("w{}\n", i)]);
    }
    let mut expected = String::new();
    for i in 0..12 {
        expected.push_str(&format!("PoseLandmarkResult #{}\n", i));
        expected.push_str(&poses[i].describe(&names, &landmark_texts[i], &world_texts[i]));
    }
    let results = PoseLandmarkResults(poses);
    let text = results.describe(&names, &landmark_texts, &world_texts);
    assert_eq!(text, expected);
    assert!(text.starts_with(
        "PoseLandmarkResult #0\n  Landmarks:\n    Normalized Landmark #0 (nose):\nn0\n"
    ));
    assert!(text.contains("PoseLandmarkResult #11\n"));
    assert!(text.ends_with("    Landmark #0 (nose):\nw11\n"));
}
