# pose_landmarker

The verified core of a pose landmark task.

- `src/options.rs`: the validation of the landmarker's options.
- `src/landmark.rs`: landmarks, generic over their scalar type, and how the world
  landmarks of a pose take their scores from the normalized ones.
- `src/result.rs`: the result of one pose, built from the raw model outputs; the results
  of an image, built from the outputs of each detected pose; the layout of their report.
- `src/segmentation.rs`: when a confidence mask must be resized to its image.
- `src/text.rs`: decimal numbers in reports.
- `app/lib.rs`: the `f32` side: options with float thresholds, the presence test and the
  resize of confidence masks with the `image` crate.
