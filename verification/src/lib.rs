//! Pose landmark detection: option validation, assembly of pose landmarks from the
//! raw model outputs, the result containers, and the layout of the textual report.

pub mod options;
pub mod landmark;
pub mod result;
pub mod text;
pub mod segmentation;
