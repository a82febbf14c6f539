//! Pitch-detection engine of a handheld instrument tuner.

pub mod accumulator;
pub mod binarize;
pub mod buffer;
pub mod layout;
pub mod normalize;
pub mod note;
pub mod periods;
pub mod pitch;
pub mod series;
pub mod shaper;
pub mod tuner;
pub mod window;
