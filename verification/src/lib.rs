//! Core logic of an interactive image-clamping utility.
//!
//! Two independent components carry the program's behaviour:
//!
//! * [`classifier`] turns one raw terminal event plus the current typed
//!   accumulator into a single high-level intent (quit, submit a path,
//!   append a character, erase, or ignore);
//! * [`planner`] computes target pixel dimensions that clamp an image's
//!   longer side into a fixed band while preserving its aspect ratio.
//!
//! Both are pure: the surrounding application loop owns the terminal,
//! the image codec and the clipboard, and feeds these functions plain
//! values.

pub mod classifier;
pub mod planner;
pub mod text;
