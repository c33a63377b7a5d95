//! The image traits, for glob import.

pub use super::{Image, ImageViewExt};
