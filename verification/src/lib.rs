//! Core logic of a LED ambient-light daemon: raw RGB images and windowed views
//! on them, the framing of images for the kitty terminal graphics protocol,
//! state updates and input messages sent to devices, and the idle tracker that
//! decides when a LED device may stop being refreshed.

pub mod color;
pub mod idle_tracker;
pub mod image;
pub mod kitty;
pub mod input_message;
pub mod state_update;
pub mod text;
