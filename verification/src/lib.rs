//! Core of an animated-image viewer: format decoders that stream full-canvas
//! RGBA frames with per-frame delays, and a clock-driven playback engine that
//! caches those frames and advances through them.

pub mod chan;
pub mod format;
pub mod formats;
pub mod frame;
pub mod pixel;
pub mod producer;
pub mod stats;
pub mod timing;
pub mod view;
pub mod zoom;
