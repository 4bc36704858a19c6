//! One decoder per stream format. Each pumps full-canvas RGBA frames with
//! per-frame delays into the hand-off queue.

pub mod gif;
pub mod jpeg;
pub mod png;
pub mod webp;
