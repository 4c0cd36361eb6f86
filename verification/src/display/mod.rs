//! Attached displays.

pub mod gt_touch;
