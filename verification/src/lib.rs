//! Verified core of a light-field display simulator: sparse ray-mapping
//! matrices, GPU read-back decoding, work-group sizing, histories of
//! camera positions and saves, and keyboard decisions.

pub mod arr;
pub mod dispatch;
pub mod sparse;
pub mod dense;
pub mod buffer;
pub mod cache;
pub mod history;
pub mod controls;
pub mod light_field;
pub mod naming;
