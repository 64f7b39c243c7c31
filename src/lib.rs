//! The logic of a 2D GPU rendering backend and of the tools around it: a
//! generational resource arena, texture mip planning, the presentation
//! surface's state machine, per-frame draw recording, pixel channel swapping
//! and the stream-marker session.

pub mod arena;
pub mod texture;
pub mod surface;
pub mod frame;
pub mod pixels;
pub mod markers;
