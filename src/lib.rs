//! Motion-trail compositing: each output frame shows the current frame in a
//! highlight color over a fading, tinted history of the preceding frames.

pub mod color;
pub mod canvas;
pub mod blend;
pub mod cache;
pub mod engine;
pub mod queue;
pub mod orchestrator;
pub mod scheduler;
pub mod config;
