//! Runtime core of a small real-time engine: an entity/component store,
//! edge-triggered input tracking, a frame clock, named resources and the
//! frame state machine that sequences them.
pub mod audio;
pub mod config;
pub mod ecs;
pub mod engine;
pub mod idmap;
pub mod input;
pub mod resource;
pub mod time;
pub mod utils;
