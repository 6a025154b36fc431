//! Drives a run of addressable light fixtures from a small shared color
//! state: a gradient of two or three stops and a display mode.  The library
//! holds the verified core — color parsing and formatting, the gradient
//! model, the shared store that HTTP handlers mutate, and the per-tick
//! render-and-rotate algorithm — while socket and HTTP plumbing live
//! outside it.

pub mod color;
pub mod engine;
pub mod gradient;
pub mod store;
