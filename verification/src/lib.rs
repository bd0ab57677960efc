//! Asset caching and camera capture for a scoreboard display: a bounded
//! read-through cache of rendered image assets, and the protocol by which one
//! frame is taken from a camera and the device released again.

pub mod assets;
pub mod cache;
pub mod capture;
pub mod devices;
pub mod display;
pub mod encoding;
pub mod error;
pub mod frame;
pub mod text;
