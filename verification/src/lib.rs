//! A render service in which one worker owns the graphics device and serves
//! scene-drawing requests one at a time.

pub mod client;
pub mod protocol;
pub mod readback;
pub mod registry;
pub mod service;
pub mod trace;
pub mod worker;
