//! Draw engine of a network-canvas client: it negotiates the canvas size,
//! prepares a sprite (resize, recolor, outline), moves it around the canvas
//! with bouncing physics and turns each frame into `PX` commands spread
//! round-robin over a pool of connections.

pub mod random;
pub mod image;
pub mod pool;
pub mod dispatch;
pub mod bounce;
pub mod schedule;
pub mod engine;
pub mod size;
pub mod args;
