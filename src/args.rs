//! The options record that the command line fills in.

use vstd::prelude::*;

verus! {

/// Image drawn when no path is given.
pub const DEFAULT_IMAGE_PATH: &'static str = "assets/image.png";

/// Settings of one run of the client.
pub struct PixelflutClientArgs {
    /// Host of the canvas server.
    pub host: String,
    /// Port of the canvas server.
    pub port: u16,
    /// Side of the square box the image is fitted into.
    pub resize: i16,
    /// Initial horizontal drift.
    pub drift_x: u16,
    /// Initial vertical drift.
    pub drift_y: u16,
    /// Image to draw; empty for the default one.
    pub image_path: String,
    /// Frames per second.
    pub draw_rate: u16,
    /// Outline width.
    pub stroke: u32,
    /// Whether bounces jitter the drift.
    pub jitter: bool,
    /// Connections to open; when absent, as many as the resize value.
    pub conns: Option<u32>,
    /// Field-counter bound: passes cycle through the fields `1 .. fields - 1`.
    pub fields: u16,
}

impl PixelflutClientArgs {
    /// How many connections the pool aims at: `conns` when given, else the
    /// resize value (none when that is negative).
    pub fn pool_target(&self) -> (r: usize)
        ensures
            r == match self.conns {
                Some(n) => n as int,
                None => if self.resize >= 0 {
                    self.resize as int
                } else {
                    0
                },
            },
    {
        match self.conns {
            Some(n) => n as usize,
            None => if self.resize >= 0 {
                self.resize as usize
            } else {
                0
            },
        }
    }

    /// The image path, or `assets/image.png` when none was given.
    pub fn image_path_or_default(&self) -> (r: String)
        ensures
            self.image_path@.len() == 0 ==> r@ == DEFAULT_IMAGE_PATH@,
            self.image_path@.len() != 0 ==> r@ == self.image_path@,
    {
        if self.image_path.as_str().is_empty() {
            DEFAULT_IMAGE_PATH.to_owned()
        } else {
            self.image_path.clone()
        }
    }
}

} // verus!
