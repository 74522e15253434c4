//! Sprite position and velocity, and what happens at the canvas edges.

use crate::dispatch::Canvas;
use crate::random::random_below;
use vstd::prelude::*;

verus! {

/// Offsets and drifts of a sprite that may start a frame stay within this
/// magnitude, so that a frame's arithmetic cannot overflow.
pub const SPRITE_LIMIT: i64 = 0x1000_0000_0000_0000;

/// Odds of a jitter: a draw from `[0, JITTER_ODDS)` that comes out 0 speeds
/// the drift up by one.
pub const JITTER_ODDS: u32 = 9;

/// The drift after a jitter draw: one more when the draw is 0.
pub open spec fn jittered(drift: int, draw: int) -> int {
    if draw == 0 {
        drift + 1
    } else {
        drift
    }
}

/// Adds one to `drift` when `draw` is 0, keeps it otherwise.
pub fn jitter_drift(drift: i64, draw: u32) -> (r: i64)
    requires
        drift < i64::MAX,
    ensures
        r == jittered(drift as int, draw as int),
{
    if draw == 0 {
        drift + 1
    } else {
        drift
    }
}

/// Top-left corner of the sprite on the canvas, and its per-frame velocity.
#[derive(Clone, Copy, Debug, PartialEq, Eq, Structural)]
pub struct SpriteState {
    pub ox: i64,
    pub oy: i64,
    pub dx: i64,
    pub dy: i64,
}

impl SpriteState {
    /// Every component is small enough that a frame's arithmetic cannot overflow.
    pub open spec fn in_limits(&self) -> bool {
        &&& -SPRITE_LIMIT <= self.ox <= SPRITE_LIMIT
        &&& -SPRITE_LIMIT <= self.oy <= SPRITE_LIMIT
        &&& -SPRITE_LIMIT <= self.dx <= SPRITE_LIMIT
        &&& -SPRITE_LIMIT <= self.dy <= SPRITE_LIMIT
    }

    /// Within limits but for a drift that a jitter may have raised by one.
    pub open spec fn movable(&self) -> bool {
        &&& -SPRITE_LIMIT <= self.ox <= SPRITE_LIMIT
        &&& -SPRITE_LIMIT <= self.oy <= SPRITE_LIMIT
        &&& -SPRITE_LIMIT <= self.dx <= SPRITE_LIMIT + 1
        &&& -SPRITE_LIMIT <= self.dy <= SPRITE_LIMIT + 1
    }

    /// The sprite's box, `w` wide, touches or passes the left edge or passes
    /// the right edge of the canvas.
    pub open spec fn crosses_x(&self, c: Canvas, w: int) -> bool {
        self.ox <= 0 || self.ox + w > c.width
    }

    /// The sprite's box, `h` high, touches or passes the top edge or passes
    /// the bottom edge of the canvas.
    pub open spec fn crosses_y(&self, c: Canvas, h: int) -> bool {
        self.oy <= 0 || self.oy + h > c.height
    }

    pub fn check_limits(&self) -> (r: bool)
        ensures
            r == self.in_limits(),
    {
        -SPRITE_LIMIT <= self.ox && self.ox <= SPRITE_LIMIT && -SPRITE_LIMIT <= self.oy && self.oy
            <= SPRITE_LIMIT && -SPRITE_LIMIT <= self.dx && self.dx <= SPRITE_LIMIT && -SPRITE_LIMIT
            <= self.dy && self.dy <= SPRITE_LIMIT
    }

    /// Negates the drift on each axis whose edge the sprite's `w` x `h` box
    /// crosses; returns whether either did (a bounce). The offset is kept.
    pub fn check_bounce(&mut self, canvas: Canvas, w: u32, h: u32) -> (bounced: bool)
        requires
            old(self).in_limits(),
        ensures
            final(self).in_limits(),
            final(self).ox == old(self).ox,
            final(self).oy == old(self).oy,
            final(self).dx == if old(self).crosses_x(canvas, w as int) {
                -old(self).dx
            } else {
                old(self).dx as int
            },
            final(self).dy == if old(self).crosses_y(canvas, h as int) {
                -old(self).dy
            } else {
                old(self).dy as int
            },
            bounced == (old(self).crosses_x(canvas, w as int) || old(self).crosses_y(
                canvas,
                h as int,
            )),
    {
        let mut bounced = false;
        if self.ox <= 0 || self.ox + w as i64 > canvas.width as i64 {
            self.dx = -self.dx;
            bounced = true;
        }
        if self.oy <= 0 || self.oy + h as i64 > canvas.height as i64 {
            self.dy = -self.dy;
            bounced = true;
        }
        bounced
    }

    /// Applies one jitter draw to each drift component.
    pub fn jitter_with(&mut self, draw_x: u32, draw_y: u32)
        requires
            old(self).in_limits(),
        ensures
            final(self).movable(),
            final(self).ox == old(self).ox,
            final(self).oy == old(self).oy,
            final(self).dx == jittered(old(self).dx as int, draw_x as int),
            final(self).dy == jittered(old(self).dy as int, draw_y as int),
    {
        self.dx = jitter_drift(self.dx, draw_x);
        self.dy = jitter_drift(self.dy, draw_y);
    }

    /// Moves the sprite by its drift.
    pub fn advance(&mut self)
        requires
            old(self).movable(),
        ensures
            final(self).ox == old(self).ox + old(self).dx,
            final(self).oy == old(self).oy + old(self).dy,
            final(self).dx == old(self).dx,
            final(self).dy == old(self).dy,
    {
        self.ox = self.ox + self.dx;
        self.oy = self.oy + self.dy;
    }
}

/// A starting offset for a `w` x `h` sprite, uniform over the positions whose
/// column is below `canvas.width - w` and whose row is below `canvas.height - h`.
pub fn initial_offset(canvas: Canvas, w: u32, h: u32) -> (r: (i64, i64))
    requires
        w < canvas.width,
        h < canvas.height,
    ensures
        0 <= r.0 < canvas.width - w,
        0 <= r.1 < canvas.height - h,
{
    let x = random_below(canvas.width - w);
    let y = random_below(canvas.height - h);
    (x as i64, y as i64)
}

/// One jitter draw, uniform over `[0, JITTER_ODDS)`.
pub fn jitter_draw() -> (r: u32)
    ensures
        r < JITTER_ODDS,
{
    random_below(JITTER_ODDS)
}

} // verus!
