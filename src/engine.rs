//! The whole draw state, threaded through one frame at a time: bounce
//! handling at the start, dispatch passes in the middle, movement at the end.

use crate::bounce::{jitter_draw, jittered, SpriteState};
use crate::dispatch::{dispatch_pass, draws, pass_of, Canvas, PxCommand};
use crate::image::{outline_seq, recolor_seq, Image, Rgba};
use crate::pool::ConnectionPool;
use crate::random::random_rgb;
use crate::schedule::{next_field, FieldCounter};
use vstd::prelude::*;

verus! {

/// `p`, a `w` x `h` grid, recolored with `(r, g, b)` and then outlined with width `stroke`.
pub open spec fn restyled(w: int, h: int, p: Seq<Rgba>, r: u8, g: u8, b: u8, stroke: int) -> Seq<Rgba> {
    outline_seq(w, h, recolor_seq(p, r, g, b), stroke)
}

/// Everything the draw loop owns.
pub struct Engine {
    pub canvas: Canvas,
    pub sprite: SpriteState,
    pub image: Image,
    pub pool: ConnectionPool,
    pub field: FieldCounter,
    /// Outline width applied after every recolor.
    pub stroke: u32,
    /// Whether bounces jitter the drift.
    pub jitter: bool,
}

/// `new` is `old` at the start of a frame, given the colour and jitter draws
/// made for it: the drift flips on each axis whose canvas edge the sprite
/// crosses; on a bounce the sprite is restyled and, with jitter on, each drift
/// component goes through its draw. `bounced` tells whether it bounced.
pub open spec fn frame_begun(
    old: &Engine,
    new: &Engine,
    r: u8,
    g: u8,
    b: u8,
    jx: u32,
    jy: u32,
    bounced: bool,
) -> bool {
    let s = old.sprite;
    let w = old.image.width as int;
    let h = old.image.height as int;
    let cx = s.crosses_x(old.canvas, w);
    let cy = s.crosses_y(old.canvas, h);
    let fdx: int = if cx {
        -s.dx
    } else {
        s.dx as int
    };
    let fdy: int = if cy {
        -s.dy
    } else {
        s.dy as int
    };
    &&& bounced == (cx || cy)
    &&& new.canvas == old.canvas
    &&& new.pool == old.pool
    &&& new.field == old.field
    &&& new.stroke == old.stroke
    &&& new.jitter == old.jitter
    &&& new.image.width == old.image.width
    &&& new.image.height == old.image.height
    &&& new.sprite.ox == s.ox
    &&& new.sprite.oy == s.oy
    &&& new.sprite.dx == if bounced && old.jitter {
        jittered(fdx, jx as int)
    } else {
        fdx
    }
    &&& new.sprite.dy == if bounced && old.jitter {
        jittered(fdy, jy as int)
    } else {
        fdy
    }
    &&& new.image.pixels@ == if bounced {
        restyled(w, h, old.image.pixels@, r, g, b, old.stroke as int)
    } else {
        old.image.pixels@
    }
}

impl Engine {
    pub open spec fn wf(&self) -> bool {
        &&& self.image.wf()
        &&& self.pool.wf()
        &&& self.pool.size > 0
        &&& self.field.wf()
    }

    /// Puts the pieces together; the field counter starts at 1.
    pub fn new(
        canvas: Canvas,
        sprite: SpriteState,
        image: Image,
        pool: ConnectionPool,
        fields: u32,
        stroke: u32,
        jitter: bool,
    ) -> (r: Engine)
        requires
            image.wf(),
            pool.wf(),
            pool.size > 0,
        ensures
            r.wf(),
            r.canvas == canvas,
            r.sprite == sprite,
            r.image == image,
            r.pool == pool,
            r.field.current == 1,
            r.field.fields == fields,
            r.stroke == stroke,
            r.jitter == jitter,
    {
        Engine { canvas, sprite, image, pool, field: FieldCounter::new(fields), stroke, jitter }
    }

    /// Recolors the sprite with `(r, g, b)`, then outlines it.
    pub fn restyle_with(&mut self, r: u8, g: u8, b: u8)
        requires
            old(self).wf(),
        ensures
            final(self).wf(),
            final(self).image.width == old(self).image.width,
            final(self).image.height == old(self).image.height,
            final(self).image.pixels@ == restyled(
                old(self).image.width as int,
                old(self).image.height as int,
                old(self).image.pixels@,
                r,
                g,
                b,
                old(self).stroke as int,
            ),
            final(self).canvas == old(self).canvas,
            final(self).sprite == old(self).sprite,
            final(self).pool == old(self).pool,
            final(self).field == old(self).field,
            final(self).stroke == old(self).stroke,
            final(self).jitter == old(self).jitter,
    {
        self.image.recolor_with(r, g, b);
        self.image.outline(self.stroke);
    }

    /// Recolors the sprite with a random colour, then outlines it.
    pub fn restyle(&mut self)
        requires
            old(self).wf(),
        ensures
            final(self).wf(),
            final(self).image.width == old(self).image.width,
            final(self).image.height == old(self).image.height,
            exists|r: u8, g: u8, b: u8|
                final(self).image.pixels@ == #[trigger] restyled(
                    old(self).image.width as int,
                    old(self).image.height as int,
                    old(self).image.pixels@,
                    r,
                    g,
                    b,
                    old(self).stroke as int,
                ),
            final(self).canvas == old(self).canvas,
            final(self).sprite == old(self).sprite,
            final(self).pool == old(self).pool,
            final(self).field == old(self).field,
            final(self).stroke == old(self).stroke,
            final(self).jitter == old(self).jitter,
    {
        let (r, g, b) = random_rgb();
        self.restyle_with(r, g, b);
    }

    /// Start of a frame with the given colour and jitter draws; returns
    /// whether the sprite bounced.
    pub fn begin_frame_with(&mut self, r: u8, g: u8, b: u8, jx: u32, jy: u32) -> (bounced: bool)
        requires
            old(self).wf(),
            old(self).sprite.in_limits(),
        ensures
            final(self).wf(),
            final(self).sprite.movable(),
            frame_begun(old(self), final(self), r, g, b, jx, jy, bounced),
    {
        let bounced = self.sprite.check_bounce(self.canvas, self.image.width, self.image.height);
        if bounced {
            self.restyle_with(r, g, b);
            if self.jitter {
                self.sprite.jitter_with(jx, jy);
            }
        }
        bounced
    }

    /// Start of a frame: bounce handling with a random colour and random
    /// jitter draws from `[0, 9)`; returns whether the sprite bounced.
    pub fn begin_frame(&mut self) -> (bounced: bool)
        requires
            old(self).wf(),
            old(self).sprite.in_limits(),
        ensures
            final(self).wf(),
            final(self).sprite.movable(),
            exists|r: u8, g: u8, b: u8, jx: u32, jy: u32|
                jx < 9 && jy < 9 && #[trigger] frame_begun(
                    old(self),
                    final(self),
                    r,
                    g,
                    b,
                    jx,
                    jy,
                    bounced,
                ),
    {
        let (r, g, b) = random_rgb();
        let jx = jitter_draw();
        let jy = jitter_draw();
        self.begin_frame_with(r, g, b, jx, jy)
    }

    /// One dispatch pass at the current offset and field, then the field
    /// counter moves on.
    pub fn pass(&mut self) -> (cmds: Vec<PxCommand>)
        requires
            old(self).wf(),
            old(self).sprite.movable(),
        ensures
            final(self).wf(),
            final(self).canvas == old(self).canvas,
            final(self).sprite == old(self).sprite,
            final(self).image == old(self).image,
            final(self).stroke == old(self).stroke,
            final(self).jitter == old(self).jitter,
            final(self).pool.size == old(self).pool.size,
            final(self).pool.target == old(self).pool.target,
            final(self).pool.failures == old(self).pool.failures,
            final(self).pool.cursor == (old(self).pool.cursor + cmds@.len()) % (
            old(self).pool.size as int),
            final(self).field.fields == old(self).field.fields,
            final(self).field.current == next_field(
                old(self).field.current as int,
                old(self).field.fields as int,
            ),
            cmds@.len() == pass_of(
                &old(self).image,
                old(self).canvas,
                old(self).sprite.ox as int,
                old(self).sprite.oy as int,
                old(self).field.current as int,
            ).len(),
            forall|j: int|
                0 <= j < cmds@.len() ==> #[trigger] draws(
                    cmds@[j],
                    &old(self).image,
                    old(self).sprite.ox as int,
                    old(self).sprite.oy as int,
                    pass_of(
                        &old(self).image,
                        old(self).canvas,
                        old(self).sprite.ox as int,
                        old(self).sprite.oy as int,
                        old(self).field.current as int,
                    )[j],
                    (old(self).pool.cursor + j) % (old(self).pool.size as int),
                ),
    {
        let cmds = dispatch_pass(
            &self.image,
            self.canvas,
            self.sprite.ox,
            self.sprite.oy,
            self.field.current,
            &mut self.pool,
        );
        self.field.advance();
        cmds
    }

    /// End of a frame: the sprite moves by its drift.
    pub fn end_frame(&mut self)
        requires
            old(self).wf(),
            old(self).sprite.movable(),
        ensures
            final(self).wf(),
            final(self).sprite.ox == old(self).sprite.ox + old(self).sprite.dx,
            final(self).sprite.oy == old(self).sprite.oy + old(self).sprite.dy,
            final(self).sprite.dx == old(self).sprite.dx,
            final(self).sprite.dy == old(self).sprite.dy,
            final(self).canvas == old(self).canvas,
            final(self).image == old(self).image,
            final(self).pool == old(self).pool,
            final(self).field == old(self).field,
            final(self).stroke == old(self).stroke,
            final(self).jitter == old(self).jitter,
    {
        self.sprite.advance();
    }
}

/// Over one frame (`begin_frame_with`, then `end_frame`) the drift on each
/// axis is negated exactly when the sprite's box crossed that axis' canvas
/// edge, then jittered on a bounce when jitter is on, and the offset moves by
/// that new drift.
pub proof fn lemma_frame_step(
    before: &Engine,
    begun: &Engine,
    after: &Engine,
    r: u8,
    g: u8,
    b: u8,
    jx: u32,
    jy: u32,
    bounced: bool,
)
    requires
        frame_begun(before, begun, r, g, b, jx, jy, bounced),
        after.sprite.ox == begun.sprite.ox + begun.sprite.dx,
        after.sprite.oy == begun.sprite.oy + begun.sprite.dy,
    ensures
        after.sprite.ox == before.sprite.ox + begun.sprite.dx,
        after.sprite.oy == before.sprite.oy + begun.sprite.dy,
        bounced == (before.sprite.crosses_x(before.canvas, before.image.width as int)
            || before.sprite.crosses_y(before.canvas, before.image.height as int)),
        !(bounced && before.jitter) ==> begun.sprite.dx == if before.sprite.crosses_x(
            before.canvas,
            before.image.width as int,
        ) {
            -before.sprite.dx
        } else {
            before.sprite.dx as int
        },
        !(bounced && before.jitter) ==> begun.sprite.dy == if before.sprite.crosses_y(
            before.canvas,
            before.image.height as int,
        ) {
            -before.sprite.dy
        } else {
            before.sprite.dy as int
        },
        bounced && before.jitter ==> begun.sprite.dx == jittered(
            if before.sprite.crosses_x(before.canvas, before.image.width as int) {
                -before.sprite.dx
            } else {
                before.sprite.dx as int
            },
            jx as int,
        ),
        bounced && before.jitter ==> begun.sprite.dy == jittered(
            if before.sprite.crosses_y(before.canvas, before.image.height as int) {
                -before.sprite.dy
            } else {
                before.sprite.dy as int
            },
            jy as int,
        ),
{
}

} // verus!
