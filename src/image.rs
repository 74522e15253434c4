//! RGBA pixel buffer and the sprite transforms (recolor, outline).

use crate::random::random_rgb;
use vstd::arithmetic::div_mod::{
    lemma_fundamental_div_mod, lemma_fundamental_div_mod_converse, lemma_mod_pos_bound,
};
use vstd::prelude::*;

verus! {

/// Pixels whose alpha is at most this value are holes: never drawn, never
/// recolored, and transparent for the outline check.
pub const SOLID_ALPHA_MIN: u8 = 240;

/// One pixel: red, green, blue and alpha channels.
#[derive(Clone, Copy, Debug, PartialEq, Eq, Structural)]
pub struct Rgba {
    pub r: u8,
    pub g: u8,
    pub b: u8,
    pub a: u8,
}

/// A pixel is solid when its alpha exceeds 240.
pub open spec fn is_solid(p: Rgba) -> bool {
    p.a > 240
}

/// The pixel `p` painted with `(r, g, b)` when solid, untouched otherwise.
pub open spec fn recolored(p: Rgba, r: u8, g: u8, b: u8) -> Rgba {
    if is_solid(p) {
        Rgba { r, g, b, a: p.a }
    } else {
        p
    }
}

/// Every solid pixel of `p` painted `(r, g, b)`, every hole kept byte for byte.
pub open spec fn recolor_seq(p: Seq<Rgba>, r: u8, g: u8, b: u8) -> Seq<Rgba> {
    p.map_values(|q: Rgba| recolored(q, r, g, b))
}

/// The pixel in column `x` of row `y` of a grid `w` pixels wide.
pub open spec fn cell_of(w: int, p: Seq<Rgba>, x: int, y: int) -> Rgba {
    p[y * w + x]
}

/// Whether cell `(x, y)` of a `w` x `h` grid is transparent. Out-of-range
/// cells count as transparent, so the outline also runs along the grid's own
/// edges.
pub open spec fn transparent_cell(w: int, h: int, p: Seq<Rgba>, x: int, y: int) -> bool {
    !(0 <= x < w && 0 <= y < h) || !is_solid(cell_of(w, p, x, y))
}

/// One of the four cells at distance exactly `d` along an axis is transparent.
pub open spec fn edge_cell(w: int, h: int, p: Seq<Rgba>, x: int, y: int, d: int) -> bool {
    ||| transparent_cell(w, h, p, x - d, y)
    ||| transparent_cell(w, h, p, x + d, y)
    ||| transparent_cell(w, h, p, x, y - d)
    ||| transparent_cell(w, h, p, x, y + d)
}

/// Cell `(x, y)` after an outline of width `d`: a solid pixel at the edge
/// turns black, keeping its alpha; every other pixel is kept.
pub open spec fn outlined_cell(w: int, h: int, p: Seq<Rgba>, x: int, y: int, d: int) -> Rgba {
    let q = cell_of(w, p, x, y);
    if d > 0 && is_solid(q) && edge_cell(w, h, p, x, y, d) {
        Rgba { r: 0, g: 0, b: 0, a: q.a }
    } else {
        q
    }
}

/// A `w` x `h` grid after an outline of width `d`, index by index.
pub open spec fn outline_seq(w: int, h: int, p: Seq<Rgba>, d: int) -> Seq<Rgba> {
    Seq::new(p.len(), |i: int| outlined_cell(w, h, p, i % w, i / w, d))
}

impl Rgba {
    pub fn is_solid(&self) -> (r: bool)
        ensures
            r == is_solid(*self),
    {
        self.a > SOLID_ALPHA_MIN
    }
}

/// Pixels flattened into RGBA bytes, four per pixel, in order.
pub open spec fn raw_of(p: Seq<Rgba>) -> Seq<u8>
    decreases p.len(),
{
    if p.len() == 0 {
        seq![]
    } else {
        let q = p.last();
        raw_of(p.drop_last()) + seq![q.r, q.g, q.b, q.a]
    }
}

/// Pixel `i` of a flat RGBA byte sequence.
pub open spec fn rgba_at(b: Seq<u8>, i: int) -> Rgba {
    Rgba { r: b[4 * i], g: b[4 * i + 1], b: b[4 * i + 2], a: b[4 * i + 3] }
}

/// A flat RGBA byte sequence read back as pixels.
pub open spec fn pixels_of_raw(b: Seq<u8>) -> Seq<Rgba> {
    Seq::new((b.len() / 4) as nat, |i: int| rgba_at(b, i))
}

/// What `image` computes when it fits a `width` x `height` RGBA image, given as
/// flat bytes, into a `size` x `size` box: the new width, height and bytes.
pub uninterp spec fn resized_of(width: u32, height: u32, raw: Seq<u8>, size: u32) -> (u32, u32, Seq<u8>);

/// Relies on `image::DynamicImage::resize` with `FilterType::Gaussian`, which
/// keeps the aspect ratio and returns a freshly allocated buffer of exactly
/// four bytes per pixel. `RgbaImage::from_raw` accepts the input since it holds
/// four bytes per pixel; source dimensions are positive and the box is at most
/// `i16::MAX` wide so that the new buffer's size cannot overflow.
#[verifier::external_body]
fn resize_raw(width: u32, height: u32, raw: Vec<u8>, size: u32) -> (r: (u32, u32, Vec<u8>))
    requires
        width > 0,
        height > 0,
        raw@.len() == width * height * 4,
        size <= 32767,
    ensures
        (r.0, r.1, r.2@) == resized_of(width, height, raw@, size),
        r.2@.len() == r.0 * r.1 * 4,
{
    let img = image::RgbaImage::from_raw(width, height, raw).unwrap();
    let out = image::DynamicImage::ImageRgba8(img)
        .resize(size, size, image::imageops::FilterType::Gaussian)
        .to_rgba8();
    (out.width(), out.height(), out.into_raw())
}

/// Four bytes per pixel.
pub proof fn lemma_raw_len(p: Seq<Rgba>)
    ensures
        raw_of(p).len() == 4 * p.len(),
    decreases p.len(),
{
    if p.len() > 0 {
        lemma_raw_len(p.drop_last());
    }
}

/// Cell `(x, y)` of a `w` x `h` grid sits at index `y * w + x`, inside the grid.
pub proof fn lemma_cell_index(w: int, h: int, x: int, y: int)
    requires
        0 <= x < w,
        0 <= y < h,
    ensures
        0 <= y * w + x < w * h,
{
    assert(0 <= y * w) by (nonlinear_arith)
        requires
            0 <= y,
            0 <= w,
    ;
    assert(y * w + w <= w * h) by (nonlinear_arith)
        requires
            y + 1 <= h,
            0 <= w,
    ;
}

/// Index `i` of a `w` x `h` grid is the cell `(i % w, i / w)`.
pub proof fn lemma_index_cell(w: int, h: int, i: int)
    requires
        0 <= w,
        0 <= h,
        0 <= i < w * h,
    ensures
        w > 0,
        0 <= i % w < w,
        0 <= i / w < h,
        (i / w) * w + i % w == i,
{
    assert(w > 0) by (nonlinear_arith)
        requires
            0 <= i < w * h,
            0 <= h,
    ;
    lemma_fundamental_div_mod(i, w);
    lemma_mod_pos_bound(i, w);
    assert(0 <= i / w < h) by (nonlinear_arith)
        requires
            w > 0,
            0 <= i < w * h,
            i == w * (i / w) + i % w,
            0 <= i % w < w,
    ;
    assert((i / w) * w == w * (i / w)) by (nonlinear_arith);
}

/// A `width` x `height` grid of pixels stored row by row.
pub struct Image {
    pub width: u32,
    pub height: u32,
    pub pixels: Vec<Rgba>,
}

impl Image {
    /// The grid holds exactly one pixel per cell.
    pub open spec fn wf(&self) -> bool {
        self.pixels@.len() == self.width as int * self.height as int
    }

    pub open spec fn in_bounds(&self, x: int, y: int) -> bool {
        0 <= x < self.width && 0 <= y < self.height
    }

    /// The pixel in column `x` of row `y`.
    pub open spec fn at(&self, x: int, y: int) -> Rgba {
        cell_of(self.width as int, self.pixels@, x, y)
    }

    pub open spec fn transparent_at(&self, x: int, y: int) -> bool {
        transparent_cell(self.width as int, self.height as int, self.pixels@, x, y)
    }

    pub open spec fn outlined_at(&self, x: int, y: int, d: int) -> Rgba {
        outlined_cell(self.width as int, self.height as int, self.pixels@, x, y, d)
    }

    /// Bounds-checked lookup: `None` outside the buffer.
    pub fn pixel_checked(&self, x: i64, y: i64) -> (r: Option<Rgba>)
        requires
            self.wf(),
        ensures
            r == (if self.in_bounds(x as int, y as int) {
                Some(self.at(x as int, y as int))
            } else {
                None
            }),
    {
        let n = self.pixels.len();
        if 0 <= x && x < self.width as i64 && 0 <= y && y < self.height as i64 {
            proof {
                lemma_cell_index(self.width as int, self.height as int, x as int, y as int);
            }
            Some(self.pixels[(y as usize) * (self.width as usize) + (x as usize)])
        } else {
            None
        }
    }

    /// A cell is transparent when it is out of range or not solid.
    pub fn pixel_is_transparent(&self, x: i64, y: i64) -> (r: bool)
        requires
            self.wf(),
        ensures
            r == self.transparent_at(x as int, y as int),
    {
        match self.pixel_checked(x, y) {
            Some(p) => !p.is_solid(),
            None => true,
        }
    }

    /// Blackens (RGB only) every solid pixel for which one of the four cells
    /// at distance exactly `width` along an axis is transparent or out of
    /// range. Only that distance is consulted, not the cells in between.
    /// A width of 0 changes nothing.
    pub fn outline(&mut self, width: u32)
        requires
            old(self).wf(),
        ensures
            final(self).wf(),
            final(self).width == old(self).width,
            final(self).height == old(self).height,
            forall|x: int, y: int|
                old(self).in_bounds(x, y) ==> #[trigger] final(self).at(x, y) == old(self).outlined_at(
                    x,
                    y,
                    width as int,
                ),
            final(self).pixels@ == outline_seq(
                old(self).width as int,
                old(self).height as int,
                old(self).pixels@,
                width as int,
            ),
    {
        if width == 0 {
            assert(self.pixels@ =~= outline_seq(
                self.width as int,
                self.height as int,
                self.pixels@,
                0,
            )) by {
                assert forall|j: int| 0 <= j < self.pixels@.len() implies self.pixels@[j]
                    == #[trigger] outline_seq(
                    self.width as int,
                    self.height as int,
                    self.pixels@,
                    0,
                )[j] by {
                    lemma_index_cell(self.width as int, self.height as int, j);
                }
            }
            return;
        }
        let n = self.pixels.len();
        let w = self.width as usize;
        let d = width as i64;
        let ghost w0 = old(self).width as int;
        let ghost h0 = old(self).height as int;
        let mut i: usize = 0;
        while i < n
            invariant
                0 <= i <= n,
                n == old(self).pixels@.len(),
                old(self).wf(),
                w == w0,
                w0 == old(self).width,
                h0 == old(self).height,
                d == width,
                width > 0,
                self.width == old(self).width,
                self.height == old(self).height,
                self.pixels@.len() == n,
                forall|j: int| 0 <= j < n ==> (#[trigger] self.pixels@[j]).a == old(self).pixels@[j].a,
                forall|j: int|
                    0 <= j < i ==> #[trigger] self.pixels@[j] == old(self).outlined_at(
                        j % w0,
                        j / w0,
                        width as int,
                    ),
                forall|j: int| i <= j < n ==> #[trigger] self.pixels@[j] == old(self).pixels@[j],
            decreases n - i,
        {
            proof {
                lemma_index_cell(w0, h0, i as int);
            }
            let x = (i % w) as i64;
            let y = (i / w) as i64;
            let p = self.pixels[i];
            if p.is_solid() {
                let edge = self.pixel_is_transparent(x - d, y) || self.pixel_is_transparent(x + d, y)
                    || self.pixel_is_transparent(x, y - d) || self.pixel_is_transparent(x, y + d);
                proof {
                    self.lemma_same_transparency(old(self), x - d, y as int);
                    self.lemma_same_transparency(old(self), x + d, y as int);
                    self.lemma_same_transparency(old(self), x as int, y - d);
                    self.lemma_same_transparency(old(self), x as int, y + d);
                }
                if edge {
                    self.pixels.set(i, Rgba { r: 0, g: 0, b: 0, a: p.a });
                }
            }
            i = i + 1;
        }
        proof {
            assert forall|x: int, y: int| old(self).in_bounds(x, y) implies #[trigger] self.at(x, y)
                == old(self).outlined_at(x, y, width as int) by {
                lemma_cell_index(w0, h0, x, y);
                lemma_fundamental_div_mod_converse(y * w0 + x, w0, y, x);
            }
            assert(self.pixels@ =~= outline_seq(w0, h0, old(self).pixels@, width as int));
        }
    }

    /// Two buffers of one size whose alphas agree agree on transparency.
    proof fn lemma_same_transparency(&self, o: &Image, x: int, y: int)
        requires
            self.wf(),
            o.wf(),
            self.width == o.width,
            self.height == o.height,
            forall|j: int| 0 <= j < o.pixels@.len() ==> (#[trigger] self.pixels@[j]).a == o.pixels@[j].a,
        ensures
            self.transparent_at(x, y) == o.transparent_at(x, y),
    {
        if self.in_bounds(x, y) {
            lemma_cell_index(self.width as int, self.height as int, x, y);
            assert(self.pixels@[y * self.width + x].a == o.pixels@[y * o.width + x].a);
        }
    }

    /// An image from flat RGBA bytes, four per pixel, row by row; `None` when
    /// the byte count is not `4 * width * height`.
    pub fn from_raw(width: u32, height: u32, raw: &Vec<u8>) -> (r: Option<Image>)
        ensures
            raw@.len() == 4 * (width * height) <==> r is Some,
            r matches Some(img) ==> img.wf() && img.width == width && img.height == height
                && img.pixels@ == pixels_of_raw(raw@),
    {
        let n = raw.len();
        assert((width as int) * (height as int) <= 0xffff_ffff * 0xffff_ffff) by (nonlinear_arith)
            requires
                width <= 0xffff_ffff,
                height <= 0xffff_ffff,
        ;
        let cells = (width as u64) * (height as u64);
        if n % 4 != 0 || cells != (n / 4) as u64 {
            return None;
        }
        let count = n / 4;
        let mut pixels: Vec<Rgba> = Vec::new();
        let mut i: usize = 0;
        while i < count
            invariant
                0 <= i <= count,
                count == n / 4,
                n == raw@.len(),
                n % 4 == 0,
                pixels@.len() == i,
                forall|j: int| 0 <= j < i ==> #[trigger] pixels@[j] == rgba_at(raw@, j),
            decreases count - i,
        {
            let k = 4 * i;
            pixels.push(Rgba { r: raw[k], g: raw[k + 1], b: raw[k + 2], a: raw[k + 3] });
            i = i + 1;
        }
        assert(pixels@ =~= pixels_of_raw(raw@));
        Some(Image { width, height, pixels })
    }

    /// The pixels as flat RGBA bytes, four per pixel, row by row.
    pub fn to_raw(&self) -> (r: Vec<u8>)
        ensures
            r@ == raw_of(self.pixels@),
    {
        let n = self.pixels.len();
        let mut out: Vec<u8> = Vec::new();
        let mut i: usize = 0;
        while i < n
            invariant
                0 <= i <= n,
                n == self.pixels@.len(),
                out@ == raw_of(self.pixels@.subrange(0, i as int)),
            decreases n - i,
        {
            let p = self.pixels[i];
            proof {
                assert(self.pixels@.subrange(0, i + 1).drop_last() =~= self.pixels@.subrange(0, i as int));
            }
            out.push(p.r);
            out.push(p.g);
            out.push(p.b);
            out.push(p.a);
            assert(out@ =~= raw_of(self.pixels@.subrange(0, i + 1)));
            i = i + 1;
        }
        assert(self.pixels@.subrange(0, n as int) =~= self.pixels@);
        out
    }

    /// This image fitted into a `size` x `size` box by `image`'s Gaussian
    /// resampling, keeping the aspect ratio.
    pub fn resized(&self, size: u32) -> (r: Image)
        requires
            self.wf(),
            self.width > 0,
            self.height > 0,
            size <= 32767,
        ensures
            r.wf(),
            r.width == resized_of(self.width, self.height, raw_of(self.pixels@), size).0,
            r.height == resized_of(self.width, self.height, raw_of(self.pixels@), size).1,
            r.pixels@ == pixels_of_raw(resized_of(self.width, self.height, raw_of(self.pixels@), size).2),
    {
        let raw = self.to_raw();
        proof {
            lemma_raw_len(self.pixels@);
        }
        let (w, h, out) = resize_raw(self.width, self.height, raw, size);
        proof {
            assert(4 * (w * h) == w * h * 4) by (nonlinear_arith);
        }
        match Image::from_raw(w, h, &out) {
            Some(img) => img,
            None => {
                // unreachable: the resized buffer holds four bytes per pixel
                proof {
                    assert(false);
                }
                Image { width: 0, height: 0, pixels: Vec::new() }
            },
        }
    }

    /// Paints every solid pixel with `(r, g, b)`, keeping its alpha; holes stay
    /// as they are.
    pub fn recolor_with(&mut self, r: u8, g: u8, b: u8)
        requires
            old(self).wf(),
        ensures
            final(self).wf(),
            final(self).width == old(self).width,
            final(self).height == old(self).height,
            final(self).pixels@ == recolor_seq(old(self).pixels@, r, g, b),
    {
        let n = self.pixels.len();
        let mut i: usize = 0;
        while i < n
            invariant
                0 <= i <= n,
                n == old(self).pixels@.len(),
                self.width == old(self).width,
                self.height == old(self).height,
                self.pixels@.len() == n,
                forall|j: int| 0 <= j < i ==> #[trigger] self.pixels@[j] == recolored(old(self).pixels@[j], r, g, b),
                forall|j: int| i <= j < n ==> #[trigger] self.pixels@[j] == old(self).pixels@[j],
            decreases n - i,
        {
            let p = self.pixels[i];
            if p.is_solid() {
                self.pixels.set(i, Rgba { r, g, b, a: p.a });
            }
            i = i + 1;
        }
        assert(self.pixels@ =~= recolor_seq(old(self).pixels@, r, g, b));
    }

    /// Paints every solid pixel with one colour drawn uniformly from all RGB
    /// triples; alpha and holes are left as they are.
    pub fn recolor(&mut self)
        requires
            old(self).wf(),
        ensures
            final(self).wf(),
            final(self).width == old(self).width,
            final(self).height == old(self).height,
            exists|r: u8, g: u8, b: u8|
                final(self).pixels@ == #[trigger] recolor_seq(old(self).pixels@, r, g, b),
    {
        let (r, g, b) = random_rgb();
        self.recolor_with(r, g, b);
    }
}

} // verus!
