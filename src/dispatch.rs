//! One dispatch pass: which pixels of the sprite become `PX` commands at a
//! given offset and field, and which connection carries each of them.

use crate::image::{is_solid, lemma_index_cell, Image, Rgba};
use crate::pool::ConnectionPool;
use vstd::arithmetic::div_mod::{
    lemma_add_mod_noop_right, lemma_fundamental_div_mod, lemma_fundamental_div_mod_converse,
    lemma_mod_pos_bound, lemma_small_mod,
};
use vstd::prelude::*;

verus! {

/// Offsets and drifts stay within this magnitude, so that canvas coordinates
/// computed from them never overflow.
pub const COORD_LIMIT: i64 = 0x2000_0000_0000_0000;

/// Size of the remote canvas.
#[derive(Clone, Copy, Debug, PartialEq, Eq, Structural)]
pub struct Canvas {
    pub width: u32,
    pub height: u32,
}

/// One pixel write: the connection that carries it, the canvas coordinate
/// and the colour (alpha is never sent).
#[derive(Clone, Copy, Debug, PartialEq, Eq, Structural)]
pub struct PxCommand {
    pub conn: usize,
    pub x: u64,
    pub y: u64,
    pub r: u8,
    pub g: u8,
    pub b: u8,
}

const ASCII_ZERO: u8 = 48;

/// `'A'` minus ten: the hex digit of values 10 to 15 is this plus the value.
const ASCII_UPPER_HEX_BASE: u8 = 55;

const ASCII_SPACE: u8 = 32;

const ASCII_NEWLINE: u8 = 10;

/// Decimal digits of `n` as ASCII, most significant first, no leading zeros.
pub open spec fn decimal(n: nat) -> Seq<u8>
    decreases n,
{
    if n < 10 {
        seq![(48 + n) as u8]
    } else {
        decimal(n / 10).push((48 + n % 10) as u8)
    }
}

/// Upper-case ASCII hex digit of `v < 16`.
pub open spec fn hex_digit(v: nat) -> u8 {
    if v < 10 {
        (48 + v) as u8
    } else {
        (55 + v) as u8
    }
}

/// Two upper-case hex digits of a byte.
pub open spec fn hex_byte(b: u8) -> Seq<u8> {
    seq![hex_digit(b as nat / 16), hex_digit(b as nat % 16)]
}

/// The wire text of a pixel write: `PX <x> <y> <RRGGBB>` and a newline
/// (bytes 80, 88 spell `PX`, 32 is a space, 10 a newline).
pub open spec fn px_line(x: nat, y: nat, r: u8, g: u8, b: u8) -> Seq<u8> {
    seq![80u8, 88u8, 32u8] + decimal(x) + seq![32u8] + decimal(y) + seq![32u8] + hex_byte(r)
        + hex_byte(g) + hex_byte(b) + seq![10u8]
}

/// Appends the decimal digits of `n`.
fn push_decimal(out: &mut Vec<u8>, n: u64)
    ensures
        final(out)@ == old(out)@ + decimal(n as nat),
    decreases n,
{
    if n >= 10 {
        push_decimal(out, n / 10);
    }
    out.push(ASCII_ZERO + (n % 10) as u8);
    assert(final(out)@ =~= old(out)@ + decimal(n as nat));
}

/// Appends the two upper-case hex digits of `v`.
fn push_hex(out: &mut Vec<u8>, v: u8)
    ensures
        final(out)@ == old(out)@ + hex_byte(v),
{
    let hi = v / 16;
    let lo = v % 16;
    out.push(if hi < 10 { ASCII_ZERO + hi } else { ASCII_UPPER_HEX_BASE + hi });
    out.push(if lo < 10 { ASCII_ZERO + lo } else { ASCII_UPPER_HEX_BASE + lo });
    assert(final(out)@ =~= old(out)@ + hex_byte(v));
}

impl PxCommand {
    /// The command as it goes on the wire.
    pub fn encode(&self) -> (r: Vec<u8>)
        ensures
            r@ == px_line(self.x as nat, self.y as nat, self.r, self.g, self.b),
    {
        let mut out: Vec<u8> = Vec::new();
        // `PX`
        out.push(80u8);
        out.push(88u8);
        out.push(ASCII_SPACE);
        push_decimal(&mut out, self.x);
        out.push(ASCII_SPACE);
        push_decimal(&mut out, self.y);
        out.push(ASCII_SPACE);
        push_hex(&mut out, self.r);
        push_hex(&mut out, self.g);
        push_hex(&mut out, self.b);
        out.push(ASCII_NEWLINE);
        assert(out@ =~= px_line(self.x as nat, self.y as nat, self.r, self.g, self.b));
        out
    }
}

/// Canvas column of pixel `i` of `img` when the sprite's top-left corner is at column `ox`.
pub open spec fn canvas_x(img: &Image, ox: int, i: int) -> int {
    i % (img.width as int) + ox
}

/// Canvas row of pixel `i` of `img` when the sprite's top-left corner is at row `oy`.
pub open spec fn canvas_y(img: &Image, oy: int, i: int) -> int {
    i / (img.width as int) + oy
}

/// A coordinate is drawn unless it is negative or exceeds the canvas size.
pub open spec fn on_canvas(c: Canvas, x: int, y: int) -> bool {
    0 <= x <= c.width && 0 <= y <= c.height
}

/// Pixel `i` is sent in a pass with field `f`: it is solid, both canvas
/// coordinates are multiples of `f`, and it lies on the canvas.
pub open spec fn emits(img: &Image, c: Canvas, ox: int, oy: int, f: int, i: int) -> bool {
    let x = canvas_x(img, ox, i);
    let y = canvas_y(img, oy, i);
    is_solid(img.pixels@[i]) && x % f == 0 && y % f == 0 && on_canvas(c, x, y)
}

/// Indices, in row-major order, of the pixels among the first `n` that a pass sends.
pub open spec fn pass_prefix(img: &Image, c: Canvas, ox: int, oy: int, f: int, n: nat) -> Seq<int>
    decreases n,
{
    if n == 0 {
        seq![]
    } else {
        let prev = pass_prefix(img, c, ox, oy, f, (n - 1) as nat);
        if emits(img, c, ox, oy, f, n - 1) {
            prev.push(n - 1)
        } else {
            prev
        }
    }
}

/// Indices, in row-major order, of the pixels that a whole pass sends.
pub open spec fn pass_of(img: &Image, c: Canvas, ox: int, oy: int, f: int) -> Seq<int> {
    pass_prefix(img, c, ox, oy, f, img.pixels@.len())
}

/// `cmd` draws pixel `i` of `img` at the sprite offset `(ox, oy)` over connection `conn`.
pub open spec fn draws(cmd: PxCommand, img: &Image, ox: int, oy: int, i: int, conn: int) -> bool {
    let p: Rgba = img.pixels@[i];
    &&& cmd.conn == conn
    &&& cmd.x == canvas_x(img, ox, i)
    &&& cmd.y == canvas_y(img, oy, i)
    &&& cmd.r == p.r
    &&& cmd.g == p.g
    &&& cmd.b == p.b
}

/// One pass over the sprite at offset `(ox, oy)` with field `field`: a
/// command for each pixel that `emits`, in row-major order, the `j`-th going
/// to the connection `j` slots after the pool's cursor.
pub fn dispatch_pass(
    img: &Image,
    canvas: Canvas,
    ox: i64,
    oy: i64,
    field: u32,
    pool: &mut ConnectionPool,
) -> (cmds: Vec<PxCommand>)
    requires
        img.wf(),
        field >= 1,
        old(pool).wf(),
        old(pool).size > 0,
        -COORD_LIMIT <= ox <= COORD_LIMIT,
        -COORD_LIMIT <= oy <= COORD_LIMIT,
    ensures
        final(pool).wf(),
        final(pool).target == old(pool).target,
        final(pool).size == old(pool).size,
        final(pool).failures == old(pool).failures,
        cmds@.len() == pass_of(img, canvas, ox as int, oy as int, field as int).len(),
        forall|j: int|
            0 <= j < cmds@.len() ==> #[trigger] draws(
                cmds@[j],
                img,
                ox as int,
                oy as int,
                pass_of(img, canvas, ox as int, oy as int, field as int)[j],
                (old(pool).cursor + j) % (old(pool).size as int),
            ),
        final(pool).cursor == (old(pool).cursor + cmds@.len()) % (old(pool).size as int),
{
    let n = img.pixels.len();
    let w = img.width as usize;
    let f = field as u64;
    let ghost c0 = pool.cursor as int;
    let ghost size = pool.size as int;
    let ghost fi = field as int;
    let mut cmds: Vec<PxCommand> = Vec::new();
    let mut i: usize = 0;
    proof {
        lemma_small_mod(c0 as nat, size as nat);
    }
    while i < n
        invariant
            0 <= i <= n,
            n == img.pixels@.len(),
            img.wf(),
            w == img.width,
            f == field,
            fi == field,
            field >= 1,
            -COORD_LIMIT <= ox <= COORD_LIMIT,
            -COORD_LIMIT <= oy <= COORD_LIMIT,
            pool.wf(),
            size == pool.size,
            size > 0,
            c0 == old(pool).cursor,
            size == old(pool).size,
            pool.target == old(pool).target,
            pool.failures == old(pool).failures,
            pool.cursor == (c0 + cmds@.len()) % size,
            cmds@.len() == pass_prefix(img, canvas, ox as int, oy as int, fi, i as nat).len(),
            forall|j: int|
                0 <= j < cmds@.len() ==> #[trigger] draws(
                    cmds@[j],
                    img,
                    ox as int,
                    oy as int,
                    pass_prefix(img, canvas, ox as int, oy as int, fi, i as nat)[j],
                    (c0 + j) % size,
                ),
        decreases n - i,
    {
        proof {
            lemma_index_cell(img.width as int, img.height as int, i as int);
        }
        let p = img.pixels[i];
        let ghost prev = pass_prefix(img, canvas, ox as int, oy as int, fi, i as nat);
        let x: i64 = (i % w) as i64 + ox;
        let y: i64 = (i / w) as i64 + oy;
        if p.is_solid() && x >= 0 && y >= 0 && (x as u64) % f == 0 && (y as u64) % f == 0
            && x <= canvas.width as i64 && y <= canvas.height as i64 {
            let ghost len = cmds@.len() as int;
            let conn = pool.next();
            proof {
                lemma_add_mod_noop_right(1, c0 + len, size);
            }
            cmds.push(PxCommand { conn, x: x as u64, y: y as u64, r: p.r, g: p.g, b: p.b });
            assert(pass_prefix(img, canvas, ox as int, oy as int, fi, (i + 1) as nat) == prev.push(
                i as int,
            ));
        } else {
            assert(pass_prefix(img, canvas, ox as int, oy as int, fi, (i + 1) as nat) == prev);
        }
        i = i + 1;
    }
    cmds
}

/// Every pixel that a pass sends `emits` (so it is solid, on the canvas and
/// on the field's grid), and the pass visits pixels in row-major order.
pub proof fn lemma_pass_prefix(img: &Image, c: Canvas, ox: int, oy: int, f: int, n: nat)
    ensures
        forall|j: int|
            0 <= j < pass_prefix(img, c, ox, oy, f, n).len() ==> 0 <= #[trigger] pass_prefix(
                img,
                c,
                ox,
                oy,
                f,
                n,
            )[j] < n && emits(img, c, ox, oy, f, pass_prefix(img, c, ox, oy, f, n)[j]),
        forall|j1: int, j2: int|
            0 <= j1 < j2 < pass_prefix(img, c, ox, oy, f, n).len() ==> #[trigger] pass_prefix(
                img,
                c,
                ox,
                oy,
                f,
                n,
            )[j1] < #[trigger] pass_prefix(img, c, ox, oy, f, n)[j2],
    decreases n,
{
    if n > 0 {
        lemma_pass_prefix(img, c, ox, oy, f, (n - 1) as nat);
        let prev = pass_prefix(img, c, ox, oy, f, (n - 1) as nat);
        let cur = pass_prefix(img, c, ox, oy, f, n);
        if emits(img, c, ox, oy, f, n - 1) {
            assert(cur == prev.push(n - 1));
            assert forall|j: int| 0 <= j < prev.len() implies #[trigger] cur[j] == prev[j] by {}
            assert forall|j1: int, j2: int| 0 <= j1 < j2 < cur.len() implies #[trigger] cur[j1]
                < #[trigger] cur[j2] by {
                if j2 == prev.len() {
                    assert(cur[j1] == prev[j1]);
                } else {
                    assert(cur[j1] == prev[j1] && cur[j2] == prev[j2]);
                }
            }
        }
    }
}

/// What a pass sends: only solid pixels, only coordinates on the canvas whose
/// column and row are both multiples of the field, in row-major order.
pub proof fn lemma_pass_sends(img: &Image, c: Canvas, ox: int, oy: int, f: int)
    requires
        img.wf(),
    ensures
        forall|j: int|
            0 <= j < pass_of(img, c, ox, oy, f).len() ==> {
                let i = #[trigger] pass_of(img, c, ox, oy, f)[j];
                &&& 0 <= i < img.pixels@.len()
                &&& is_solid(img.pixels@[i])
                &&& canvas_x(img, ox, i) % f == 0
                &&& canvas_y(img, oy, i) % f == 0
                &&& on_canvas(c, canvas_x(img, ox, i), canvas_y(img, oy, i))
            },
        forall|j1: int, j2: int|
            0 <= j1 < j2 < pass_of(img, c, ox, oy, f).len() ==> #[trigger] pass_of(
                img,
                c,
                ox,
                oy,
                f,
            )[j1] < #[trigger] pass_of(img, c, ox, oy, f)[j2],
{
    lemma_pass_prefix(img, c, ox, oy, f, img.pixels@.len());
}

/// Holes are never drawn: whatever the offset and the field, no command of a
/// pass lands on the canvas coordinate of a pixel whose alpha is at most 240.
pub proof fn lemma_holes_never_drawn(img: &Image, c: Canvas, ox: int, oy: int, f: int, i: int)
    requires
        img.wf(),
        0 <= i < img.pixels@.len(),
        !is_solid(img.pixels@[i]),
    ensures
        forall|j: int|
            0 <= j < pass_of(img, c, ox, oy, f).len() ==> !(canvas_x(
                img,
                ox,
                #[trigger] pass_of(img, c, ox, oy, f)[j],
            ) == canvas_x(img, ox, i) && canvas_y(img, oy, pass_of(img, c, ox, oy, f)[j])
                == canvas_y(img, oy, i)),
{
    lemma_pass_sends(img, c, ox, oy, f);
    let w = img.width as int;
    lemma_index_cell(w, img.height as int, i);
    assert forall|j: int| 0 <= j < pass_of(img, c, ox, oy, f).len() implies !(canvas_x(
        img,
        ox,
        #[trigger] pass_of(img, c, ox, oy, f)[j],
    ) == canvas_x(img, ox, i) && canvas_y(img, oy, pass_of(img, c, ox, oy, f)[j]) == canvas_y(
        img,
        oy,
        i,
    )) by {
        let k = pass_of(img, c, ox, oy, f)[j];
        lemma_fundamental_div_mod(k, w);
        lemma_fundamental_div_mod(i, w);
    }
}

/// Number of commands in `cmds` that go to connection `k`.
pub open spec fn conn_count(cmds: Seq<PxCommand>, k: int) -> nat
    decreases cmds.len(),
{
    if cmds.len() == 0 {
        0
    } else {
        conn_count(cmds.drop_last(), k) + if cmds.last().conn == k {
            1nat
        } else {
            0nat
        }
    }
}

/// How many slots after the cursor `c0` connection `k` of `n` comes.
pub open spec fn slot_of(c0: int, k: int, n: int) -> int {
    if k >= c0 {
        k - c0
    } else {
        k - c0 + n
    }
}

/// The `t`-th slot after cursor `c0` is connection `k` exactly when `t` is
/// `slot_of(c0, k, n)` modulo `n`.
proof fn lemma_slot(c0: int, t: int, n: int, k: int)
    requires
        0 <= c0 < n,
        0 <= k < n,
        0 <= t,
    ensures
        ((c0 + t) % n == k) == (t % n == slot_of(c0, k, n)),
{
    lemma_add_mod_noop_right(c0, t, n);
    lemma_mod_pos_bound(t, n);
    let u = t % n;
    if c0 + u < n {
        lemma_small_mod((c0 + u) as nat, n as nat);
    } else {
        lemma_fundamental_div_mod_converse(c0 + u, n, 1, c0 + u - n);
    }
}

/// Quotient and remainder of `m + 1` by `n` from those of `m`.
proof fn lemma_div_mod_succ(m: int, n: int)
    requires
        0 <= m,
        0 < n,
    ensures
        m % n == n - 1 ==> (m + 1) % n == 0 && (m + 1) / n == m / n + 1,
        m % n != n - 1 ==> (m + 1) % n == m % n + 1 && (m + 1) / n == m / n,
{
    lemma_fundamental_div_mod(m, n);
    lemma_mod_pos_bound(m, n);
    assert((m / n) * n == n * (m / n)) by (nonlinear_arith);
    assert((m / n + 1) * n == n * (m / n) + n) by (nonlinear_arith);
    if m % n == n - 1 {
        lemma_fundamental_div_mod_converse(m + 1, n, m / n + 1, 0);
    } else {
        lemma_fundamental_div_mod_converse(m + 1, n, m / n, m % n + 1);
    }
}

/// Closed form of the round-robin count.
proof fn lemma_conn_count_exact(cmds: Seq<PxCommand>, n: int, c0: int, k: int)
    requires
        n > 0,
        0 <= c0 < n,
        0 <= k < n,
        forall|j: int| 0 <= j < cmds.len() ==> #[trigger] cmds[j].conn == (c0 + j) % n,
    ensures
        conn_count(cmds, k) == (cmds.len() as int) / n + if (cmds.len() as int) % n > slot_of(c0, k, n) {
            1int
        } else {
            0int
        },
    decreases cmds.len(),
{
    let m = cmds.len() as int;
    if m == 0 {
        lemma_small_mod(0, n as nat);
    } else {
        let prev = cmds.drop_last();
        assert forall|j: int| 0 <= j < prev.len() implies #[trigger] prev[j].conn == (c0 + j) % n by {
            assert(prev[j] == cmds[j]);
        }
        lemma_conn_count_exact(prev, n, c0, k);
        lemma_slot(c0, m - 1, n, k);
        lemma_div_mod_succ(m - 1, n);
        lemma_mod_pos_bound(m - 1, n);
    }
}

/// Round-robin balance: when the `j`-th of `m` commands goes to connection
/// `(c0 + j) % n`, every connection receives either the floor or the ceiling
/// of `m / n` of them.
pub proof fn lemma_round_robin_balanced(cmds: Seq<PxCommand>, n: int, c0: int, k: int)
    requires
        n > 0,
        0 <= c0 < n,
        0 <= k < n,
        forall|j: int| 0 <= j < cmds.len() ==> #[trigger] cmds[j].conn == (c0 + j) % n,
    ensures
        (cmds.len() as int) / n <= conn_count(cmds, k) <= (cmds.len() as int) / n + 1,
        conn_count(cmds, k) == (cmds.len() as int) / n + 1 ==> (cmds.len() as int) % n != 0,
{
    lemma_conn_count_exact(cmds, n, c0, k);
}

} // verus!
