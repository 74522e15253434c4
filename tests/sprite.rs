use pixelflut_client::args::PixelflutClientArgs;
use pixelflut_client::bounce::{initial_offset, jitter_drift, SpriteState};
use pixelflut_client::dispatch::Canvas;
use pixelflut_client::engine::Engine;
use pixelflut_client::image::{Image, Rgba};
use pixelflut_client::pool::ConnectionPool;
use pixelflut_client::schedule::{frame_period_nanos, is_slow_frame, wants_another_pass, FieldCounter};

fn solid(r: u8, g: u8, b: u8) -> Rgba {
    Rgba { r, g, b, a: 241 }
}

fn hole(a: u8) -> Rgba {
    Rgba { r: 1, g: 2, b: 3, a }
}

const BLACK: Rgba = Rgba { r: 0, g: 0, b: 0, a: 241 };

#[test]
fn recolor_paints_solid_pixels_only() {
    let before = vec![solid(1, 2, 3), hole(240), solid(9, 9, 9), hole(0), Rgba { r: 4, g: 5, b: 6, a: 255 }];
    let mut img = Image { width: 5, height: 1, pixels: before.clone() };
    img.recolor_with(10, 20, 30);
    assert_eq!(
        img.pixels,
        vec![solid(10, 20, 30), hole(240), solid(10, 20, 30), hole(0), Rgba { r: 10, g: 20, b: 30, a: 255 }]
    );
    let mut img = Image { width: 5, height: 1, pixels: before.clone() };
    img.recolor();
    let c = (img.pixels[0].r, img.pixels[0].g, img.pixels[0].b);
    for (p, q) in img.pixels.iter().zip(before.iter()) {
        assert_eq!(p.a, q.a);
        if q.a > 240 {
            assert_eq!((p.r, p.g, p.b), c);
        } else {
            assert_eq!(p, q);
        }
    }
}

#[test]
fn outline_uses_exact_distance() {
    // a 5 x 5 solid block: with width 2, a cell is black when it is within
    // two cells of a border along some axis, i.e. in columns or rows 0, 1, 3, 4
    let mut img = Image { width: 5, height: 5, pixels: vec![solid(7, 7, 7); 25] };
    img.outline(2);
    for y in 0..5 {
        for x in 0..5 {
            let p = img.pixels[y * 5 + x];
            if x == 2 && y == 2 {
                assert_eq!(p, solid(7, 7, 7));
            } else {
                assert_eq!(p, BLACK, "cell {} {}", x, y);
            }
        }
    }
}

#[test]
fn outline_looks_only_at_distance_w() {
    // a single row: the vertical neighbours are out of range, so every
    // solid pixel is at an edge
    let mut pixels = vec![solid(5, 5, 5); 7];
    pixels[0] = hole(100);
    let mut img = Image { width: 7, height: 1, pixels };
    img.outline(3);
    for x in 1..7 {
        assert_eq!(img.pixels[x], BLACK);
    }
    assert_eq!(img.pixels[0], hole(100));
    // on an 11 x 11 block with a hole at (4, 5), row 5 turns black where the
    // cell three to the left or right is the hole or out of range; cells next
    // to the hole keep their colour
    let mut pixels = vec![solid(5, 5, 5); 11 * 11];
    pixels[5 * 11 + 4] = hole(100);
    let mut img = Image { width: 11, height: 11, pixels };
    img.outline(3);
    let row: Vec<bool> = (0..11).map(|x| img.pixels[5 * 11 + x] == BLACK).collect();
    assert_eq!(
        row,
        vec![true, true, true, false, false, false, false, true, true, true, true]
    );
    assert_eq!(img.pixels[5 * 11 + 3], solid(5, 5, 5));
    assert_eq!(img.pixels[5 * 11 + 5], solid(5, 5, 5));
}

#[test]
fn outline_width_zero_changes_nothing() {
    let pixels = vec![solid(1, 1, 1), hole(3), solid(2, 2, 2), solid(3, 3, 3)];
    let mut img = Image { width: 2, height: 2, pixels: pixels.clone() };
    img.outline(0);
    assert_eq!(img.pixels, pixels);
}

#[test]
fn checked_lookup_treats_outside_as_transparent() {
    let img = Image { width: 2, height: 1, pixels: vec![solid(1, 1, 1), hole(240)] };
    assert_eq!(img.pixel_checked(0, 0), Some(solid(1, 1, 1)));
    assert_eq!(img.pixel_checked(-1, 0), None);
    assert_eq!(img.pixel_checked(2, 0), None);
    assert!(!img.pixel_is_transparent(0, 0));
    assert!(img.pixel_is_transparent(1, 0));
    assert!(img.pixel_is_transparent(0, 1));
}

#[test]
fn raw_round_trip() {
    let raw = vec![1u8, 2, 3, 4, 5, 6, 7, 8];
    let img = Image::from_raw(2, 1, &raw).unwrap();
    assert_eq!(img.pixels, vec![Rgba { r: 1, g: 2, b: 3, a: 4 }, Rgba { r: 5, g: 6, b: 7, a: 8 }]);
    assert_eq!(img.to_raw(), raw);
    assert!(Image::from_raw(3, 1, &raw).is_none());
    assert!(Image::from_raw(1, 1, &vec![1, 2, 3]).is_none());
}

#[test]
fn resize_fits_the_box() {
    let img = Image { width: 8, height: 4, pixels: vec![solid(200, 100, 50); 32] };
    let small = img.resized(4);
    assert_eq!((small.width, small.height), (4, 2));
    assert_eq!(small.pixels.len(), 8);
    let same = img.resized(8);
    assert_eq!((same.width, same.height), (8, 4));
}

#[test]
fn bounce_flips_drift_at_edges() {
    let canvas = Canvas { width: 100, height: 80 };
    let mut s = SpriteState { ox: 10, oy: 10, dx: 3, dy: -2 };
    assert!(!s.check_bounce(canvas, 20, 20));
    assert_eq!((s.dx, s.dy), (3, -2));
    let mut s = SpriteState { ox: 0, oy: 10, dx: -3, dy: 2 };
    assert!(s.check_bounce(canvas, 20, 20));
    assert_eq!((s.dx, s.dy), (3, 2));
    let mut s = SpriteState { ox: 81, oy: 61, dx: 3, dy: 2 };
    assert!(s.check_bounce(canvas, 20, 20));
    assert_eq!((s.dx, s.dy), (-3, -2));
    // right edge exactly on the canvas boundary is no crossing
    let mut s = SpriteState { ox: 80, oy: 60, dx: 3, dy: 2 };
    assert!(!s.check_bounce(canvas, 20, 20));
    s.advance();
    assert_eq!((s.ox, s.oy), (83, 62));
}

#[test]
fn jitter_adds_one_on_zero_draw() {
    assert_eq!(jitter_drift(5, 0), 6);
    assert_eq!(jitter_drift(-5, 0), -4);
    assert_eq!(jitter_drift(5, 3), 5);
    let mut s = SpriteState { ox: 1, oy: 1, dx: 2, dy: 2 };
    s.jitter_with(0, 8);
    assert_eq!((s.dx, s.dy), (3, 2));
}

#[test]
fn initial_offset_in_range() {
    let canvas = Canvas { width: 30, height: 12 };
    for _ in 0..50 {
        let (x, y) = initial_offset(canvas, 20, 10);
        assert!((0..10).contains(&x));
        assert!((0..2).contains(&y));
    }
}

#[test]
fn field_counter_cycles() {
    let mut f = FieldCounter::new(4);
    let mut seen = Vec::new();
    for _ in 0..7 {
        seen.push(f.current);
        f.advance();
    }
    assert_eq!(seen, vec![1, 2, 3, 1, 2, 3, 1]);
    let mut f = FieldCounter::new(1);
    f.advance();
    assert_eq!(f.current, 1);
}

#[test]
fn frame_pacing() {
    assert_eq!(frame_period_nanos(60), 16_666_666);
    assert_eq!(frame_period_nanos(1), 1_000_000_000);
    assert!(wants_another_pass(5, 6));
    assert!(!wants_another_pass(6, 6));
    assert!(is_slow_frame(1_000_000_001));
    assert!(!is_slow_frame(1_000_000_000));
}

#[test]
fn pool_gives_up_after_five_consecutive_failures() {
    let mut pool = ConnectionPool::new(3);
    let mut attempts = 0;
    let mut outcomes = vec![true, true, false, false, false, false, false].into_iter();
    while pool.wants_connection() {
        attempts += 1;
        pool.record_connect(outcomes.next().expect("no further attempt expected"));
    }
    assert_eq!(attempts, 7);
    assert_eq!(pool.len(), 2);
    assert!(!pool.wants_connection());
}

#[test]
fn pool_failure_streak_resets_on_success() {
    let mut pool = ConnectionPool::new(2);
    for ok in [false, false, false, false, true, false, false, false, false] {
        assert!(pool.wants_connection());
        pool.record_connect(ok);
    }
    assert!(pool.wants_connection());
    pool.record_connect(true);
    assert!(!pool.wants_connection());
    assert_eq!(pool.len(), 2);
}

#[test]
fn pool_cursor_wraps() {
    let mut pool = ConnectionPool::new(3);
    for _ in 0..3 {
        pool.record_connect(true);
    }
    let order: Vec<usize> = (0..7).map(|_| pool.next()).collect();
    assert_eq!(order, vec![0, 1, 2, 0, 1, 2, 0]);
    assert!(ConnectionPool::new(0).is_empty());
}

fn engine(jitter: bool) -> Engine {
    let mut pool = ConnectionPool::new(2);
    pool.record_connect(true);
    pool.record_connect(true);
    let mut pixels = vec![solid(9, 9, 9); 9];
    pixels[0] = hole(0);
    let image = Image { width: 3, height: 3, pixels };
    Engine::new(
        Canvas { width: 20, height: 20 },
        SpriteState { ox: 0, oy: 5, dx: -4, dy: 2 },
        image,
        pool,
        3,
        1,
        jitter,
    )
}

#[test]
fn frame_with_bounce_restyles_and_jitters() {
    let mut e = engine(true);
    assert!(e.begin_frame_with(50, 60, 70, 0, 5));
    assert_eq!((e.sprite.dx, e.sprite.dy), (5, 2));
    // centre keeps the new colour; cells next to the hole or the border turn black
    assert_eq!(e.image.pixels[4], solid(50, 60, 70));
    assert_eq!(e.image.pixels[1], BLACK);
    assert_eq!(e.image.pixels[0], hole(0));
    let cmds = e.pass();
    assert_eq!(cmds.len(), 8);
    assert_eq!(e.field.current, 2);
    e.end_frame();
    assert_eq!((e.sprite.ox, e.sprite.oy), (5, 7));
}

#[test]
fn frame_without_bounce_keeps_image() {
    let mut e = engine(false);
    e.sprite = SpriteState { ox: 5, oy: 5, dx: 1, dy: 1 };
    let before = e.image.pixels.clone();
    assert!(!e.begin_frame_with(50, 60, 70, 0, 0));
    assert_eq!(e.image.pixels, before);
    assert_eq!((e.sprite.dx, e.sprite.dy), (1, 1));
    let first = e.pass();
    let second = e.pass();
    assert_eq!(first.len(), 8);
    // field 2: canvas coordinates 6 only, among 5..=7
    assert_eq!(second.iter().map(|c| (c.x, c.y)).collect::<Vec<_>>(), vec![(6, 6)]);
    assert_eq!(e.field.current, 1);
    e.end_frame();
    assert_eq!((e.sprite.ox, e.sprite.oy), (6, 6));
}

#[test]
fn engine_random_frame_flips_drift() {
    let mut e = engine(false);
    assert!(e.begin_frame());
    assert_eq!((e.sprite.dx, e.sprite.dy), (4, 2));
    e.restyle();
    assert_eq!(e.image.pixels[0], hole(0));
}

fn args(conns: Option<u32>, resize: i16, path: &str) -> PixelflutClientArgs {
    PixelflutClientArgs {
        host: "localhost".to_string(),
        port: 1337,
        resize,
        drift_x: 12,
        drift_y: 9,
        image_path: path.to_string(),
        draw_rate: 60,
        stroke: 4,
        jitter: false,
        conns,
        fields: 1,
    }
}

#[test]
fn args_defaults() {
    assert_eq!(args(Some(8), 350, "").pool_target(), 8);
    assert_eq!(args(None, 350, "").pool_target(), 350);
    assert_eq!(args(None, -2, "").pool_target(), 0);
    assert_eq!(args(None, 350, "").image_path_or_default(), "assets/image.png");
    assert_eq!(args(None, 350, "a.svg").image_path_or_default(), "a.svg");
}
