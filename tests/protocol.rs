use pixelflut_client::dispatch::{dispatch_pass, Canvas, PxCommand};
use pixelflut_client::image::{Image, Rgba};
use pixelflut_client::pool::ConnectionPool;
use pixelflut_client::size::{parse_decimal, parse_size, size_request_bytes, token_spans, SizeError};

fn pool_of(n: usize) -> ConnectionPool {
    let mut pool = ConnectionPool::new(n);
    for _ in 0..n {
        pool.record_connect(true);
    }
    pool
}

fn solid(r: u8, g: u8, b: u8) -> Rgba {
    Rgba { r, g, b, a: 255 }
}

fn hole() -> Rgba {
    Rgba { r: 9, g: 9, b: 9, a: 240 }
}

#[test]
fn size_reply_gives_canvas() {
    assert_eq!(parse_size(b"SIZE 800 600\n"), Ok(Canvas { width: 800, height: 600 }));
}

#[test]
fn size_reply_with_runs_of_whitespace() {
    assert_eq!(parse_size(b"  SIZE\t1920  1080\r\n"), Ok(Canvas { width: 1920, height: 1080 }));
}

#[test]
fn size_reply_too_short() {
    assert_eq!(parse_size(b"SIZE 800\n"), Err(SizeError::TooFewTokens));
    assert_eq!(parse_size(b""), Err(SizeError::TooFewTokens));
}

#[test]
fn size_reply_bad_numbers() {
    assert_eq!(parse_size(b"SIZE 8x0 600\n"), Err(SizeError::BadWidth));
    assert_eq!(parse_size(b"SIZE 800 -600\n"), Err(SizeError::BadHeight));
    assert_eq!(parse_size(b"SIZE 4294967296 600\n"), Err(SizeError::BadWidth));
    assert_eq!(parse_size(b"SIZE 4294967295 0\n"), Ok(Canvas { width: 4294967295, height: 0 }));
}

#[test]
fn size_reply_not_text() {
    assert_eq!(parse_size(&[83, 0xff, 32, 49, 32, 50]), Err(SizeError::NotText));
}

#[test]
fn size_request_is_literal() {
    assert_eq!(size_request_bytes(), b"SIZE\n".to_vec());
}

#[test]
fn spans_and_decimals() {
    assert_eq!(token_spans(b" ab  c\n"), vec![(1, 3), (5, 6)]);
    assert_eq!(parse_decimal(b"x0123y", 1, 5), Some(123));
    assert_eq!(parse_decimal(b"12", 1, 1), None);
}

#[test]
fn encode_px_command() {
    let cmd = PxCommand { conn: 0, x: 10, y: 205, r: 0x0a, g: 0xff, b: 0 };
    assert_eq!(cmd.encode(), b"PX 10 205 0AFF00\n".to_vec());
    let cmd = PxCommand { conn: 3, x: 0, y: 7, r: 0xab, g: 0x1c, b: 0x90 };
    assert_eq!(String::from_utf8(cmd.encode()).unwrap(), "PX 0 7 AB1C90\n");
}

fn checker(w: u32, h: u32) -> Image {
    // solid where (x + y) is even, holes elsewhere
    let mut pixels = Vec::new();
    for y in 0..h {
        for x in 0..w {
            if (x + y) % 2 == 0 {
                pixels.push(solid(x as u8, y as u8, 7));
            } else {
                pixels.push(hole());
            }
        }
    }
    Image { width: w, height: h, pixels }
}

#[test]
fn holes_are_never_sent() {
    let img = checker(6, 5);
    let canvas = Canvas { width: 100, height: 100 };
    for field in 1..4u32 {
        for (ox, oy) in [(0i64, 0i64), (3, 8), (-2, 1), (1, -1)] {
            let mut pool = pool_of(2);
            let cmds = dispatch_pass(&img, canvas, ox, oy, field, &mut pool);
            for c in &cmds {
                let px = c.x as i64 - ox;
                let py = c.y as i64 - oy;
                assert!(px >= 0 && py >= 0 && px < 6 && py < 5);
                assert_eq!((px + py) % 2, 0, "hole at {} {} was sent", px, py);
            }
        }
    }
}

#[test]
fn field_two_draws_even_coordinates_only() {
    let img = Image { width: 4, height: 4, pixels: vec![solid(1, 2, 3); 16] };
    let canvas = Canvas { width: 50, height: 50 };
    let mut pool = pool_of(1);
    let cmds = dispatch_pass(&img, canvas, 5, 6, 2, &mut pool);
    let coords: Vec<(u64, u64)> = cmds.iter().map(|c| (c.x, c.y)).collect();
    assert_eq!(coords, vec![(6, 6), (8, 6), (6, 8), (8, 8)]);
}

#[test]
fn pass_skips_off_canvas_and_keeps_row_major_order() {
    let img = Image { width: 3, height: 2, pixels: vec![solid(5, 5, 5); 6] };
    // canvas 1 x 0: columns 0..=1 and row 0 are drawn
    let canvas = Canvas { width: 1, height: 0 };
    let mut pool = pool_of(3);
    let cmds = dispatch_pass(&img, canvas, -1, 0, 1, &mut pool);
    let got: Vec<(usize, u64, u64)> = cmds.iter().map(|c| (c.conn, c.x, c.y)).collect();
    assert_eq!(got, vec![(0, 0, 0), (1, 1, 0)]);
    assert_eq!(pool.cursor, 2);
}

#[test]
fn round_robin_is_balanced() {
    let img = Image { width: 7, height: 1, pixels: vec![solid(1, 1, 1); 7] };
    let canvas = Canvas { width: 100, height: 100 };
    let mut pool = pool_of(3);
    pool.next();
    let cmds = dispatch_pass(&img, canvas, 1, 1, 1, &mut pool);
    assert_eq!(cmds.len(), 7);
    let mut counts = [0usize; 3];
    for (j, c) in cmds.iter().enumerate() {
        assert_eq!(c.conn, (1 + j) % 3);
        counts[c.conn] += 1;
    }
    for n in counts {
        assert!(n == 2 || n == 3);
    }
    assert_eq!(counts.iter().sum::<usize>(), 7);
    // per-connection order follows the row-major order of the pixels
    for k in 0..3 {
        let xs: Vec<u64> = cmds.iter().filter(|c| c.conn == k).map(|c| c.x).collect();
        let mut sorted = xs.clone();
        sorted.sort();
        assert_eq!(xs, sorted);
    }
    assert_eq!(pool.cursor, (1 + 7) % 3);
}

#[test]
fn pass_sends_pixel_colours() {
    let img = Image { width: 2, height: 1, pixels: vec![solid(0x12, 0x34, 0x56), hole()] };
    let mut pool = pool_of(1);
    let cmds = dispatch_pass(&img, Canvas { width: 10, height: 10 }, 2, 3, 1, &mut pool);
    assert_eq!(cmds, vec![PxCommand { conn: 0, x: 2, y: 3, r: 0x12, g: 0x34, b: 0x56 }]);
    assert_eq!(cmds[0].encode(), b"PX 2 3 123456\n".to_vec());
}
