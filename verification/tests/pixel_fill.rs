use weezterm::pixel_fill::{fill_rect, fill_row_stripe, fill_solid};

const RGBA: (u8, u8, u8, u8) = (10, 20, 30, 40);

fn pixel(buf: &[u8], stride: usize, x: usize, y: usize) -> [u8; 4] {
    let o = y * stride + x * 4;
    [buf[o], buf[o + 1], buf[o + 2], buf[o + 3]]
}

#[test]
fn solid_fill_writes_bgra_with_opaque_alpha() {
    // 3x2 pixels plus a trailing partial row that stays untouched.
    let mut buf = vec![0u8; 3 * 4 * 2 + 5];
    fill_solid(&mut buf, 12, RGBA);
    for y in 0..2 {
        for x in 0..3 {
            assert_eq!(pixel(&buf, 12, x, y), [30, 20, 10, 0xff]);
        }
    }
    assert!(buf[24..].iter().all(|b| *b == 0));
}

#[test]
fn row_stripe_is_clipped_to_the_buffer() {
    let mut buf = vec![0u8; 2 * 4 * 4];
    fill_row_stripe(&mut buf, 8, 2, 10, RGBA);
    assert_eq!(pixel(&buf, 8, 0, 1), [0, 0, 0, 0]);
    assert_eq!(pixel(&buf, 8, 1, 2), [30, 20, 10, 0xff]);
    assert_eq!(pixel(&buf, 8, 0, 3), [30, 20, 10, 0xff]);
}

#[test]
fn rect_fill_touches_only_the_rect() {
    let mut buf = vec![7u8; 4 * 4 * 4];
    fill_rect(&mut buf, 16, 1, 1, 2, 2, RGBA);
    assert_eq!(pixel(&buf, 16, 0, 0), [7, 7, 7, 7]);
    assert_eq!(pixel(&buf, 16, 1, 1), [30, 20, 10, 0xff]);
    assert_eq!(pixel(&buf, 16, 2, 2), [30, 20, 10, 0xff]);
    assert_eq!(pixel(&buf, 16, 3, 2), [7, 7, 7, 7]);
    assert_eq!(pixel(&buf, 16, 1, 3), [7, 7, 7, 7]);
    let before = buf.clone();
    fill_rect(&mut buf, 16, 4, 0, 3, 3, RGBA);
    assert_eq!(buf, before);
    fill_rect(&mut buf, 16, 3, 3, 10, 10, RGBA);
    assert_eq!(pixel(&buf, 16, 3, 3), [30, 20, 10, 0xff]);
}
