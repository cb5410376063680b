use rasterwin::framebuffer::Buffer;

fn pixel(b: &Buffer, x: usize, y: usize) -> [u8; 4] {
    let off = 4 * (x + y * b.width);
    [b.allocation[off], b.allocation[off + 1], b.allocation[off + 2], b.allocation[off + 3]]
}

const WHITE: [u8; 4] = [0xFF, 0xFF, 0xFF, 0xFF];
const BLACK: [u8; 4] = [0, 0, 0, 0];

#[test]
fn new_buffer_is_zeroed() {
    let b = Buffer::new(4, 3);
    assert_eq!(b.width, 4);
    assert_eq!(b.height, 3);
    assert_eq!(b.allocation.len(), 48);
    assert!(b.allocation.iter().all(|&v| v == 0));
}

#[test]
fn clear_zeroes_everything() {
    let mut b = Buffer::new(4, 3);
    b.draw_square(0, 0, 4, 3);
    assert!(b.allocation.iter().any(|&v| v != 0));
    b.clear();
    assert!(b.allocation.iter().all(|&v| v == 0));
}

#[test]
fn clear_is_idempotent() {
    let mut once = Buffer::new(5, 2);
    once.draw_square(1, 0, 2, 2);
    let mut twice = Buffer::new(5, 2);
    twice.draw_square(1, 0, 2, 2);
    once.clear();
    twice.clear();
    twice.clear();
    assert_eq!(once.allocation, twice.allocation);
}

#[test]
fn set_pixel_writes_exactly_one_slot() {
    let mut b = Buffer::new(4, 3);
    b.set_pixel(2, 1);
    for x in 0..4 {
        for y in 0..3 {
            let expect = if (x, y) == (2, 1) { WHITE } else { BLACK };
            assert_eq!(pixel(&b, x, y), expect);
        }
    }
}

#[test]
fn set_pixel_out_of_range_is_a_no_op() {
    let mut b = Buffer::new(4, 3);
    b.draw_square(1, 1, 2, 1);
    let before = b.allocation.clone();
    b.set_pixel(-1, 0);
    b.set_pixel(0, -1);
    b.set_pixel(4, 0);
    b.set_pixel(0, 3);
    b.set_pixel(isize::MIN, isize::MAX);
    assert_eq!(b.allocation, before);
}

#[test]
fn s1_top_left_square() {
    let mut b = Buffer::new(10, 10);
    b.draw_square(0, 0, 3, 3);
    for x in 0..10 {
        for y in 0..10 {
            let expect = if x < 3 && y < 3 { WHITE } else { BLACK };
            assert_eq!(pixel(&b, x, y), expect, "pixel ({}, {})", x, y);
        }
    }
}

#[test]
fn s2_negative_corner_is_clipped() {
    let mut b = Buffer::new(10, 10);
    b.draw_square(-2, -2, 5, 5);
    for x in 0..10 {
        for y in 0..10 {
            let expect = if x < 3 && y < 3 { WHITE } else { BLACK };
            assert_eq!(pixel(&b, x, y), expect, "pixel ({}, {})", x, y);
        }
    }
}

#[test]
fn s3_far_corner_is_clipped() {
    let mut b = Buffer::new(10, 10);
    b.draw_square(8, 8, 5, 5);
    for x in 0..10 {
        for y in 0..10 {
            let expect = if x >= 8 && y >= 8 { WHITE } else { BLACK };
            assert_eq!(pixel(&b, x, y), expect, "pixel ({}, {})", x, y);
        }
    }
}

#[test]
fn inside_rectangle_covers_exactly_w_times_h_pixels() {
    let mut b = Buffer::new(10, 10);
    b.draw_square(2, 3, 4, 5);
    let mut white = 0;
    let mut zero = 0;
    for x in 0..10 {
        for y in 0..10 {
            match pixel(&b, x, y) {
                WHITE => white += 1,
                BLACK => zero += 1,
                other => panic!("mixed pixel {:?} at ({}, {})", other, x, y),
            }
        }
    }
    assert_eq!(white, 4 * 5);
    assert_eq!(zero, 100 - 4 * 5);
}

#[test]
fn clipped_draw_equals_draw_of_intersection() {
    let mut clipped = Buffer::new(10, 10);
    clipped.draw_square(-2, 7, 5, 9);
    let mut exact = Buffer::new(10, 10);
    exact.draw_square(0, 7, 3, 3);
    assert_eq!(clipped.allocation, exact.allocation);
}

#[test]
fn empty_rectangle_draws_nothing() {
    let mut b = Buffer::new(6, 6);
    b.draw_square(2, 2, 0, 4);
    assert!(b.allocation.iter().all(|&v| v == 0));
    b.draw_square(2, 2, 4, 0);
    assert!(b.allocation.iter().all(|&v| v == 0));
}

#[test]
fn zero_sized_buffer() {
    let mut b = Buffer::new(0, 7);
    assert_eq!(b.allocation.len(), 0);
    b.clear();
    b.set_pixel(0, 0);
    b.draw_square(0, 0, 3, 3);
    assert_eq!(b.allocation.len(), 0);
}

#[test]
fn rectangle_fully_outside_leaves_buffer_unchanged() {
    let mut b = Buffer::new(8, 8);
    b.set_pixel(4, 4);
    let before = b.allocation.clone();
    b.draw_square(-20, -20, 5, 5);
    b.draw_square(100, 100, 5, 5);
    assert_eq!(b.allocation, before);
}
