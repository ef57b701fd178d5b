use echo_lab::screen_buffer::ScreenBuffer;

#[test]
fn screen_buffer_has_expected_dimensions_and_size() {
    let buffer = ScreenBuffer::new(560, 192);
    assert_eq!(buffer.dimensions(), (560, 192));
    assert_eq!(buffer.pixels().len(), 560 * 192);
}

#[test]
fn set_and_get_pixel_with_bounds_checking() {
    let mut buffer = ScreenBuffer::new(4, 3);

    assert!(buffer.set_pixel(2, 1, 0xff00_ff00));
    assert_eq!(buffer.get_pixel(2, 1), Some(0xff00_ff00));

    assert!(!buffer.set_pixel(4, 1, 0x1234_5678));
    assert_eq!(buffer.get_pixel(4, 1), None);
    assert_eq!(buffer.get_pixel(0, 3), None);
}

#[test]
fn clear_fills_entire_surface() {
    let mut buffer = ScreenBuffer::new(3, 2);
    buffer.set_pixel(1, 1, 0x0102_0304);

    buffer.clear(0xaabb_ccdd);
    assert!(buffer.pixels().iter().all(|p| *p == 0xaabb_ccdd));
}

#[test]
fn publish_frame_monotonically_increments_frame_id() {
    let mut buffer = ScreenBuffer::new(2, 2);
    assert_eq!(buffer.frame_id(), 0);

    assert_eq!(buffer.publish_frame(), 1);
    assert_eq!(buffer.publish_frame(), 2);
    assert_eq!(buffer.frame_id(), 2);
}

#[test]
fn new_buffer_starts_with_zero_pixels() {
    let buffer = ScreenBuffer::new(3, 2);
    assert_eq!(buffer.width(), 3);
    assert_eq!(buffer.height(), 2);
    assert!(buffer.pixels().iter().all(|p| *p == 0));
}

#[test]
fn set_pixel_out_of_bounds_leaves_every_pixel_unchanged() {
    let mut buffer = ScreenBuffer::new(3, 2);
    buffer.clear(0x1111_1111);
    let before = buffer.pixels().to_vec();
    assert!(!buffer.set_pixel(3, 0, 0xdead_beef));
    assert!(!buffer.set_pixel(0, 2, 0xdead_beef));
    assert!(!buffer.set_pixel(usize::MAX, usize::MAX, 0xdead_beef));
    assert_eq!(buffer.pixels(), before.as_slice());
}

#[test]
fn set_pixel_writes_row_major_index() {
    let mut buffer = ScreenBuffer::new(4, 3);
    assert!(buffer.set_pixel(3, 2, 7));
    assert_eq!(buffer.pixels()[2 * 4 + 3], 7);
    assert_eq!(buffer.pixels().iter().filter(|p| **p == 7).count(), 1);
}

#[test]
fn publish_frame_wraps_at_the_largest_count() {
    let mut buffer = ScreenBuffer::new(1, 1);
    let mut expected = 0u64;
    for _ in 0..3 {
        expected = expected.wrapping_add(1);
        assert_eq!(buffer.publish_frame(), expected);
    }
    assert_eq!(buffer.frame_id(), 3);
}

#[test]
fn pixels_mut_writes_through() {
    let mut buffer = ScreenBuffer::new(2, 1);
    buffer.pixels_mut()[1] = 9;
    assert_eq!(buffer.get_pixel(1, 0), Some(9));
    assert_eq!(buffer.dimensions(), (2, 1));
}

#[test]
fn ppm_bytes_hold_header_and_pixels() {
    let mut buffer = ScreenBuffer::new(2, 1);
    assert!(buffer.set_pixel(0, 0, 0xffff_0000));
    assert!(buffer.set_pixel(1, 0, 0xff00_ff00));

    let bytes = buffer.ppm_bytes();
    let header = b"P6\n2 1\n255\n";
    assert!(bytes.starts_with(header));
    assert_eq!(&bytes[header.len()..], &[255, 0, 0, 0, 255, 0]);
}

#[test]
fn ppm_bytes_write_multi_digit_dimensions() {
    let buffer = ScreenBuffer::new(560, 384);
    let bytes = buffer.ppm_bytes();
    let header = b"P6\n560 384\n255\n";
    assert!(bytes.starts_with(header));
    assert_eq!(bytes.len(), header.len() + 560 * 384 * 3);
}
