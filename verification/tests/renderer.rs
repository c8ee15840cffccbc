use niri_dynamic_cursors::renderer::CursorBuffer;

#[test]
fn test_cursor_buffer_creation() {
    let buffer = CursorBuffer::new(32, 32, 16, 16);
    assert_eq!(buffer.width, 32);
    assert_eq!(buffer.height, 32);
    assert_eq!(buffer.data.len(), 32 * 32 * 4);
}

#[test]
fn new_buffer_keeps_hotspot_and_is_clear() {
    let buffer = CursorBuffer::new(3, 2, -1, 7);
    assert_eq!(buffer.hotspot_x, -1);
    assert_eq!(buffer.hotspot_y, 7);
    assert_eq!(buffer.data.len(), 24);
    for y in 0..2 {
        for x in 0..3 {
            assert_eq!(buffer.pixel_at(x, y), [0, 0, 0, 0]);
        }
    }
}

#[test]
fn empty_buffer_has_no_bytes() {
    let buffer = CursorBuffer::new(0, 5, 0, 0);
    assert_eq!(buffer.data.len(), 0);
    assert_eq!(buffer.pixel_at(0, 0), [0, 0, 0, 0]);
}

#[test]
fn set_pixel_writes_row_major_offset() {
    let mut buffer = CursorBuffer::new(32, 32, 16, 16);
    buffer.set_pixel(16, 16, [255, 0, 0, 255]);
    let offset = (16 * 32 + 16) * 4;
    assert_eq!(&buffer.data[offset..offset + 4], &[255, 0, 0, 255]);
    assert_eq!(buffer.pixel_at(16, 16), [255, 0, 0, 255]);
    assert_eq!(buffer.pixel_at(15, 16), [0, 0, 0, 0]);
    assert_eq!(buffer.pixel_at(16, 15), [0, 0, 0, 0]);
    assert_eq!(buffer.data.iter().filter(|b| **b != 0).count(), 2);
}

#[test]
fn set_pixel_outside_changes_nothing() {
    let mut buffer = CursorBuffer::new(4, 4, 0, 0);
    buffer.set_pixel(4, 0, [1, 2, 3, 4]);
    buffer.set_pixel(0, 4, [1, 2, 3, 4]);
    buffer.set_pixel(u32::MAX, u32::MAX, [1, 2, 3, 4]);
    assert!(buffer.data.iter().all(|b| *b == 0));
}

#[test]
fn last_write_wins() {
    let mut buffer = CursorBuffer::new(2, 2, 0, 0);
    buffer.set_pixel(1, 1, [1, 2, 3, 4]);
    buffer.set_pixel(1, 1, [9, 8, 7, 6]);
    buffer.set_pixel(0, 1, [5, 5, 5, 5]);
    assert_eq!(buffer.pixel_at(1, 1), [9, 8, 7, 6]);
    assert_eq!(buffer.pixel_at(0, 1), [5, 5, 5, 5]);
    assert_eq!(buffer.data, vec![0, 0, 0, 0, 0, 0, 0, 0, 5, 5, 5, 5, 9, 8, 7, 6]);
}

#[test]
fn pixel_at_outside_is_clear() {
    let mut buffer = CursorBuffer::new(2, 2, 0, 0);
    buffer.set_pixel(1, 0, [7, 7, 7, 7]);
    assert_eq!(buffer.pixel_at(2, 0), [0, 0, 0, 0]);
    assert_eq!(buffer.pixel_at(1, 2), [0, 0, 0, 0]);
}

#[test]
fn bilinear_corners_clamp_to_last_column_and_row() {
    let mut buffer = CursorBuffer::new(3, 2, 0, 0);
    buffer.set_pixel(0, 0, [1, 0, 0, 0]);
    buffer.set_pixel(1, 0, [2, 0, 0, 0]);
    buffer.set_pixel(2, 0, [3, 0, 0, 0]);
    buffer.set_pixel(0, 1, [4, 0, 0, 0]);
    buffer.set_pixel(1, 1, [5, 0, 0, 0]);
    buffer.set_pixel(2, 1, [6, 0, 0, 0]);
    let (p00, p01, p10, p11) = buffer.bilinear_corners(0, 0);
    assert_eq!((p00[0], p01[0], p10[0], p11[0]), (1, 4, 2, 5));
    // At the last column and row the neighbours are the pixel itself.
    let (p00, p01, p10, p11) = buffer.bilinear_corners(2, 1);
    assert_eq!((p00[0], p01[0], p10[0], p11[0]), (6, 6, 6, 6));
    let (p00, p01, p10, p11) = buffer.bilinear_corners(1, 1);
    assert_eq!((p00[0], p01[0], p10[0], p11[0]), (5, 5, 6, 6));
}

#[test]
fn resample_draws_every_pixel_from_the_sampler() {
    let mut source = CursorBuffer::new(2, 2, 1, 1);
    source.set_pixel(0, 0, [10, 20, 30, 40]);
    source.set_pixel(1, 1, [50, 60, 70, 80]);
    // Mirror horizontally into a wider image; columns past the source stay clear.
    let out = source.resample(3, 2, |x, y| {
        if x < 2 {
            Some(source.pixel_at(1 - x, y))
        } else {
            None
        }
    });
    assert_eq!(out.width, 3);
    assert_eq!(out.height, 2);
    assert_eq!(out.hotspot_x, 1);
    assert_eq!(out.hotspot_y, 1);
    assert_eq!(out.data.len(), 24);
    assert_eq!(out.pixel_at(1, 0), [10, 20, 30, 40]);
    assert_eq!(out.pixel_at(0, 0), [0, 0, 0, 0]);
    assert_eq!(out.pixel_at(0, 1), [50, 60, 70, 80]);
    assert_eq!(out.pixel_at(2, 0), [0, 0, 0, 0]);
    assert_eq!(out.pixel_at(2, 1), [0, 0, 0, 0]);
}

#[test]
fn resample_identity_copies_the_image() {
    let mut source = CursorBuffer::new(4, 3, 2, 1);
    for y in 0..3u32 {
        for x in 0..4u32 {
            source.set_pixel(x, y, [x as u8, y as u8, (x + y) as u8, 255]);
        }
    }
    let out = source.resample(4, 3, |x, y| Some(source.pixel_at(x, y)));
    assert_eq!(out.data, source.data);
}

#[test]
fn pixels_reachable_in_a_buffer_with_extra_or_missing_bytes() {
    // Longer data than the image needs: inside positions are still written.
    let mut longer = CursorBuffer { width: 2, height: 1, hotspot_x: 0, hotspot_y: 0, data: vec![0; 12] };
    longer.set_pixel(1, 0, [1, 2, 3, 4]);
    assert_eq!(longer.pixel_at(1, 0), [1, 2, 3, 4]);
    assert_eq!(&longer.data[8..], &[0, 0, 0, 0]);
    // No data at all: positions outside the image are still answered.
    let mut empty = CursorBuffer { width: 2, height: 2, hotspot_x: 0, hotspot_y: 0, data: Vec::new() };
    assert_eq!(empty.pixel_at(2, 0), [0, 0, 0, 0]);
    empty.set_pixel(0, 5, [9, 9, 9, 9]);
    assert!(empty.data.is_empty());
}
