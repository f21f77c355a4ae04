use tinypixel::{Pixel, PixelBuffer, ScreenPos, ScreenSize, Viewport};

fn px(r: u8, g: u8, b: u8, a: u8) -> Pixel {
    Pixel { r, g, b, a }
}

fn pos(x: u32, y: u32) -> ScreenPos {
    ScreenPos::new(x, y)
}

fn canvas() -> Viewport {
    Viewport::new(pos(2, 2), ScreenSize::new(6, 6))
}

#[test]
fn second_extract_without_draws_is_empty_after_blank_frame() {
    let mut view = canvas();
    assert!(view.pixels().is_empty());
    assert!(view.pixels().is_empty());
}

#[test]
fn third_extract_without_draws_is_empty() {
    let mut view = canvas();
    view.draw_pixel(px(1, 1, 1, 255), pos(0, 0));
    assert_eq!(view.pixels().len(), 1);
    assert_eq!(view.pixels().len(), 1);
    assert!(view.pixels().is_empty());
}

#[test]
fn single_pixel_round_trip() {
    let mut view = canvas();
    let p = px(10, 20, 30, 255);
    view.draw_pixel(p, pos(2, 2));
    assert_eq!(view.pixels(), vec![(p, pos(4, 4))]);
}

#[test]
fn erase_is_reported_after_visible_pixel() {
    let mut view = canvas();
    view.draw_pixel(px(10, 20, 30, 255), pos(2, 2));
    view.pixels();
    assert_eq!(view.pixels(), vec![(Pixel::zero(), pos(4, 4))]);
    assert!(view.pixels().is_empty());
}

#[test]
fn invisible_draw_over_visible_pixel_reports_erased_pixel() {
    let mut view = canvas();
    view.draw_pixel(px(10, 20, 30, 255), pos(1, 0));
    view.pixels();
    view.draw_pixel(px(7, 7, 7, 0), pos(1, 0));
    assert_eq!(view.pixels(), vec![(Pixel::zero(), pos(3, 2))]);
}

#[test]
fn invisible_draw_over_erased_cell_is_not_reported() {
    let mut view = canvas();
    view.draw_pixel(px(7, 7, 7, 0), pos(1, 0));
    assert!(view.pixels().is_empty());
}

#[test]
fn equal_pixels_in_consecutive_frames_are_suppressed() {
    let mut view = canvas();
    let p = px(1, 2, 3, 4);
    view.draw_pixel(p, pos(3, 1));
    assert_eq!(view.pixels(), vec![(p, pos(5, 3))]);
    view.draw_pixel(p, pos(3, 1));
    assert!(view.pixels().is_empty());
}

#[test]
fn changed_color_in_next_frame_is_reported() {
    let mut view = canvas();
    view.draw_pixel(px(1, 2, 3, 4), pos(3, 1));
    view.pixels();
    view.draw_pixel(px(9, 2, 3, 4), pos(3, 1));
    assert_eq!(view.pixels(), vec![(px(9, 2, 3, 4), pos(5, 3))]);
}

#[test]
fn scale_expands_draw_to_block() {
    let mut view = Viewport::new(pos(0, 0), ScreenSize::new(6, 6));
    view.scale(3);
    assert_eq!(view.scale_factor(), 3);
    let p = px(5, 6, 7, 255);
    view.draw_pixel(p, pos(1, 1));
    let mut expected = Vec::new();
    for y in 1..4 {
        for x in 1..4 {
            expected.push((p, pos(x, y)));
        }
    }
    let changes = view.pixels();
    assert_eq!(changes.len(), 9);
    assert_eq!(changes, expected);
}

#[test]
fn scaled_block_is_clipped_at_the_edges() {
    let mut view = Viewport::new(pos(0, 0), ScreenSize::new(6, 6));
    view.scale(3);
    let p = px(5, 6, 7, 255);
    view.draw_pixel(p, pos(4, 5));
    assert_eq!(view.pixels(), vec![(p, pos(4, 5)), (p, pos(5, 5))]);
}

#[test]
fn draw_outside_canvas_is_dropped() {
    let mut view = canvas();
    view.draw_pixel(px(1, 1, 1, 1), pos(6, 0));
    view.draw_pixel(px(1, 1, 1, 1), pos(0, 6));
    view.draw_pixel(px(1, 1, 1, 1), pos(u32::MAX, u32::MAX));
    assert!(view.pixels().is_empty());
}

#[test]
fn zero_scale_draws_nothing() {
    let mut view = canvas();
    view.scale(0);
    view.draw_pixel(px(1, 1, 1, 1), pos(0, 0));
    assert!(view.pixels().is_empty());
}

#[test]
fn resize_discards_content() {
    let mut view = canvas();
    view.draw_pixel(px(1, 1, 1, 255), pos(0, 0));
    view.resize(ScreenSize::new(4, 5));
    assert!(view.pixels().is_empty());
    assert_eq!(view.buffer().len(), 20);
    assert_eq!(view.size(), ScreenSize::new(4, 5));
    assert_eq!(view.position(), pos(2, 2));
}

#[test]
fn changes_come_in_row_major_order() {
    let mut view = Viewport::new(pos(0, 0), ScreenSize::new(6, 6));
    let a = px(1, 0, 0, 255);
    let b = px(2, 0, 0, 255);
    view.draw_pixel(b, pos(0, 1));
    view.draw_pixel(a, pos(5, 0));
    assert_eq!(view.pixels(), vec![(a, pos(5, 0)), (b, pos(0, 1))]);
}

#[test]
fn draw_pixels_later_entries_win() {
    let mut view = canvas();
    let a = px(1, 0, 0, 255);
    let b = px(2, 0, 0, 255);
    view.draw_pixels(vec![(a, pos(1, 1)), (b, pos(1, 1)), (a, pos(0, 0))]);
    assert_eq!(view.pixels(), vec![(a, pos(2, 2)), (b, pos(3, 3))]);
}

#[test]
fn fill_reports_every_cell() {
    let mut view = Viewport::new(pos(1, 0), ScreenSize::new(2, 2));
    let p = px(3, 3, 3, 3);
    view.fill(p);
    assert_eq!(
        view.pixels(),
        vec![(p, pos(1, 0)), (p, pos(2, 0)), (p, pos(1, 1)), (p, pos(2, 1))]
    );
}

#[test]
fn new_canvas_is_blank_with_unit_scale() {
    let view = canvas();
    assert_eq!(view.scale_factor(), 1);
    assert_eq!(view.buffer().len(), 36);
    assert_eq!(view.buffer().get(35), Pixel::zero());
}

#[test]
fn empty_canvas_reports_nothing() {
    let mut view = Viewport::new(pos(0, 0), ScreenSize::new(0, 3));
    view.draw_pixel(px(1, 1, 1, 1), pos(0, 0));
    assert!(view.pixels().is_empty());
}

#[test]
fn buffer_bytes_are_channels_in_order() {
    let buf = PixelBuffer::new(2, px(1, 2, 3, 4));
    assert_eq!(buf.to_bytes(), vec![1, 2, 3, 4, 1, 2, 3, 4]);
    assert!(PixelBuffer::empty(0).to_bytes().is_empty());
}

#[test]
fn buffer_set_fill_and_zero() {
    let mut buf = PixelBuffer::empty(3);
    assert_eq!(buf.len(), 3);
    assert_eq!(buf.get(1), Pixel::zero());
    buf.set_pixel(1, px(9, 8, 7, 6));
    assert_eq!(buf.to_bytes(), vec![0, 0, 0, 0, 9, 8, 7, 6, 0, 0, 0, 0]);
    buf.fill(px(1, 1, 1, 1));
    assert_eq!(buf.get(0), px(1, 1, 1, 1));
    assert_eq!(buf.get(2), px(1, 1, 1, 1));
    buf.zero();
    assert_eq!(buf.to_bytes(), vec![0; 12]);
}

#[test]
fn write_changes_places_pixels_by_row() {
    let mut buf = PixelBuffer::empty(4);
    let p = px(4, 3, 2, 1);
    let q = px(5, 5, 5, 5);
    buf.write_changes(2, &vec![(p, pos(1, 1)), (q, pos(0, 2)), (q, pos(0, 1))]);
    assert_eq!(buf.get(3), p);
    assert_eq!(buf.get(2), q);
    assert_eq!(buf.get(0), Pixel::zero());
    assert_eq!(buf.get(1), Pixel::zero());
}
