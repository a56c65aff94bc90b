use epd42::FrameBuffer;

const BLACK: u8 = 0x00;
const WHITE: u8 = 0x01;

#[test]
fn new_buffer_is_white_and_sized() {
    let fb = FrameBuffer::new(8, 8);
    assert_eq!(fb.buffer(), &[0xFF; 8]);
    let fb = FrameBuffer::new(400, 300);
    assert_eq!(fb.buffer().len(), 400 * 300 / 8);
    assert!(fb.buffer().iter().all(|&b| b == 0xFF));
}

#[test]
fn buffer_len_stays_width_height_over_8() {
    let mut fb = FrameBuffer::new(16, 8);
    assert_eq!(fb.buffer().len(), 16 * 8 / 8);
    fb.fill(BLACK);
    fb.pixel(3, 3, WHITE);
    fb.hline(0, 0, 16, WHITE);
    fb.vline(5, 0, 8, BLACK);
    fb.line(0, 0, 15, 7, WHITE);
    fb.rect(1, 1, 4, 4, BLACK);
    fb.fill_rect(2, 2, 3, 3, WHITE);
    fb.text("ok", 0, 0, BLACK);
    assert_eq!(fb.buffer().len(), 16 * 8 / 8);
}

#[test]
fn fill_white_sets_all_ones_fill_black_sets_all_zeros() {
    let mut fb = FrameBuffer::new(8, 8);
    fb.fill(WHITE);
    assert_eq!(fb.buffer(), &[0xFF; 8]);
    fb.fill(BLACK);
    assert_eq!(fb.buffer(), &[0x00; 8]);
    fb.fill(WHITE);
    assert_eq!(fb.buffer(), &[0xFF; 8]);
}

#[test]
fn pixel_sets_exactly_one_bit() {
    let mut fb = FrameBuffer::new(16, 8);
    fb.fill(WHITE);
    fb.pixel(9, 2, BLACK);
    // bit 9 + 2*16 = 41: byte 5, mask 0x80 >> 1
    for (i, &b) in fb.buffer().iter().enumerate() {
        if i == 5 {
            assert_eq!(b, 0xFF & !0x40);
        } else {
            assert_eq!(b, 0xFF);
        }
    }
    fb.pixel(9, 2, WHITE);
    assert!(fb.buffer().iter().all(|&b| b == 0xFF));
}

#[test]
fn pixel_out_of_bounds_is_ignored() {
    let mut fb = FrameBuffer::new(16, 8);
    fb.fill(WHITE);
    fb.pixel(16, 0, BLACK);
    fb.pixel(0, 8, BLACK);
    fb.pixel(u32::MAX, u32::MAX, BLACK);
    assert!(fb.buffer().iter().all(|&b| b == 0xFF));
}

#[test]
fn eight_by_eight_scenario() {
    let mut fb = FrameBuffer::new(8, 8);
    fb.fill(WHITE);
    assert!(fb.buffer().iter().all(|&b| b == 0xFF));
    fb.pixel(0, 0, BLACK);
    assert_eq!(fb.buffer()[0], 0x7F);
    assert!(fb.buffer()[1..].iter().all(|&b| b == 0xFF));
}

#[test]
fn hline_blacks_out_a_full_row() {
    let mut fb = FrameBuffer::new(8, 1);
    fb.fill(WHITE);
    assert_eq!(fb.buffer(), &[0xFF]);
    fb.hline(0, 0, 8, BLACK);
    assert_eq!(fb.buffer(), &[0x00]);
}

#[test]
fn hline_clips_at_the_right_edge() {
    let mut fb = FrameBuffer::new(8, 2);
    fb.fill(WHITE);
    fb.hline(6, 0, 100, BLACK);
    assert_eq!(fb.buffer(), &[0xFC, 0xFF]);
}

#[test]
fn vline_blacks_out_a_full_column() {
    let mut fb = FrameBuffer::new(8, 8);
    fb.fill(WHITE);
    fb.vline(0, 0, 8, BLACK);
    assert_eq!(fb.buffer(), &[0x7F; 8]);
}

#[test]
fn rect_draws_only_the_border() {
    let mut fb = FrameBuffer::new(8, 8);
    fb.fill(WHITE);
    fb.rect(0, 0, 8, 8, BLACK);
    assert_eq!(
        fb.buffer(),
        &[0x00, 0x7E, 0x7E, 0x7E, 0x7E, 0x7E, 0x7E, 0x00]
    );
}

#[test]
fn fill_rect_fills_the_whole_box() {
    let mut fb = FrameBuffer::new(8, 8);
    fb.fill(WHITE);
    fb.fill_rect(2, 2, 4, 4, BLACK);
    assert_eq!(
        fb.buffer(),
        &[0xFF, 0xFF, 0xC3, 0xC3, 0xC3, 0xC3, 0xFF, 0xFF]
    );
}

#[test]
fn line_plots_the_exact_diagonal() {
    let mut fb = FrameBuffer::new(8, 8);
    fb.fill(WHITE);
    fb.line(0, 0, 2, 2, BLACK);
    assert_eq!(
        fb.buffer(),
        &[0x7F, 0xBF, 0xDF, 0xFF, 0xFF, 0xFF, 0xFF, 0xFF]
    );
}

#[test]
fn line_skips_negative_coordinates() {
    let mut fb = FrameBuffer::new(8, 8);
    fb.fill(WHITE);
    fb.line(-2, -2, 2, 2, BLACK);
    assert_eq!(
        fb.buffer(),
        &[0x7F, 0xBF, 0xDF, 0xFF, 0xFF, 0xFF, 0xFF, 0xFF]
    );
}

#[test]
fn line_direction_independent_on_axes_and_diagonals() {
    let segments: [(i32, i32, i32, i32); 3] = [(1, 2, 6, 2), (3, 0, 3, 7), (0, 0, 7, 7)];
    for &(x0, y0, x1, y1) in segments.iter() {
        let mut fwd = FrameBuffer::new(8, 8);
        fwd.fill(WHITE);
        fwd.line(x0, y0, x1, y1, BLACK);
        let mut bwd = FrameBuffer::new(8, 8);
        bwd.fill(WHITE);
        bwd.line(x1, y1, x0, y0, BLACK);
        assert_eq!(fwd.buffer(), bwd.buffer());
    }
}

#[test]
fn text_renders_the_exclamation_glyph() {
    let mut fb = FrameBuffer::new(8, 8);
    fb.fill(WHITE);
    fb.text("!", 0, 0, BLACK);
    let glyph: [u8; 8] = [0x20, 0x20, 0x20, 0x20, 0x20, 0x00, 0x20, 0x00];
    let expected: Vec<u8> = glyph.iter().map(|&row| !row).collect();
    assert_eq!(fb.buffer(), expected.as_slice());
}

#[test]
fn text_out_of_range_chars_plot_nothing_but_advance() {
    // a code point above the printable range paints no pixels
    let mut blank = FrameBuffer::new(24, 8);
    blank.fill(WHITE);
    blank.text("\u{00e9}", 0, 0, BLACK);
    assert!(blank.buffer().iter().all(|&b| b == 0xFF));

    // a control character below 32 paints no pixels either
    let mut ctrl = FrameBuffer::new(24, 8);
    ctrl.fill(WHITE);
    ctrl.text("\u{0007}", 0, 0, BLACK);
    assert!(ctrl.buffer().iter().all(|&b| b == 0xFF));

    // but both still advance the cursor by 8 pixels
    let mut skipped = FrameBuffer::new(24, 8);
    skipped.fill(WHITE);
    skipped.text("\u{00e9}A", 0, 0, BLACK);
    let mut shifted = FrameBuffer::new(24, 8);
    shifted.fill(WHITE);
    shifted.text("A", 8, 0, BLACK);
    assert_eq!(skipped.buffer(), shifted.buffer());
    assert_ne!(skipped.buffer(), blank.buffer());
}

#[test]
fn zero_length_runs_draw_nothing() {
    let mut fb = FrameBuffer::new(8, 8);
    fb.fill(WHITE);
    fb.hline(2, 2, 0, BLACK);
    fb.vline(2, 2, 0, BLACK);
    fb.fill_rect(2, 2, 0, 5, BLACK);
    fb.fill_rect(2, 2, 5, 0, BLACK);
    assert_eq!(fb.buffer(), &[0xFF; 8]);
}

#[test]
fn single_point_line_plots_one_pixel() {
    let mut fb = FrameBuffer::new(8, 8);
    fb.fill(WHITE);
    fb.line(3, 3, 3, 3, BLACK);
    assert_eq!(
        fb.buffer(),
        &[0xFF, 0xFF, 0xFF, 0xEF, 0xFF, 0xFF, 0xFF, 0xFF]
    );
}

#[test]
fn text_empty_string_draws_nothing() {
    let mut fb = FrameBuffer::new(8, 8);
    fb.fill(WHITE);
    fb.text("", 0, 0, BLACK);
    assert_eq!(fb.buffer(), &[0xFF; 8]);
}
