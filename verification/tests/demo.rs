use vcam_server::demo::{digit_pattern, draw_counter, draw_digit, draw_rect, render_animated_frame, set_pixel};
use vcam_server::video_format::VideoFormat;

fn px(frame: &[u8], width: usize, x: usize, y: usize) -> [u8; 4] {
    let i = (y * width + x) * 4;
    [frame[i], frame[i + 1], frame[i + 2], frame[i + 3]]
}

const WHITE: [u8; 4] = [255, 255, 255, 255];
const BLACK: [u8; 4] = [0, 0, 0, 0];

#[test]
fn digit_glyphs() {
    assert_eq!(digit_pattern('0'), Some([0b111, 0b101, 0b101, 0b101, 0b111]));
    assert_eq!(digit_pattern('1'), Some([0b010, 0b110, 0b010, 0b010, 0b111]));
    assert_eq!(digit_pattern('7'), Some([0b111, 0b001, 0b010, 0b010, 0b010]));
    assert_eq!(digit_pattern('x'), None);
}

#[test]
fn set_pixel_stays_inside_the_frame() {
    let mut frame = vec![0u8; 4 * 4 * 2];
    set_pixel(&mut frame, 16, 3, 1, [1, 2, 3, 4]);
    assert_eq!(px(&frame, 4, 3, 1), [1, 2, 3, 4]);
    set_pixel(&mut frame, 16, 4, 0, [9; 4]);
    set_pixel(&mut frame, 16, 0, 2, [9; 4]);
    assert_eq!(frame.iter().filter(|b| **b == 9).count(), 0);
}

#[test]
fn rectangles_filled_and_outlined() {
    let mut frame = vec![0u8; 6 * 6 * 4];
    draw_rect(&mut frame, 24, 1, 1, 4, 3, WHITE, true);
    assert_eq!(px(&frame, 6, 1, 1), WHITE);
    assert_eq!(px(&frame, 6, 4, 3), WHITE);
    assert_eq!(px(&frame, 6, 2, 2), BLACK);
    assert_eq!(px(&frame, 6, 5, 1), BLACK);
    let mut filled = vec![0u8; 6 * 6 * 4];
    draw_rect(&mut filled, 24, 4, 4, 5, 5, WHITE, false);
    // Clipped at the frame edge.
    assert_eq!(px(&filled, 6, 5, 5), WHITE);
    assert_eq!(px(&filled, 6, 3, 4), BLACK);
}

#[test]
fn digit_drawn_at_scale_two() {
    let mut frame = vec![0u8; 8 * 12 * 4];
    draw_digit(&mut frame, 32, 1, 1, 2, [0b010, 0b110, 0b010, 0b010, 0b111]);
    // Top row of a "1": only the middle column, two pixels wide and high.
    assert_eq!(px(&frame, 8, 3, 1), WHITE);
    assert_eq!(px(&frame, 8, 4, 2), WHITE);
    assert_eq!(px(&frame, 8, 1, 1), BLACK);
    assert_eq!(px(&frame, 8, 5, 1), BLACK);
    // Bottom row: all three columns.
    assert_eq!(px(&frame, 8, 1, 10), WHITE);
    assert_eq!(px(&frame, 8, 6, 9), WHITE);
    assert_eq!(px(&frame, 8, 7, 9), BLACK);
}

#[test]
fn counter_sits_bottom_right() {
    // 64x64: scale 2, one digit 8 pixels wide, at (64 - 24, 64 - 28).
    let mut frame = vec![0u8; 64 * 64 * 4];
    draw_counter(&mut frame, 256, 64, 64, 7);
    assert_eq!(px(&frame, 64, 40, 36), WHITE);
    assert_eq!(px(&frame, 64, 45, 37), WHITE);
    assert_eq!(px(&frame, 64, 40, 38), BLACK);
    assert_eq!(frame.iter().filter(|b| **b == 255).count(), 7 * 4 * 4);
}

#[test]
fn animated_frame_layers() {
    let f = VideoFormat { width: 240, height: 192, fps_num: 10, fps_den: 1 };
    let frame = render_animated_frame(f, 3);
    assert_eq!(frame.len(), 240 * 192 * 4);
    // Background: blue across, green down, red wave, opaque.
    let wave = |x: usize, y: usize| ((3 * 3 + x / 8 + y / 4) & 0xff) as u8;
    assert_eq!(px(&frame, 240, 200, 10), [(200 * 255 / 240) as u8, (10 * 255 / 192) as u8, wave(200, 10), 255]);
    // Centre cross.
    assert_eq!(px(&frame, 240, 120, 5), [16, 16, 16, 255]);
    assert_eq!(px(&frame, 240, 5, 96), [16, 16, 16, 255]);
    // The box: 40x32 at (21, 15), white border and dark inside.
    assert_eq!(px(&frame, 240, 21, 15), [255, 255, 255, 255]);
    assert_eq!(px(&frame, 240, 60, 46), [255, 255, 255, 255]);
    assert_eq!(px(&frame, 240, 30, 25), [32, 32, 32, 255]);
    assert_eq!(px(&frame, 240, 22, 16), {
        let (x, y) = (22usize, 16usize);
        [(x * 255 / 240) as u8, (y * 255 / 192) as u8, wave(x, y), 255]
    });
}

#[test]
fn animated_frame_of_1080p() {
    let frame = render_animated_frame(VideoFormat::default(), 0);
    assert_eq!(frame.len(), 8_294_400);
    assert_eq!(px(&frame, 1920, 960, 0), [16, 16, 16, 255]);
}

#[test]
fn padded_rows_keep_their_padding() {
    // Rows of 6 bytes hold one whole pixel and two padding bytes; the last
    // 4 bytes are not a whole row.
    let mut frame = vec![7u8; 6 * 3 + 4];
    draw_rect(&mut frame, 6, 0, 0, 5, 5, WHITE, false);
    for row in 0..3 {
        assert_eq!(&frame[row * 6..row * 6 + 4], &WHITE);
        assert_eq!(&frame[row * 6 + 4..row * 6 + 6], &[7, 7]);
    }
    assert_eq!(&frame[18..], &[7, 7, 7, 7]);
    set_pixel(&mut frame, 6, 1, 0, [1, 2, 3, 4]);
    assert_eq!(&frame[4..6], &[7, 7]);
}

#[test]
fn animated_frames_are_opaque_and_fixed() {
    let f = VideoFormat { width: 96, height: 64, fps_num: 10, fps_den: 1 };
    for id in [0u64, 1, 41, 12345] {
        let a = render_animated_frame(f, id);
        assert!(a.chunks(4).all(|px| px[3] == 255));
        assert_eq!(a, render_animated_frame(f, id));
    }
}
