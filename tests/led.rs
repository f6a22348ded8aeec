use door_server::led::{LATCH_LEN, RING_LEN};
use door_server::{closed_to_color, encode, Quadrant, Rgb, RgbRing};

const CLOSED: Rgb = Rgb { r: 0x00, g: 0x0f, b: 0x01 };
const OPEN: Rgb = Rgb { r: 0x14, g: 0x00, b: 0x00 };

fn channel(frame: &[u8], pixel: usize, channel: usize) -> &[u8] {
    let start = 1 + 12 * pixel + 4 * channel;
    &frame[start..start + 4]
}

#[test]
fn closed_color_frame_has_uniform_channel_groups() {
    let frame = encode(&vec![CLOSED; 12]);
    assert_eq!(frame.len(), 1 + 12 * 3 * 4 + 20);
    for pixel in 0..12 {
        assert_eq!(channel(&frame, pixel, 0), &[0x88, 0x88, 0xEE, 0xEE]);
        assert_eq!(channel(&frame, pixel, 1), &[0x88, 0x88, 0x88, 0x88]);
        assert_eq!(channel(&frame, pixel, 2), &[0x88, 0x88, 0x88, 0x8E]);
        assert_ne!(channel(&frame, pixel, 0), channel(&frame, pixel, 1));
        assert_ne!(channel(&frame, pixel, 0), channel(&frame, pixel, 2));
    }
}

#[test]
fn frame_is_framed_by_zero_bytes() {
    let colors: Vec<Rgb> = (0..12u8).map(|i| Rgb { r: i, g: 0xff - i, b: i * 7 }).collect();
    let frame = encode(&colors);
    assert_eq!(frame.len(), 165);
    assert_eq!(frame[0], 0);
    assert!(frame[145..].iter().all(|b| *b == 0));
    assert!(frame[1..145].iter().all(|b| *b != 0));
}

#[test]
fn channels_go_green_red_blue() {
    let frame = encode(&vec![Rgb { r: 0xff, g: 0x00, b: 0xa5 }]);
    assert_eq!(
        frame[1..13].to_vec(),
        vec![0x88, 0x88, 0x88, 0x88, 0xEE, 0xEE, 0xEE, 0xEE, 0xE8, 0xE8, 0x8E, 0x8E]
    );
}

#[test]
fn bit_patterns_are_long_and_short_highs() {
    let frame = encode(&vec![Rgb { r: 0b0110_1001, g: 0b1000_0001, b: 0b0100_0010 }]);
    assert_eq!(channel(&frame, 0, 0), &[0xE8, 0x88, 0x88, 0x8E]);
    assert_eq!(channel(&frame, 0, 1), &[0x8E, 0xE8, 0xE8, 0x8E]);
    assert_eq!(channel(&frame, 0, 2), &[0x8E, 0x88, 0x88, 0xE8]);
}

#[test]
fn empty_buffer_gives_idle_and_latch_only() {
    let frame = encode(&Vec::new());
    assert_eq!(frame, vec![0u8; 1 + LATCH_LEN]);
}

#[test]
fn new_ring_renders_dark() {
    let ring = RgbRing::new();
    assert_eq!(ring.render(), encode(&vec![Rgb { r: 0, g: 0, b: 0 }; RING_LEN]));
}

#[test]
fn set_quadrant_then_render_matches_direct_buffer() {
    let mut ring = RgbRing::new();
    ring.set_top_right(CLOSED);
    ring.set_bottom_left(Rgb { r: 1, g: 1, b: 1 });
    ring.set_quadrant(Quadrant::TopLeft, OPEN);
    let black = Rgb { r: 0, g: 0, b: 0 };
    let mut direct = vec![CLOSED, CLOSED, CLOSED, black, black, black];
    direct.extend(vec![Rgb { r: 1, g: 1, b: 1 }; 3]);
    direct.extend(vec![OPEN; 3]);
    assert_eq!(ring.render(), encode(&direct));
}

#[test]
fn later_quadrant_color_replaces_earlier() {
    let mut ring = RgbRing::new();
    ring.set_bottom_right(OPEN);
    ring.set_bottom_right(CLOSED);
    ring.set_top_left(CLOSED);
    let black = Rgb { r: 0, g: 0, b: 0 };
    let direct = vec![black, black, black, CLOSED, CLOSED, CLOSED, black, black, black, CLOSED, CLOSED, CLOSED];
    assert_eq!(ring.render(), encode(&direct));
}

#[test]
fn door_state_colors() {
    assert_eq!(closed_to_color(true), CLOSED);
    assert_eq!(closed_to_color(false), OPEN);
}
