use chip8::display::{cell_color, cell_rect, window_size};
use chip8::framebuffer::FrameBuffer;
use chip8::keypad::Keypad;
use chip8::screen::Screen;

#[test]
fn draw_same_sprite_twice_restores_buffer() {
    let mut fb = FrameBuffer::new();
    fb.toggle_pixel(10, 10);
    let sprite = [0b1010_0000, 0b0100_0000];
    let first = fb.draw_sprite(&sprite, 4, 4);
    assert!(!first);
    assert!(fb.pixel(4, 4));
    assert!(fb.pixel(6, 4));
    assert!(fb.pixel(5, 5));
    assert!(!fb.pixel(5, 4));
    let second = fb.draw_sprite(&sprite, 4, 4);
    assert!(second);
    assert!(fb.pixel(10, 10));
    assert!(!fb.pixel(4, 4));
    assert!(!fb.pixel(6, 4));
    assert!(!fb.pixel(5, 5));
}

#[test]
fn draw_over_lit_pixel_collides() {
    let mut fb = FrameBuffer::new();
    assert!(!fb.toggle_pixel(0, 0));
    assert!(fb.draw_sprite(&[0x80], 0, 0));
    assert!(!fb.pixel(0, 0));
    assert!(!fb.draw_sprite(&[0x80], 0, 0));
    assert!(fb.pixel(0, 0));
}

#[test]
fn draw_wraps_around_both_edges() {
    let mut fb = FrameBuffer::new();
    fb.draw_sprite(&[0xC0, 0xC0], 63, 31);
    assert!(fb.pixel(63, 31));
    assert!(fb.pixel(0, 31));
    assert!(fb.pixel(63, 0));
    assert!(fb.pixel(0, 0));
    let rows = fb.snapshot();
    assert!(rows[0][0]);
    assert!(!rows[0][1]);
    fb.clear();
    assert!(!fb.pixel(0, 0));
}

#[test]
fn screen_converts_to_rgba() {
    let mut grid = [[0u8; 64]; 32];
    grid[1][2] = 0x7F;
    let mut screen = Screen::new();
    let out = screen.convert_buffer(&grid);
    assert_eq!(out.len(), 8192);
    assert_eq!(&out[0..4], &[0xFF, 0xFF, 0xFF, 0]);
    let k = (64 + 2) * 4;
    assert_eq!(&out[k..k + 4], &[0xFF, 0xFF, 0xFF, 0x7F]);
}

#[test]
fn cells_scale_by_ten() {
    assert_eq!(window_size(), (640, 320));
    assert_eq!(cell_rect(3, 2), (30, 20, 10, 10));
    assert_eq!(cell_color(true), (255, 255, 255));
    assert_eq!(cell_color(false), (0, 0, 0));
}

#[test]
fn keypad_tracks_pressed_keys() {
    let mut keypad = Keypad::new();
    assert_eq!(keypad.is_any_key_down_emulator(), (0, false));
    keypad.is_key_down(&[0xC, 3, 42]);
    assert!(keypad.is_key_down_emulator(3));
    assert!(keypad.is_key_down_emulator(0xC));
    assert!(!keypad.is_key_down_emulator(4));
    assert!(!keypad.is_key_down_emulator(42));
    assert_eq!(keypad.is_any_key_down_emulator(), (3, true));
    keypad.is_key_down(&[]);
    assert!(!keypad.is_key_down_emulator(3));
}

#[test]
fn keyboard_layout_maps_labels() {
    assert_eq!(Keypad::key_for_label('X'), Some(0));
    assert_eq!(Keypad::key_for_label('1'), Some(1));
    assert_eq!(Keypad::key_for_label('4'), Some(0xC));
    assert_eq!(Keypad::key_for_label('V'), Some(0xF));
    assert_eq!(Keypad::key_for_label('P'), None);
}
