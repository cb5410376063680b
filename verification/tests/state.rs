use rasterwin::framebuffer::Buffer;
use rasterwin::pointer::SCREEN_HEIGHT;
use rasterwin::pointer::to_window_local;
use rasterwin::state::AppState;
use rasterwin::state::Input;
use rasterwin::state::WindowState;
use rasterwin::state::RECT_HEIGHT;
use rasterwin::state::RECT_WIDTH;

const WHITE: [u8; 4] = [0xFF, 0xFF, 0xFF, 0xFF];
const BLACK: [u8; 4] = [0, 0, 0, 0];

fn pixel(b: &Buffer, x: usize, y: usize) -> [u8; 4] {
    let off = 4 * (x + y * b.width);
    [b.allocation[off], b.allocation[off + 1], b.allocation[off + 2], b.allocation[off + 3]]
}

#[test]
fn screen_height_constant() {
    assert_eq!(SCREEN_HEIGHT, 1280);
}

#[test]
fn rectangle_constants() {
    assert_eq!(RECT_WIDTH, 100);
    assert_eq!(RECT_HEIGHT, 150);
}

#[test]
fn pointer_translation() {
    assert_eq!(to_window_local(150, 250, 100), (50, 1030));
    assert_eq!(to_window_local(0, 0, 0), (0, 1280));
    assert_eq!(to_window_local(700, 600, 600), (100, 680));
}

#[test]
fn pointer_translation_round_trip() {
    for &(sx, sy, ox) in &[(150, 250, 100), (0, 1280, -40), (-5, 7, 3), (600, 600, 600)] {
        let (tx, ty) = to_window_local(sx, sy, ox);
        assert_eq!((tx + ox, SCREEN_HEIGHT - ty), (sx, sy));
    }
}

#[test]
fn initial_state() {
    let s = AppState::new();
    assert_eq!(s.window.origin, (600, 600));
    assert_eq!(s.window.size, (500, 500));
    assert_eq!(s.pointer, (0, 0));
    assert!(s.running);
}

#[test]
fn s4_event_stream() {
    let mut s = AppState {
        window: WindowState { origin: (100, 200), size: (500, 500) },
        pointer: (0, 0),
        running: true,
    };
    s.handle_event(Input::DidResize { width: 640, height: 480 });
    s.handle_event(Input::DidMove { x: 100, y: 200 });
    s.handle_event(Input::PointerMoved { screen_x: 150, screen_y: 250 });
    s.handle_event(Input::WillClose);
    assert_eq!(s.window.origin, (100, 200));
    assert_eq!(s.window.size, (640, 480));
    assert_eq!(s.pointer, (50, 1030));
    assert!(!s.running);
}

#[test]
fn will_close_is_final() {
    let mut s = AppState::new();
    s.handle_event(Input::WillClose);
    assert!(!s.running);
    s.handle_event(Input::PointerMoved { screen_x: 10, screen_y: 10 });
    s.handle_event(Input::DidResize { width: 30, height: 40 });
    s.handle_event(Input::DidMove { x: 1, y: 2 });
    s.handle_event(Input::Other);
    assert!(!s.running);
}

#[test]
fn other_events_change_nothing() {
    let mut s = AppState::new();
    s.handle_event(Input::Other);
    assert_eq!(s.window.origin, (600, 600));
    assert_eq!(s.window.size, (500, 500));
    assert_eq!(s.pointer, (0, 0));
    assert!(s.running);
}

#[test]
fn pointer_moved_uses_current_origin() {
    let mut s = AppState::new();
    s.handle_event(Input::DidMove { x: -30, y: 999 });
    s.handle_event(Input::PointerMoved { screen_x: 20, screen_y: 80 });
    assert_eq!(s.pointer, (50, 1200));
}

#[test]
fn s5_one_frame_renders_cursor_rectangle() {
    let mut s = AppState::new();
    s.pointer = (2, 1);
    let mut buf = Buffer::new(10, 10);
    buf.draw_square(5, 5, 1, 1);
    s.frame_render(&mut buf);
    for x in 0..10 {
        for y in 0..10 {
            let expect = if x >= 2 && y >= 1 { WHITE } else { BLACK };
            assert_eq!(pixel(&buf, x, y), expect, "pixel ({}, {})", x, y);
        }
    }
}

#[test]
fn frame_render_at_origin_fills_small_buffer() {
    let s = AppState::new();
    let mut buf = Buffer::new(4, 4);
    let mut canary = Buffer::new(4, 4);
    s.frame_render(&mut buf);
    canary.draw_square(0, 0, 4, 4);
    assert_eq!(buf.allocation, canary.allocation);
}
