use pixelframe::clock::FrameClock;
use pixelframe::event::{Event, EventQueue};
use pixelframe::font::Font;
use pixelframe::session::Session;
use pixelframe::shape::{Color, Rect};

fn chars(s: &str) -> Vec<char> {
    s.chars().collect()
}

/// A font whose glyphs for 'a' and 'b' are 5 and 7 pixels wide.
fn two_glyph_font() -> Font {
    let mut pixels: Vec<u8> = vec![0];
    pixels.extend(std::iter::repeat(1).take(5));
    pixels.push(0);
    pixels.extend(std::iter::repeat(2).take(7));
    pixels.push(0);
    let width = pixels.len() as u32;
    Font::from_image(&pixels, width, 1, &chars("ab")).unwrap()
}

fn default_session() -> Session {
    let pixels: Vec<u8> = vec![0, 1, 0];
    let font = Font::from_image(&pixels, 3, 1, &chars("a")).unwrap();
    Session::new(font)
}

#[test]
fn queue_is_fifo() {
    let mut q = EventQueue::new();
    assert!(q.is_empty());
    q.push(Event::KeyDown { key: 1 });
    q.push(Event::KeyDown { key: 2 });
    q.push(Event::KeyDown { key: 3 });
    assert_eq!(q.len(), 3);
    assert_eq!(q.pop_front(), Event::KeyDown { key: 1 });
    assert_eq!(q.pop_front(), Event::KeyDown { key: 2 });
    assert_eq!(q.pop_front(), Event::KeyDown { key: 3 });
    assert!(q.is_empty());
}

#[test]
fn session_events_come_out_in_arrival_order() {
    let mut s = default_session();
    assert!(!s.has_event());
    s.drain_event(Some(Event::KeyDown { key: 10 }));
    s.drain_event(None);
    s.drain_event(Some(Event::MouseMotion { x: 3, y: 4 }));
    assert!(s.has_event());
    assert_eq!(s.next_event(), Event::KeyDown { key: 10 });
    assert_eq!(s.next_event(), Event::MouseMotion { x: 3, y: 4 });
    assert!(!s.has_event());
}

#[test]
fn quit_transition_is_terminal() {
    let mut s = default_session();
    assert!(s.is_running());
    s.drain_event(Some(Event::Quit));
    assert!(!s.is_running());
    // Later events never restart the session; recognized ones still queue.
    s.drain_event(Some(Event::KeyDown { key: 9 }));
    s.drain_event(None);
    assert!(!s.is_running());
    assert!(s.has_event());
}

#[test]
fn explicit_quit_is_terminal_too() {
    let mut s = default_session();
    s.quit();
    assert!(!s.is_running());
    s.drain_event(Some(Event::KeyUp { key: 1 }));
    assert!(!s.is_running());
}

#[test]
fn unrecognized_events_are_dropped() {
    let mut s = default_session();
    s.drain_event(None);
    assert!(!s.has_event());
    assert!(s.is_running());
}

#[test]
fn clock_enforces_pacing_lower_bound() {
    let mut c = FrameClock::new(10);
    assert!(!c.wait_done(9));
    assert!(c.wait_done(10));
    assert!(c.wait_done(11));
    c.record(10);
    assert!(!c.wait_done(19));
    assert!(c.wait_done(20));
    c.record(20);
    // A reading from before the recorded frame counts as not elapsed.
    assert!(!c.wait_done(5));
}

#[test]
fn session_pacing_uses_sixty_frames_per_second() {
    let mut s = default_session();
    assert!(!s.frame_wait_done(15));
    assert!(s.frame_wait_done(16));
    s.complete_frame_wait(16);
    assert!(!s.frame_wait_done(31));
    assert!(s.frame_wait_done(32));
}

#[test]
fn new_session_state() {
    let s = default_session();
    assert!(s.is_running());
    assert!(!s.has_event());
    assert_eq!(s.foreground_color(), Color { r: 255, g: 255, b: 255, a: 255 });
}

#[test]
fn set_color_changes_every_later_draw() {
    let mut s = default_session();
    s.set_color(1, 2, 3, 4);
    assert_eq!(s.foreground_color(), Color { r: 1, g: 2, b: 3, a: 4 });
}

#[test]
fn print_skips_missing_glyph_and_advances_by_gap() {
    let mut s = default_session();
    s.set_font(two_glyph_font());
    // 'a' is 5 wide, ' ' has no glyph (gap 5), 'b' is 7 wide.
    let (blits, covering) = s.print(&chars("a b"), 10, 3);
    assert_eq!(blits.len(), 2);
    assert_eq!(blits[0].src, Rect { x: 1, y: 0, width: 5, height: 1 });
    assert_eq!(blits[0].dst, Rect { x: 10, y: 3, width: 5, height: 1 });
    assert_eq!(blits[1].src, Rect { x: 7, y: 0, width: 7, height: 1 });
    assert_eq!(blits[1].dst, Rect { x: 20, y: 3, width: 7, height: 1 });
    assert_eq!(covering, Rect { x: 10, y: 3, width: 17, height: 1 });
}

#[test]
fn print_empty_text_covers_nothing() {
    let s = default_session();
    let (blits, covering) = s.print(&chars(""), 4, 5);
    assert_eq!(blits.len(), 0);
    assert_eq!(covering, Rect { x: 4, y: 5, width: 0, height: 1 });
}

#[test]
fn try_print_matches_print_when_in_range() {
    let mut s = default_session();
    s.set_font(two_glyph_font());
    let direct = s.print(&chars("ab"), 0, 0);
    let checked = s.try_print(&chars("ab"), 0, 0).unwrap();
    assert_eq!(direct, checked);
}

#[test]
fn try_print_refuses_a_cursor_past_the_coordinate_range() {
    let mut s = default_session();
    s.set_font(two_glyph_font());
    assert!(s.try_print(&chars("a"), i32::MAX - 3, 0).is_none());
    assert!(s.try_print(&chars("a"), i32::MAX - 5, 0).is_some());
}
