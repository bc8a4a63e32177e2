use hexview::geometry::Point;
use hexview::state::{move_cursor, KeyCode, State};

fn focused(len: usize, cursor: usize, columns: usize) -> State {
    let mut state = State::new();
    let bytes: Vec<u8> = (0..len).map(|i| i as u8).collect();
    state.set_bytes(&bytes);
    state.set_keyboard_focus(true);
    // Walk the cursor to its place with the keys themselves.
    for _ in 0..cursor {
        state.key(KeyCode::Right, columns);
    }
    assert_eq!(state.cursor(), cursor);
    state
}

#[test]
fn new_state_is_empty() {
    let state = State::new();
    assert_eq!(state.bytes(), &[] as &[u8]);
    assert_eq!(state.cursor(), 0);
    assert_eq!(state.selection(), None);
    assert!(!state.keyboard_focus());
    assert!(!state.is_dragging());
    assert!(!state.debug_enabled());
    assert_eq!(state.test_offset(), 0);
    assert_eq!(state.bytes_hash(), 0);
}

#[test]
fn right_at_the_last_byte_is_a_no_op() {
    let mut state = focused(5, 4, 16);
    state.key(KeyCode::Right, 16);
    assert_eq!(state.cursor(), 4);
}

#[test]
fn right_before_the_last_byte_moves() {
    let mut state = focused(5, 3, 16);
    state.key(KeyCode::Right, 16);
    assert_eq!(state.cursor(), 4);
}

#[test]
fn home_and_end_in_second_row() {
    let mut state = focused(64, 20, 16);
    state.key(KeyCode::Home, 16);
    assert_eq!(state.cursor(), 16);
    state.key(KeyCode::End, 16);
    assert_eq!(state.cursor(), 31);
}

#[test]
fn end_stops_at_the_last_byte() {
    let mut state = focused(25, 20, 16);
    state.key(KeyCode::End, 16);
    assert_eq!(state.cursor(), 24);
    state.key(KeyCode::End, 16);
    assert_eq!(state.cursor(), 24);
}

#[test]
fn left_up_down_and_pages() {
    let mut state = focused(40, 20, 16);
    state.key(KeyCode::Left, 16);
    assert_eq!(state.cursor(), 19);
    state.key(KeyCode::Up, 16);
    assert_eq!(state.cursor(), 3);
    state.key(KeyCode::Up, 16);
    assert_eq!(state.cursor(), 3);
    state.key(KeyCode::Down, 16);
    assert_eq!(state.cursor(), 19);
    state.key(KeyCode::Down, 16);
    assert_eq!(state.cursor(), 35);
    state.key(KeyCode::Down, 16);
    assert_eq!(state.cursor(), 39);
    state.key(KeyCode::PageUp, 16);
    assert_eq!(state.cursor(), 0);
    state.key(KeyCode::Left, 16);
    assert_eq!(state.cursor(), 0);
    state.key(KeyCode::PageDown, 16);
    assert_eq!(state.cursor(), 39);
}

#[test]
fn keys_without_focus_do_nothing() {
    let mut state = focused(40, 20, 16);
    state.set_keyboard_focus(false);
    for key in [
        KeyCode::Left,
        KeyCode::Right,
        KeyCode::Up,
        KeyCode::Down,
        KeyCode::Home,
        KeyCode::End,
        KeyCode::PageUp,
        KeyCode::PageDown,
        KeyCode::D,
        KeyCode::Other,
    ] {
        state.key(key, 16);
        assert_eq!(state.cursor(), 20);
        assert!(!state.debug_enabled());
    }
}

#[test]
fn keys_on_an_empty_buffer_do_nothing() {
    let mut state = State::new();
    state.set_keyboard_focus(true);
    for key in [
        KeyCode::Left,
        KeyCode::Right,
        KeyCode::Up,
        KeyCode::Down,
        KeyCode::Home,
        KeyCode::End,
        KeyCode::PageUp,
        KeyCode::PageDown,
    ] {
        state.key(key, 16);
        assert_eq!(state.cursor(), 0);
    }
}

#[test]
fn move_cursor_formulas() {
    assert_eq!(move_cursor(20, 64, KeyCode::Home, 16), 16);
    assert_eq!(move_cursor(20, 64, KeyCode::End, 16), 31);
    assert_eq!(move_cursor(20, 25, KeyCode::End, 16), 24);
    assert_eq!(move_cursor(20, 64, KeyCode::Down, 16), 36);
    assert_eq!(move_cursor(60, 64, KeyCode::Down, 16), 63);
    assert_eq!(move_cursor(20, 64, KeyCode::Up, 16), 4);
    assert_eq!(move_cursor(4, 64, KeyCode::Up, 16), 4);
    assert_eq!(move_cursor(0, 0, KeyCode::End, 16), 0);
    assert_eq!(move_cursor(0, 0, KeyCode::PageDown, 16), 0);
    assert_eq!(move_cursor(7, 64, KeyCode::Other, 16), 7);
}

#[test]
fn debug_keys() {
    let mut state = focused(4, 0, 16);
    state.key(KeyCode::Minus, 16);
    assert_eq!(state.test_offset(), 0);
    state.key(KeyCode::D, 16);
    assert!(state.debug_enabled());
    state.key(KeyCode::Equals, 16);
    state.key(KeyCode::Equals, 16);
    assert_eq!(state.test_offset(), 2);
    state.key(KeyCode::Minus, 16);
    assert_eq!(state.test_offset(), 1);
    state.key(KeyCode::D, 16);
    assert!(!state.debug_enabled());
    state.key(KeyCode::Equals, 16);
    assert_eq!(state.test_offset(), 1);
}

#[test]
fn press_moves_the_cursor_and_starts_a_drag() {
    let mut state = focused(64, 5, 16);
    state.press(true, Point { x: 10, y: 10 }, Some(10));
    assert_eq!(state.cursor(), 10);
    assert_eq!(state.selection(), None);
    assert!(state.is_dragging());
}

#[test]
fn press_outside_changes_nothing() {
    let mut state = focused(64, 5, 16);
    state.press(false, Point { x: 10, y: 10 }, Some(10));
    assert_eq!(state.cursor(), 5);
    assert!(!state.is_dragging());
}

#[test]
fn press_without_a_hit_keeps_the_cursor() {
    let mut state = focused(64, 5, 16);
    state.press(true, Point { x: 10, y: 10 }, None);
    assert_eq!(state.cursor(), 5);
    assert!(state.is_dragging());
    state.press(true, Point { x: 10, y: 10 }, Some(64));
    assert_eq!(state.cursor(), 5);
}

#[test]
fn drag_orders_the_selection() {
    let mut state = focused(64, 0, 16);
    state.press(true, Point { x: 1, y: 1 }, Some(10));
    state.drag(Some(3));
    assert_eq!(state.selection(), Some((3, 10)));
    state.drag(Some(12));
    assert_eq!(state.selection(), Some((10, 12)));
    state.drag(Some(10));
    assert_eq!(state.selection(), None);
    state.drag(Some(64));
    assert_eq!(state.selection(), Some((10, 64)));
}

#[test]
fn drag_without_a_hit_keeps_the_selection() {
    let mut state = focused(64, 0, 16);
    state.press(true, Point { x: 1, y: 1 }, Some(10));
    state.drag(Some(3));
    state.drag(None);
    assert_eq!(state.selection(), Some((3, 10)));
    state.drag(Some(65));
    assert_eq!(state.selection(), Some((3, 10)));
}

#[test]
fn moves_without_a_press_select_nothing() {
    let mut state = focused(64, 0, 16);
    state.drag(Some(3));
    assert_eq!(state.selection(), None);
}

#[test]
fn release_ends_the_drag_and_sets_the_focus() {
    let mut state = focused(64, 0, 16);
    state.set_keyboard_focus(false);
    state.press(true, Point { x: 1, y: 1 }, Some(10));
    state.drag(Some(3));
    state.release(Point { x: 5, y: 5 }, true);
    assert!(!state.is_dragging());
    assert!(state.keyboard_focus());
    assert_eq!(state.selection(), Some((3, 10)));
    state.drag(Some(20));
    assert_eq!(state.selection(), Some((3, 10)));
    state.release(Point { x: 5, y: 5 }, false);
    assert!(!state.keyboard_focus());
}

#[test]
fn release_where_pressed_drops_the_selection() {
    let mut state = focused(64, 0, 16);
    state.press(true, Point { x: 1, y: 1 }, Some(10));
    state.drag(Some(3));
    state.release(Point { x: 1, y: 1 }, true);
    assert_eq!(state.selection(), None);
}

#[test]
fn loading_a_buffer_resets_cursor_and_selection() {
    let mut state = focused(64, 20, 16);
    state.press(true, Point { x: 1, y: 1 }, Some(30));
    state.drag(Some(40));
    assert_eq!(state.cursor(), 30);
    assert_eq!(state.selection(), Some((30, 40)));
    state.set_bytes(&[1, 2, 3]);
    assert_eq!(state.cursor(), 0);
    assert_eq!(state.selection(), None);
    assert_eq!(state.bytes(), &[1, 2, 3]);
    // The anchor went back too.
    state.drag(Some(2));
    assert_eq!(state.selection(), Some((0, 2)));
}

#[test]
fn digest_of_the_buffer() {
    let mut state = State::new();
    state.set_bytes(&[]);
    // XXH64 of no bytes from seed 0.
    assert_eq!(state.bytes_hash(), 0xef46_db37_51d8_e999);
    state.set_bytes(&[0, 0, 0, 0, 0, 0, 0, 1]);
    let one = state.bytes_hash();
    assert_ne!(one, 1);
    assert_ne!(one, 0xef46_db37_51d8_e999);
    state.set_bytes(&[0, 0, 0, 0, 0, 0, 0, 2]);
    assert_ne!(state.bytes_hash(), one);
    state.set_bytes(&[0, 0, 0, 0, 0, 0, 0, 1]);
    assert_eq!(state.bytes_hash(), one);
}
