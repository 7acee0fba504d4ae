use doh::ops::term::{move_cursor_back, move_cursor_down, move_cursor_up, show_cursor};

#[test]
fn cursor_up() {
    assert_eq!(move_cursor_up(5), "\x1B[5A");
    assert_eq!(move_cursor_up(0), "\x1B[0A");
    assert_eq!(move_cursor_up(120), "\x1B[120A");
}

#[test]
fn cursor_down() {
    assert_eq!(move_cursor_down(5), "\x1B[5B");
    assert_eq!(move_cursor_down(10), "\x1B[10B");
}

#[test]
fn cursor_back() {
    assert_eq!(move_cursor_back(3), "\x1B[3D");
    assert_eq!(move_cursor_back(1), "\x1B[1D");
}

#[test]
fn cursor_visibility() {
    assert_eq!(show_cursor(true), "\x1B[?25h");
    assert_eq!(show_cursor(false), "\x1B[?25l");
}
