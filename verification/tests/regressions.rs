//! Regression tests for edge cases that previously caused panics or incorrect behavior.

use emux::grid::Grid;
use emux::parser::Parser;
use emux::screen::Screen;

#[test]
fn regression_scroll_bottom_leq_top_no_panic() {
    // Grid::scroll_up/scroll_down should not panic when bottom <= top
    let mut grid = Grid::new(80, 24);
    grid.scroll_up(5, 3, 1); // bottom(3) < top(5) - should be no-op
    grid.scroll_down(10, 2, 1); // same
    // No panic = pass
}

#[test]
fn regression_backspace_at_origin() {
    let mut screen = Screen::new(80, 24);
    let mut parser = Parser::new();
    // Cursor at (0,0), send BS
    parser.advance(&mut screen, b"\x08");
    assert_eq!(screen.cursor.row, 0);
    assert_eq!(screen.cursor.col, 0);
}

#[test]
fn regression_1_row_terminal() {
    let mut screen = Screen::new(80, 1);
    let mut parser = Parser::new();
    parser.advance(&mut screen, b"Hello World");
    // Should not panic
    assert_eq!(screen.cursor.row, 0);
}

#[test]
fn regression_scroll_region_height_1() {
    let mut screen = Screen::new(80, 24);
    let mut parser = Parser::new();
    // Set scroll region to single row (should be ignored or handled gracefully)
    parser.advance(&mut screen, b"\x1b[5;5r");
    // Should not panic, scroll region should be rejected
}

#[test]
fn arbitrary_bytes_never_break_the_terminal() {
    assert_eq!(emux::screen::run_terminal_bytes(b"hello\r\nworld"), "hello");
    assert_eq!(emux::screen::run_terminal_bytes(b""), "");
    let junk: Vec<u8> = (0..4096u32).map(|i| (i.wrapping_mul(2654435761) >> 13) as u8).collect();
    let _ = emux::screen::run_terminal_bytes(&junk);
    let _ = emux::screen::run_terminal_bytes(b"\x1b[999999999;0r\x1bP\x90\xff\xfe\xc3");
}

fn screen_after(chunks: &[&[u8]]) -> Screen {
    let mut screen = Screen::new(20, 4);
    let mut parser = Parser::new();
    for c in chunks {
        parser.advance(&mut screen, c);
    }
    screen
}

#[test]
fn feeding_in_chunks_is_feeding_at_once() {
    let whole: &[u8] = b"ab\x1b[2;3rcd\r\n\xc3\xa9t\xc3\xa9";
    let one = screen_after(&[whole]);
    for split in 0..whole.len() {
        let two = screen_after(&[&whole[..split], &whole[split..]]);
        for r in 0..4 {
            assert_eq!(one.row_text(r), two.row_text(r));
        }
        assert_eq!(one.cursor, two.cursor);
    }
    // Setting the scroll region homes the cursor, so "cd" overwrites "ab".
    assert_eq!(one.row_text(0), "cd");
    assert_eq!(one.row_text(1), "été");
}

#[test]
fn cancel_and_escape_abort_sequences() {
    // CAN aborts the CSI sequence; the following text prints.
    assert_eq!(screen_after(&[b"\x1b[12\x18xyz"]).row_text(0), "xyz");
    // SUB does too.
    assert_eq!(screen_after(&[b"\x1b]0;title\x1axyz"]).row_text(0), "xyz");
    // ESC restarts: the first sequence is dropped, the second completes.
    assert_eq!(screen_after(&[b"\x1b[1\x1b[mok"]).row_text(0), "ok");
    // Printable ASCII prints as is.
    assert_eq!(screen_after(&[b"plain text"]).row_text(0), "plain text");
}
