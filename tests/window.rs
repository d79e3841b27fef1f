use modal_editor::buffer::Buffer;
use modal_editor::window::{Frame, Window};

fn window_with(lines: usize, len: usize, height: usize, width: usize) -> Window {
    let mut w = Window::new(height, width, (0, 0));
    let line: String = "x".repeat(len);
    let text = vec![line; lines].join("\n");
    w.load_file(Buffer::from_string(&text));
    w
}

fn pos(w: &Window) -> (usize, usize) {
    let c = w.cursor();
    let o = w.offset();
    (c.0 + o.0, c.1 + o.1)
}

#[test]
fn moving_down_past_the_screen_scrolls() {
    let mut w = window_with(10, 3, 3, 20);
    w.move_cursor_row(5);
    assert_eq!(w.cursor(), (2, 0));
    assert_eq!(w.offset(), (3, 0));
    w.move_cursor_row(100);
    assert_eq!(pos(&w).0, 9);
    w.move_cursor_row(-100);
    assert_eq!(w.cursor(), (0, 0));
    assert_eq!(w.offset(), (0, 0));
}

#[test]
fn moving_right_past_the_usable_width_scrolls() {
    // width 10: four digits, a separator and a spare column leave columns 0..=4
    let mut w = window_with(1, 20, 5, 10);
    w.move_cursor_col(7);
    assert_eq!(w.cursor(), (0, 4));
    assert_eq!(w.offset(), (0, 3));
    w.move_cursor_col(100);
    assert_eq!(pos(&w), (0, 20));
    w.zero_cursor_col();
    assert_eq!(w.cursor(), (0, 0));
    assert_eq!(w.offset(), (0, 0));
    w.move_cursor_end_of_line();
    assert_eq!(pos(&w), (0, 20));
}

#[test]
fn cursor_stays_in_the_text_for_any_moves() {
    let mut w = Window::new(4, 12, (0, 0));
    w.load_file(Buffer::from_string("abcdefghij\n\nabc\nabcdefghijklmnop\nx\n\nlast line here"));
    let deltas: [(isize, isize); 12] = [
        (3, 9), (-1, 2), (5, -40), (-7, 30), (2, 2), (1, -1),
        (0, 100), (-2, -3), (6, 6), (-1, 0), (3, -2), (-9, 9),
    ];
    for (dr, dc) in deltas {
        w.move_cursor_row(dr);
        let lines = w.buffer().lines();
        let (r, c) = pos(&w);
        assert!(r < lines.len());
        assert!(c <= lines[r].len());
        w.move_cursor_col(dc);
        let lines = w.buffer().lines();
        let (r, c) = pos(&w);
        assert!(r < lines.len());
        assert!(c <= lines[r].len());
        assert!(w.cursor().0 <= 3);
        assert!(w.cursor().1 <= 6);
    }
}

#[test]
fn typing_and_backspacing() {
    let mut w = Window::new(10, 40, (0, 0));
    for c in "ab\ncd".chars() {
        w.type_char(c);
    }
    let text: Vec<String> = w.buffer().lines().iter().map(|l| l.iter().collect()).collect();
    assert_eq!(text, vec!["ab", "cd"]);
    assert_eq!(pos(&w), (1, 2));
    w.delete_chars(3);
    let text: Vec<String> = w.buffer().lines().iter().map(|l| l.iter().collect()).collect();
    assert_eq!(text, vec!["ab"]);
    assert_eq!(pos(&w), (0, 2));
    w.delete_chars(5);
    let text: Vec<String> = w.buffer().lines().iter().map(|l| l.iter().collect()).collect();
    assert_eq!(text, vec![""]);
    assert_eq!(pos(&w), (0, 0));
}

#[test]
fn line_operations_keep_the_cursor_on_a_line() {
    let mut w = Window::new(10, 40, (2, 3));
    w.load_file(Buffer::from_string("one\ntwo"));
    w.move_cursor_row(1);
    w.delete_line();
    assert_eq!(pos(&w).0, 0);
    w.delete_line();
    assert_eq!(w.buffer().line_count(), 1);
    w.new_line_below();
    assert_eq!(pos(&w), (1, 0));
    w.change_line();
    assert_eq!(w.frame(), Frame { top: 2, left: 3, height: 10, width: 40 });
    assert_eq!(w.loc(), (2, 3));
}
