use modal_editor::screen::{Direction, Screen};
use modal_editor::window::Frame;

#[test]
fn single_window_navigation_is_a_no_op() {
    let mut s = Screen::new(24, 80);
    for d in [Direction::Left, Direction::Right, Direction::Up, Direction::Down] {
        s.navigate(d);
        assert_eq!(s.active_index(), 0);
    }
    assert_eq!(s.windows().len(), 1);
}

#[test]
fn vertical_split_then_right_then_left_returns() {
    let mut s = Screen::new(24, 81);
    s.new_vertical_split();
    assert_eq!(s.active_index(), 1);
    assert_eq!(s.windows()[0].frame(), Frame { top: 0, left: 0, height: 22, width: 40 });
    assert_eq!(s.windows()[1].frame(), Frame { top: 0, left: 40, height: 22, width: 41 });
    s.move_to_right_window();
    assert_eq!(s.active_index(), 1);
    s.move_to_left_window();
    assert_eq!(s.active_index(), 0);
}

#[test]
fn horizontal_split_reserves_a_status_row() {
    let mut s = Screen::new(24, 80);
    s.new_horizontal_split();
    assert_eq!(s.windows()[0].frame(), Frame { top: 0, left: 0, height: 11, width: 80 });
    assert_eq!(s.windows()[1].frame(), Frame { top: 12, left: 0, height: 10, width: 80 });
    s.move_to_up_window();
    assert_eq!(s.active_index(), 0);
    s.move_to_down_window();
    assert_eq!(s.active_index(), 1);
}

#[test]
fn navigation_prefers_the_nearest_window() {
    let mut s = Screen::new(40, 80);
    s.new_vertical_split();
    s.new_horizontal_split();
    s.move_to_left_window();
    assert_eq!(s.active_index(), 0);
    s.move_to_right_window();
    assert_eq!(s.active_index(), 1);
}

#[test]
fn command_line_editing() {
    let mut s = Screen::new(24, 80);
    s.enter_command_mode();
    assert_eq!(s.message(), &vec![':']);
    assert_eq!(s.command_cursor(), Some(1));
    s.command_type_char('w');
    s.command_type_char('q');
    assert_eq!(s.get_curr_command(), vec!['w', 'q']);
    assert_eq!(s.command_cursor(), Some(3));
    s.command_move_cursor(-10);
    assert_eq!(s.command_cursor(), Some(1));
    s.command_move_cursor(10);
    assert_eq!(s.command_cursor(), Some(3));
    s.command_delete_char();
    s.command_delete_char();
    s.command_delete_char();
    assert_eq!(s.message(), &vec![':']);
    s.leave_command_mode();
    assert!(s.message().is_empty());
    assert_eq!(s.command_cursor(), None);
}
