use modal_editor::keys::{Key, KeyCode};
use modal_editor::state::{Mode, Request, State};

fn key(code: KeyCode) -> Key {
    Key { code, control: false, alt: false }
}

fn type_str(s: &mut State, text: &str) -> Vec<Request> {
    text.chars().map(|c| s.handle_key_event(Key::char(c))).collect()
}

fn lines(s: &State) -> Vec<String> {
    s.screen().active_window().buffer().lines().iter().map(|l| l.iter().collect()).collect()
}

fn message(s: &State) -> String {
    s.screen().message().iter().collect()
}

#[test]
fn typing_jjk_in_insert_mode_leaves_one_j() {
    let mut s = State::init(24, 80);
    type_str(&mut s, "i");
    assert_eq!(s.mode(), Mode::Insert);
    type_str(&mut s, "jjk");
    assert_eq!(lines(&s), vec!["j"]);
    assert_eq!(s.mode(), Mode::Normal);
    assert!(s.current_key_event().is_empty());
}

#[test]
fn typing_jk_in_insert_mode_leaves_nothing() {
    let mut s = State::init(24, 80);
    type_str(&mut s, "ijk");
    assert_eq!(lines(&s), vec![""]);
    assert_eq!(s.mode(), Mode::Normal);
}

#[test]
fn insert_mode_echo_and_escape() {
    let mut s = State::init(24, 80);
    type_str(&mut s, "ihello");
    s.handle_key_event(key(KeyCode::Enter));
    s.handle_key_event(key(KeyCode::Tab));
    type_str(&mut s, "x");
    s.handle_key_event(key(KeyCode::Backspace));
    assert_eq!(lines(&s), vec!["hello", "    "]);
    assert_eq!(message(&s), "-- INSERT --");
    s.handle_key_event(key(KeyCode::Esc));
    assert_eq!(s.mode(), Mode::Normal);
    assert_eq!(message(&s), "");
    // the matched key is retracted like an echoed one
    assert_eq!(lines(&s), vec!["hello", "   "]);
}

#[test]
fn control_keys_are_ignored() {
    let mut s = State::init(24, 80);
    let r = s.handle_key_event(Key { code: KeyCode::Char('i'), control: true, alt: false });
    assert_eq!(r, Request::Nothing);
    assert_eq!(s.mode(), Mode::Normal);
    assert!(s.current_key_event().is_empty());
}

#[test]
fn unmatched_keys_drop_from_the_front() {
    let mut s = State::init(24, 80);
    type_str(&mut s, "d");
    assert_eq!(s.current_key_event(), &vec![Key::char('d')]);
    type_str(&mut s, "x");
    assert_eq!(s.current_key_event(), &vec![Key::char('x')]);
    type_str(&mut s, "Z");
    assert_eq!(s.current_key_event(), &vec![Key::char('Z')]);
}

#[test]
fn zq_quits_and_zz_on_a_scratch_buffer_reports_and_quits() {
    let mut s = State::init(24, 80);
    let r = type_str(&mut s, "ZQ");
    assert_eq!(r.last(), Some(&Request::Quit));
    let mut s = State::init(24, 80);
    let r = type_str(&mut s, "ZZ");
    assert_eq!(r.last(), Some(&Request::Quit));
    assert_eq!(message(&s), "No filename");
    assert!(s.screen().message_is_error());
}

#[test]
fn write_command_asks_the_host_to_store_the_text() {
    let mut s = State::init(24, 80);
    s.load_done("notes.txt".to_string(), "a\nb\n");
    type_str(&mut s, "oxjk:w");
    let r = s.handle_key_event(key(KeyCode::Enter));
    assert_eq!(r, Request::Write { text: "a\nx\nb\n".to_string(), then_quit: false });
    assert_eq!(s.mode(), Mode::Normal);
    s.write_done();
    assert_eq!(message(&s), "\"notes.txt\" written");
    assert!(!s.screen().active_window().buffer().unsaved_changes());
}

#[test]
fn quit_refuses_unsaved_changes() {
    let mut s = State::init(24, 80);
    type_str(&mut s, "iajk:q");
    let r = s.handle_key_event(key(KeyCode::Enter));
    assert_eq!(r, Request::Nothing);
    assert_eq!(message(&s), "no write since last change");
    type_str(&mut s, ":q!");
    let r = s.handle_key_event(key(KeyCode::Enter));
    assert_eq!(r, Request::Quit);
}

#[test]
fn unknown_command_and_stray_argument_are_errors() {
    let mut s = State::init(24, 80);
    type_str(&mut s, ":frob");
    let r = s.handle_key_event(key(KeyCode::Enter));
    assert_eq!(r, Request::Nothing);
    assert_eq!(message(&s), "Unknown command `frob`");
    assert!(s.screen().message_is_error());
    type_str(&mut s, ":q now");
    s.handle_key_event(key(KeyCode::Enter));
    assert_eq!(message(&s), "unexpected chars: `now`");
    type_str(&mut s, ":e");
    s.handle_key_event(key(KeyCode::Enter));
    assert_eq!(message(&s), "no file name");
}

#[test]
fn escape_leaves_command_mode() {
    let mut s = State::init(24, 80);
    type_str(&mut s, ":");
    assert_eq!(s.mode(), Mode::Command);
    s.handle_key_event(key(KeyCode::Esc));
    assert_eq!(s.mode(), Mode::Normal);
    assert_eq!(message(&s), "");
}

#[test]
fn split_commands_and_focus_keys() {
    let mut s = State::init(24, 80);
    type_str(&mut s, ":vne other.txt");
    let r = s.handle_key_event(key(KeyCode::Enter));
    assert_eq!(r, Request::Load { path: "other.txt".to_string() });
    assert_eq!(s.screen().active_index(), 1);
    s.load_done("other.txt".to_string(), "hello");
    assert_eq!(lines(&s), vec!["hello"]);
    type_str(&mut s, " h");
    assert_eq!(s.screen().active_index(), 0);
    type_str(&mut s, " l");
    assert_eq!(s.screen().active_index(), 1);
}

#[test]
fn normal_mode_motions() {
    let mut s = State::init(24, 80);
    s.load_done("f".to_string(), "abc\ndefg\n");
    type_str(&mut s, "j$");
    assert_eq!(s.screen().active_window().cursor(), (1, 4));
    type_str(&mut s, "0k");
    assert_eq!(s.screen().active_window().cursor(), (0, 0));
    type_str(&mut s, "dd");
    assert_eq!(lines(&s), vec!["defg"]);
    type_str(&mut s, "Ax");
    assert_eq!(lines(&s), vec!["defgx"]);
}

#[test]
fn horizontal_split_needs_room() {
    let mut s = State::init(2, 80);
    type_str(&mut s, ":new");
    let r = s.handle_key_event(key(KeyCode::Enter));
    assert_eq!(r, Request::Nothing);
    assert_eq!(message(&s), "not enough room");
    assert_eq!(s.screen().windows().len(), 1);
}

#[test]
fn write_to_a_named_file_and_write_quit() {
    let mut s = State::init(24, 80);
    type_str(&mut s, "ihijk:w out.txt");
    let r = s.handle_key_event(key(KeyCode::Enter));
    assert_eq!(r, Request::Write { text: "hi".to_string(), then_quit: false });
    assert_eq!(s.screen().active_window().buffer().filename(), "out.txt");
    type_str(&mut s, ":wq");
    let r = s.handle_key_event(key(KeyCode::Enter));
    assert_eq!(r, Request::Write { text: "hi".to_string(), then_quit: true });
    let mut t = State::init(24, 80);
    type_str(&mut t, ":wq");
    let r = t.handle_key_event(key(KeyCode::Enter));
    assert_eq!(r, Request::Quit);
    assert_eq!(message(&t), "No filename");
}

#[test]
fn arrows_move_without_entering_the_pending_sequence() {
    let mut s = State::init(24, 80);
    s.load_done("f".to_string(), "abc\nde\n");
    s.handle_key_event(key(KeyCode::Right));
    s.handle_key_event(key(KeyCode::Right));
    s.handle_key_event(key(KeyCode::Down));
    assert_eq!(s.screen().active_window().cursor(), (1, 2));
    assert!(s.current_key_event().is_empty());
    type_str(&mut s, ":ab");
    s.handle_key_event(key(KeyCode::Left));
    assert_eq!(s.screen().command_cursor(), Some(2));
    s.handle_key_event(key(KeyCode::Backspace));
    assert_eq!(message(&s), ":a");
}
