use modal_editor::buffer::Buffer;

fn text(b: &Buffer) -> Vec<String> {
    b.lines().iter().map(|l| l.iter().collect()).collect()
}

#[test]
fn deleting_the_only_line_leaves_one_empty_line() {
    let mut b = Buffer::from_string("only");
    b.delete_line((0, 0));
    assert_eq!(text(&b), vec![String::new()]);
}

#[test]
fn round_trip_with_trailing_newline() {
    let b = Buffer::from_filepath("f.txt".to_string(), "a\nb\nc\n");
    assert_eq!(text(&b), vec!["a", "b", "c"]);
    assert_eq!(b.write(), Ok("a\nb\nc\n".to_string()));
}

#[test]
fn round_trip_without_trailing_newline() {
    let b = Buffer::from_filepath("f.txt".to_string(), "a\nb\nc");
    assert_eq!(b.write(), Ok("a\nb\nc".to_string()));
}

#[test]
fn round_trip_of_empty_and_blank_files() {
    for s in ["", "\n", "\n\n", "x\n\n"] {
        let b = Buffer::from_filepath("f".to_string(), s);
        assert!(b.line_count() >= 1);
        assert_eq!(b.write(), Ok(s.to_string()));
    }
}

#[test]
fn scratch_buffer_has_no_file_to_write() {
    let b = Buffer::from_string("x");
    assert_eq!(b.write(), Err("No filename".to_string()));
    assert_eq!(b.filename(), "[No Name]");
}

#[test]
fn edits_mark_the_buffer_dirty() {
    let mut b = Buffer::from_filepath("f".to_string(), "abc\ndef\n");
    assert!(!b.unsaved_changes());
    b.add_char('X', (0, 1));
    assert_eq!(text(&b), vec!["aXbc", "def"]);
    assert!(b.unsaved_changes());
    b.add_line_break((0, 2));
    assert_eq!(text(&b), vec!["aX", "bc", "def"]);
    b.delete_char((1, 1));
    assert_eq!(text(&b), vec!["aX", "c", "def"]);
    b.delete_line_break((1, 0));
    assert_eq!(text(&b), vec!["aXc", "def"]);
    b.new_line_below((0, 0));
    b.new_line_above((0, 0));
    assert_eq!(text(&b), vec!["", "aXc", "", "def"]);
    b.change_line((1, 0));
    assert_eq!(text(&b), vec!["", "", "", "def"]);
    assert_eq!(b.write(), Ok("\n\n\ndef\n".to_string()));
    b.mark_written();
    assert!(!b.unsaved_changes());
    assert_eq!(b.filename(), "f");
}
