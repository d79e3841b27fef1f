use modal_editor::command::{split_command, CommandKind, Commands};

fn chars(s: &str) -> Vec<char> {
    s.chars().collect()
}

#[test]
fn command_line_is_trimmed_and_split_at_the_first_space() {
    assert_eq!(split_command(&chars("  w  file.txt \t")), (chars("w"), Some(chars(" file.txt"))));
    assert_eq!(split_command(&chars("q!")), (chars("q!"), None));
    assert_eq!(split_command(&chars("   ")), (chars(""), None));
}

#[test]
fn later_registration_of_a_name_wins() {
    let c = Commands::new(vec![("w", CommandKind::Write), ("q", CommandKind::Quit), ("w", CommandKind::Edit)]);
    assert_eq!(c.get(&chars("w a")), Some((CommandKind::Edit, Some(chars("a")))));
    assert_eq!(c.get(&chars(" q ")), Some((CommandKind::Quit, None)));
    assert_eq!(c.get(&chars("x")), None);
}
