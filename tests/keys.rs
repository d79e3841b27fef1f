use modal_editor::keys::{str_to_keys, Key, KeyCode};

#[test]
fn str_to_keys_works() {
    assert_eq!(
        str_to_keys("<Esc>"),
        Some(vec![Key {
            code: KeyCode::Esc,
            control: false,
            alt: false
        }])
    );
}

#[test]
fn str_to_keys_tokens_and_literals() {
    assert_eq!(
        str_to_keys("a<space><CR><BS><C-w>b"),
        Some(vec![
            Key::char('a'),
            Key::char(' '),
            Key { code: KeyCode::Enter, control: false, alt: false },
            Key { code: KeyCode::Backspace, control: false, alt: false },
            Key { code: KeyCode::Char('w'), control: true, alt: false },
            Key::char('b'),
        ])
    );
    assert_eq!(str_to_keys(""), Some(vec![]));
}

#[test]
fn str_to_keys_rejects_malformed_tokens() {
    assert_eq!(str_to_keys("<Esc"), None);
    assert_eq!(str_to_keys("<nope>"), None);
    assert_eq!(str_to_keys("<C->"), None);
}
