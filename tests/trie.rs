use modal_editor::keys::{new_keymap_trie, str_to_keys, Key, KeyCode};
use modal_editor::trie::{FetchResult, Trie};

#[test]
fn fetch() {
    let mut trie = Trie::new();
    trie.insert("ZZ".into(), 1);
    assert_eq!(FetchResult::MaybeIncomplete, trie.fetch("Z".into()));
    assert_eq!(FetchResult::NoMatch, trie.fetch("i".into()));
}

#[test]
fn fetch_maybe_pad_start() {
    let mut trie = Trie::new();
    trie.insert("jk".into(), 'a');
    trie.insert("jjj".into(), 'b');
    assert_eq!(
        FetchResult::Matched((0, &'a')),
        trie.fetch_maybe_pad_start("jk".into())
    );
    assert_eq!(
        FetchResult::Matched((1, &'a')),
        trie.fetch_maybe_pad_start("jjk".into())
    );
}

#[test]
fn fetch_exact_binding_and_first_registration_wins() {
    let mut trie: Trie<u8, i32> = Trie::new();
    trie.insert("ab".into(), 1);
    trie.insert("ab".into(), 2);
    assert_eq!(FetchResult::Matched(&1), trie.fetch("ab".into()));
    assert_eq!(FetchResult::NoMatch, trie.fetch("abc".into()));
    assert_eq!(FetchResult::MaybeIncomplete, trie.fetch("a".into()));
}

#[test]
fn bound_prefix_of_longer_binding_never_matches() {
    let mut trie: Trie<u8, i32> = Trie::new();
    trie.insert("a".into(), 1);
    trie.insert("ab".into(), 2);
    assert_eq!(FetchResult::MaybeIncomplete, trie.fetch("a".into()));
    assert_eq!(FetchResult::Matched(&2), trie.fetch("ab".into()));
}

#[test]
fn empty_trie_and_empty_path() {
    let trie: Trie<u8, i32> = Trie::new();
    assert_eq!(FetchResult::NoMatch, trie.fetch(Vec::new()));
    assert_eq!(FetchResult::NoMatch, trie.fetch_maybe_pad_start(Vec::new()));
    assert_eq!(FetchResult::NoMatch, trie.fetch("x".into()));
}

#[test]
fn pad_start_reports_whole_sequence_verdict() {
    let mut trie: Trie<u8, i32> = Trie::new();
    trie.insert("xy".into(), 1);
    assert_eq!(FetchResult::MaybeIncomplete, trie.fetch_maybe_pad_start("x".into()));
    assert_eq!(FetchResult::NoMatch, trie.fetch_maybe_pad_start("q".into()));
    assert_eq!(FetchResult::Matched((2, &1)), trie.fetch_maybe_pad_start("qqxy".into()));
}

#[test]
fn keymap_trie_over_keys() {
    let trie = new_keymap_trie(vec![("<space>h", 1), ("jk", 2), ("<bad>", 3)]);
    let space_h = vec![Key::char(' '), Key::char('h')];
    assert_eq!(FetchResult::Matched(&1), trie.fetch(space_h));
    assert_eq!(
        FetchResult::Matched((1, &2)),
        trie.fetch_maybe_pad_start(vec![Key::char('x'), Key::char('j'), Key::char('k')])
    );
    let esc = vec![Key { code: KeyCode::Esc, control: false, alt: false }];
    assert_eq!(FetchResult::NoMatch, trie.fetch(esc));
    assert_eq!(None, str_to_keys("<bad>"));
}
