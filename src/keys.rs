//! Keys, and the notation in which key sequences are written.
//!
//! A sequence is written as literal characters and bracketed tokens:
//! `<space>`, `<CR>`, `<BS>`, `<Esc>` and `<C-x>` (Control and `x`).
use vstd::prelude::*;
use crate::text::chars_of;
use crate::trie::{bind_if_absent, EdgeLabel, Trie};

verus! {

/// The identity of a key, without its modifiers.
#[derive(Clone, Copy, Debug, PartialEq, Eq, Hash, Structural)]
pub enum KeyCode {
    Char(char),
    Enter,
    Backspace,
    Esc,
    Tab,
    Left,
    Right,
    Up,
    Down,
    /// Any key the editor does not act on.
    Other,
}

/// A key with the modifiers that tell bindings apart. Shift is folded into
/// the character; every modifier other than Control counts as `alt`.
#[derive(Clone, Copy, Debug, PartialEq, Eq, Hash, Structural)]
pub struct Key {
    pub code: KeyCode,
    pub control: bool,
    pub alt: bool,
}

impl Key {
    /// The key `code` with no modifier.
    pub open spec fn plain(code: KeyCode) -> Key {
        Key { code, control: false, alt: false }
    }

    /// The unmodified key that types `c`.
    pub fn char(c: char) -> (k: Key)
        ensures
            k == Key::plain(KeyCode::Char(c)),
    {
        Key { code: KeyCode::Char(c), control: false, alt: false }
    }
}

impl EdgeLabel for Key {
    fn same_label(&self, other: &Key) -> (r: bool) {
        *self == *other
    }
}

/// The position of the first `>` in `s` at or after `from`, or `s.len()`.
pub open spec fn close_index(s: Seq<char>, from: int) -> int
    decreases s.len() - from,
{
    if from < 0 || from >= s.len() {
        s.len() as int
    } else if s[from] == '>' {
        from
    } else {
        close_index(s, from + 1)
    }
}

pub proof fn lemma_close_index_bounds(s: Seq<char>, from: int)
    requires
        0 <= from,
    ensures
        from <= close_index(s, from) <= s.len() || (from > s.len() && close_index(s, from) == s.len()),
    decreases s.len() - from,
{
    if from < s.len() && s[from] != '>' {
        lemma_close_index_bounds(s, from + 1);
    }
}

/// The key a bracketed token names.
pub open spec fn token_key(t: Seq<char>) -> Option<Key> {
    if t == seq!['s', 'p', 'a', 'c', 'e'] {
        Some(Key::plain(KeyCode::Char(' ')))
    } else if t == seq!['C', 'R'] {
        Some(Key::plain(KeyCode::Enter))
    } else if t == seq!['B', 'S'] {
        Some(Key::plain(KeyCode::Backspace))
    } else if t == seq!['E', 's', 'c'] {
        Some(Key::plain(KeyCode::Esc))
    } else if t.len() >= 3 && t[0] == 'C' && t[1] == '-' {
        Some(Key { code: KeyCode::Char(t[2]), control: true, alt: false })
    } else {
        None
    }
}

pub open spec fn prepend_keys(ks: Seq<Key>, rest: Option<Seq<Key>>) -> Option<Seq<Key>> {
    match rest {
        Some(r) => Some(ks + r),
        None => None,
    }
}

/// The keys that `s` from position `i` on denotes; `None` where a token is
/// unclosed or unknown.
pub open spec fn parse_keys_from(s: Seq<char>, i: int) -> Option<Seq<Key>>
    decreases s.len() - i,
{
    if i < 0 || i >= s.len() {
        Some(Seq::empty())
    } else if s[i] == '<' {
        let j = close_index(s, i + 1);
        if j >= s.len() {
            None
        } else {
            match token_key(s.subrange(i + 1, j)) {
                Some(k) => {
                    proof {
                        lemma_close_index_bounds(s, i + 1);
                    }
                    prepend_keys(seq![k], parse_keys_from(s, j + 1))
                },
                None => None,
            }
        }
    } else {
        prepend_keys(seq![Key::plain(KeyCode::Char(s[i]))], parse_keys_from(s, i + 1))
    }
}

/// The keys that `s` denotes.
pub open spec fn parse_keys(s: Seq<char>) -> Option<Seq<Key>> {
    parse_keys_from(s, 0)
}

/// The key of the token `cs[start..end]`.
fn token_to_key(cs: &Vec<char>, start: usize, end: usize) -> (r: Option<Key>)
    requires
        start <= end <= cs.len(),
    ensures
        r == token_key(cs@.subrange(start as int, end as int)),
{
    let ghost t = cs@.subrange(start as int, end as int);
    let n = end - start;
    if n == 5 && cs[start] == 's' && cs[start + 1] == 'p' && cs[start + 2] == 'a' && cs[start + 3]
        == 'c' && cs[start + 4] == 'e' {
        proof {
            assert(t =~= seq!['s', 'p', 'a', 'c', 'e']);
        }
        return Some(Key::char(' '));
    }
    if n == 2 && cs[start] == 'C' && cs[start + 1] == 'R' {
        proof {
            assert(t =~= seq!['C', 'R']);
        }
        return Some(Key { code: KeyCode::Enter, control: false, alt: false });
    }
    if n == 2 && cs[start] == 'B' && cs[start + 1] == 'S' {
        proof {
            assert(t =~= seq!['B', 'S']);
        }
        return Some(Key { code: KeyCode::Backspace, control: false, alt: false });
    }
    if n == 3 && cs[start] == 'E' && cs[start + 1] == 's' && cs[start + 2] == 'c' {
        proof {
            assert(t =~= seq!['E', 's', 'c']);
        }
        return Some(Key { code: KeyCode::Esc, control: false, alt: false });
    }
    proof {
        let sp = seq!['s', 'p', 'a', 'c', 'e'];
        assert(sp.len() == 5 && sp[0] == 's' && sp[1] == 'p' && sp[2] == 'a' && sp[3] == 'c' && sp[4] == 'e');
        assert(t != sp) by {
            if t == sp {
                assert(t[0] == cs@[start as int] && t[1] == cs@[start + 1] && t[2] == cs@[start + 2]
                    && t[3] == cs@[start + 3] && t[4] == cs@[start + 4]);
            }
        }
        let cr = seq!['C', 'R'];
        assert(cr.len() == 2 && cr[0] == 'C' && cr[1] == 'R');
        assert(t != cr) by {
            if t == cr {
                assert(t[0] == cs@[start as int] && t[1] == cs@[start + 1]);
            }
        }
        let bs = seq!['B', 'S'];
        assert(bs.len() == 2 && bs[0] == 'B' && bs[1] == 'S');
        assert(t != bs) by {
            if t == bs {
                assert(t[0] == cs@[start as int] && t[1] == cs@[start + 1]);
            }
        }
        let esc = seq!['E', 's', 'c'];
        assert(esc.len() == 3 && esc[0] == 'E' && esc[1] == 's' && esc[2] == 'c');
        assert(t != esc) by {
            if t == esc {
                assert(t[0] == cs@[start as int] && t[1] == cs@[start + 1] && t[2] == cs@[start + 2]);
            }
        }
    }
    if n >= 3 && cs[start] == 'C' && cs[start + 1] == '-' {
        return Some(Key { code: KeyCode::Char(cs[start + 2]), control: true, alt: false });
    }
    None
}

/// Reads a key sequence written in the bracket notation; `None` where a
/// bracket is not closed or names no key.
pub fn str_to_keys(s: &str) -> (r: Option<Vec<Key>>)
    ensures
        match parse_keys(s@) {
            Some(ks) => r is Some && r->0@ == ks,
            None => r is None,
        },
{
    let cs = chars_of(s);
    let mut keys: Vec<Key> = Vec::new();
    let mut i: usize = 0;
    while i < cs.len()
        invariant
            cs@ == s@,
            i <= cs.len(),
            parse_keys_from(cs@, 0) == prepend_keys(keys@, parse_keys_from(cs@, i as int)),
        decreases cs.len() - i,
    {
        if cs[i] == '<' {
            let mut j: usize = i + 1;
            while j < cs.len() && cs[j] != '>'
                invariant
                    i < j <= cs.len(),
                    close_index(cs@, i + 1) == close_index(cs@, j as int),
                decreases cs.len() - j,
            {
                j = j + 1;
            }
            if j >= cs.len() {
                return None;
            }
            match token_to_key(&cs, i + 1, j) {
                Some(k) => {
                    proof {
                        assert(keys@ + (seq![k] + parse_keys_from(cs@, j + 1)->0) =~= keys@.push(k)
                            + parse_keys_from(cs@, j + 1)->0);
                    }
                    keys.push(k);
                    i = j + 1;
                },
                None => {
                    return None;
                },
            }
        } else {
            let k = Key::char(cs[i]);
            proof {
                assert(keys@ + (seq![k] + parse_keys_from(cs@, i + 1)->0) =~= keys@.push(k)
                    + parse_keys_from(cs@, i + 1)->0);
            }
            keys.push(k);
            i = i + 1;
        }
    }
    proof {
        assert(keys@ + Seq::<Key>::empty() =~= keys@);
    }
    Some(keys)
}

/// The bindings a table of written sequences gives, the first of equal
/// sequences winning and unreadable sequences left out.
pub open spec fn keymap_bindings<V>(maps: Seq<(&str, V)>) -> Map<Seq<Key>, V>
    decreases maps.len(),
{
    if maps.len() == 0 {
        Map::empty()
    } else {
        let prev = keymap_bindings(maps.drop_last());
        match parse_keys(maps.last().0@) {
            Some(ks) => bind_if_absent(prev, ks, maps.last().1),
            None => prev,
        }
    }
}

/// Builds a prefix tree from a table of written sequences and their values.
pub fn new_keymap_trie<V: Copy>(maps: Vec<(&str, V)>) -> (t: Trie<Key, V>)
    ensures
        t.wf(),
        t.bindings() == keymap_bindings(maps@),
{
    let mut trie = Trie::new();
    let mut i: usize = 0;
    while i < maps.len()
        invariant
            i <= maps.len(),
            trie.wf(),
            trie.bindings() == keymap_bindings(maps@.subrange(0, i as int)),
        decreases maps.len() - i,
    {
        let (s, v) = maps[i];
        proof {
            let pre = maps@.subrange(0, i as int + 1);
            assert(pre.drop_last() =~= maps@.subrange(0, i as int));
            assert(pre.last() == maps@[i as int]);
        }
        match str_to_keys(s) {
            Some(keys) => {
                trie.insert(keys, v);
            },
            None => {},
        }
        i = i + 1;
    }
    proof {
        assert(maps@.subrange(0, maps.len() as int) =~= maps@);
    }
    trie
}

} // verus!
