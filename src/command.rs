//! The table of `:` commands, and how a command line names one.
//!
//! A command line is trimmed of white space; up to its first space it names
//! the command, and what follows that space is the command's argument.
use vstd::prelude::*;
use crate::text::chars_of;

verus! {

/// The commands the editor knows.
#[derive(Clone, Copy, Debug, PartialEq, Eq, Structural)]
pub enum CommandKind {
    /// Store the buffer, in the named file if one is given.
    Write,
    /// Quit, unless there are unsaved changes.
    Quit,
    /// Quit whatever the state of the buffer.
    ForceQuit,
    /// Store the buffer, then quit.
    WriteQuit,
    /// Split side by side, loading the named file into the new window.
    VerticalSplit,
    /// Split one above the other, loading the named file into the new window.
    HorizontalSplit,
    /// Load the named file into the window with focus.
    Edit,
}

/// Unicode white space, as `char::is_whitespace` documents it.
pub open spec fn is_space(c: char) -> bool {
    let u = c as u32;
    ||| 0x9 <= u <= 0xD
    ||| u == 0x20
    ||| u == 0x85
    ||| u == 0xA0
    ||| u == 0x1680
    ||| 0x2000 <= u <= 0x200A
    ||| u == 0x2028
    ||| u == 0x2029
    ||| u == 0x202F
    ||| u == 0x205F
    ||| u == 0x3000
}

/// Unicode white space.
pub fn char_is_space(c: char) -> (r: bool)
    ensures
        r == is_space(c),
{
    let u = c as u32;
    (0x9 <= u && u <= 0xD) || u == 0x20 || u == 0x85 || u == 0xA0 || u == 0x1680 || (0x2000 <= u
        && u <= 0x200A) || u == 0x2028 || u == 0x2029 || u == 0x202F || u == 0x205F || u == 0x3000
}

/// The first position at or after `i` that holds no white space, or `s.len()`.
pub open spec fn lead(s: Seq<char>, i: int) -> int
    decreases s.len() - i,
{
    if i < 0 || i >= s.len() || !is_space(s[i]) {
        i
    } else {
        lead(s, i + 1)
    }
}

/// The end of `s[lo..j]` once white space at its end is dropped.
pub open spec fn trail(s: Seq<char>, lo: int, j: int) -> int
    decreases j - lo,
{
    if j <= lo || j > s.len() || !is_space(s[j - 1]) {
        j
    } else {
        trail(s, lo, j - 1)
    }
}

/// `s` without white space at either end.
pub open spec fn trimmed(s: Seq<char>) -> Seq<char> {
    let a = lead(s, 0);
    s.subrange(a, trail(s, a, s.len() as int))
}

/// The first position at or after `i` that holds a space, or `s.len()`.
pub open spec fn space_at(s: Seq<char>, i: int) -> int
    decreases s.len() - i,
{
    if i < 0 || i >= s.len() || s[i] == ' ' {
        i
    } else {
        space_at(s, i + 1)
    }
}

/// The name and the argument a command line holds.
pub open spec fn parse_command(s: Seq<char>) -> (Seq<char>, Option<Seq<char>>) {
    let t = trimmed(s);
    let k = space_at(t, 0);
    if k < t.len() {
        (t.subrange(0, k), Some(t.subrange(k + 1, t.len() as int)))
    } else {
        (t, None)
    }
}

/// The command registered last under `name` among the first `n` entries.
pub open spec fn lookup_command(table: Seq<(Seq<char>, CommandKind)>, name: Seq<char>, n: int) -> Option<
    CommandKind,
>
    decreases n,
{
    if n <= 0 || n > table.len() {
        None
    } else if table[n - 1].0 == name {
        Some(table[n - 1].1)
    } else {
        lookup_command(table, name, n - 1)
    }
}

pub open spec fn opt_view(o: Option<Vec<char>>) -> Option<Seq<char>> {
    match o {
        Some(v) => Some(v@),
        None => None,
    }
}

/// The characters `s[from..to]`.
fn copy_range(s: &Vec<char>, from: usize, to: usize) -> (r: Vec<char>)
    requires
        from <= to <= s.len(),
    ensures
        r@ == s@.subrange(from as int, to as int),
{
    let mut r = Vec::new();
    let mut i = from;
    while i < to
        invariant
            from <= i <= to <= s.len(),
            r@ == s@.subrange(from as int, i as int),
        decreases to - i,
    {
        r.push(s[i]);
        proof {
            assert(s@.subrange(from as int, i + 1) =~= s@.subrange(from as int, i as int).push(s@[i as int]));
        }
        i = i + 1;
    }
    r
}

/// Splits a command line into the command's name and its argument.
pub fn split_command(line: &Vec<char>) -> (r: (Vec<char>, Option<Vec<char>>))
    ensures
        (r.0@, opt_view(r.1)) == parse_command(line@),
{
    let ghost s = line@;
    let mut a: usize = 0;
    while a < line.len() && char_is_space(line[a])
        invariant
            s == line@,
            a <= line.len(),
            lead(s, 0) == lead(s, a as int),
        decreases line.len() - a,
    {
        a = a + 1;
    }
    let mut b: usize = line.len();
    while b > a && char_is_space(line[b - 1])
        invariant
            s == line@,
            a <= b <= line.len(),
            trail(s, a as int, s.len() as int) == trail(s, a as int, b as int),
        decreases b - a,
    {
        b = b - 1;
    }
    let t = copy_range(line, a, b);
    let mut k: usize = 0;
    while k < t.len() && t[k] != ' '
        invariant
            k <= t.len(),
            space_at(t@, 0) == space_at(t@, k as int),
        decreases t.len() - k,
    {
        k = k + 1;
    }
    if k < t.len() {
        let name = copy_range(&t, 0, k);
        let arg = copy_range(&t, k + 1, t.len());
        (name, Some(arg))
    } else {
        proof {
            assert(t@.subrange(0, t.len() as int) =~= t@);
        }
        let name = copy_range(&t, 0, t.len());
        (name, None)
    }
}

/// Two character vectors hold the same characters.
fn same_chars(a: &Vec<char>, b: &Vec<char>) -> (r: bool)
    ensures
        r == (a@ == b@),
{
    if a.len() != b.len() {
        return false;
    }
    let mut i: usize = 0;
    while i < a.len()
        invariant
            a.len() == b.len(),
            i <= a.len(),
            forall|j: int| 0 <= j < i ==> a@[j] == b@[j],
        decreases a.len() - i,
    {
        if a[i] != b[i] {
            return false;
        }
        i = i + 1;
    }
    proof {
        assert(a@ =~= b@);
    }
    true
}

pub struct Commands {
    commands: Vec<(Vec<char>, CommandKind)>,
}

impl Commands {
    /// The registered names and commands, in order of registration.
    pub closed spec fn table(&self) -> Seq<(Seq<char>, CommandKind)> {
        self.commands@.map_values(|e: (Vec<char>, CommandKind)| (e.0@, e.1))
    }

    /// A table of the commands `maps` names; a name registered twice means
    /// the later command.
    pub fn new(maps: Vec<(&str, CommandKind)>) -> (c: Commands)
        ensures
            c.table() == maps@.map_values(|e: (&str, CommandKind)| (e.0@, e.1)),
    {
        let mut commands: Vec<(Vec<char>, CommandKind)> = Vec::new();
        let mut i: usize = 0;
        while i < maps.len()
            invariant
                i <= maps.len(),
                commands.len() == i,
                forall|j: int| 0 <= j < i ==> (#[trigger] commands@[j]).0@ == maps@[j].0@ && commands@[j].1
                    == maps@[j].1,
            decreases maps.len() - i,
        {
            let (name, kind) = maps[i];
            let cs = chars_of(name);
            commands.push((cs, kind));
            i = i + 1;
        }
        let c = Commands { commands };
        proof {
            assert(c.table() =~= maps@.map_values(|e: (&str, CommandKind)| (e.0@, e.1)));
        }
        c
    }

    /// The command that the command line `key` names, and its argument.
    pub fn get(&self, key: &Vec<char>) -> (r: Option<(CommandKind, Option<Vec<char>>)>)
        ensures
            match lookup_command(self.table(), parse_command(key@).0, self.table().len() as int) {
                Some(k) => r matches Some((k2, a)) && k2 == k && opt_view(a) == parse_command(key@).1,
                None => r is None,
            },
    {
        let (name, arg) = split_command(key);
        let mut j: usize = self.commands.len();
        while j > 0
            invariant
                j <= self.commands.len(),
                name@ == parse_command(key@).0,
                opt_view(arg) == parse_command(key@).1,
                lookup_command(self.table(), name@, self.table().len() as int) == lookup_command(
                    self.table(),
                    name@,
                    j as int,
                ),
            decreases j,
        {
            proof {
                assert(self.table()[j - 1] == (self.commands@[j - 1].0@, self.commands@[j - 1].1));
            }
            if same_chars(&self.commands[j - 1].0, &name) {
                return Some((self.commands[j - 1].1, arg));
            }
            j = j - 1;
        }
        None
    }
}

} // verus!
