//! The editor state and the modal dispatcher that turns key events into
//! edits, mode changes and requests for the host.
//!
//! In Insert mode a typed key is echoed into the buffer at once; in Command
//! mode into the command line. The key then joins the pending sequence,
//! which is looked up in the current mode's key map, discarding leading keys
//! where that lets a binding match. On a match in Insert mode the keys of the
//! matched binding are taken back out of the buffer before its action runs.
use vstd::prelude::*;
use crate::buffer::Buffer;
use crate::command::{lookup_command, parse_command, CommandKind, Commands};
use crate::keys::{keymap_bindings, new_keymap_trie, Key, KeyCode};
use crate::screen::{command_col_after, nav_outcome, Direction, Screen};
use crate::text::{chars_of, string_of};
use crate::trie::{lemma_first_match_range, padded_fetch_model, FetchResult, Trie};
use crate::window::{backspace, backspaces, moved_col, moved_row, typed};

verus! {

/// Spaces that Tab types in Insert mode.
pub const TAB_WIDTH: usize = 4;

#[derive(Clone, Copy, Debug, PartialEq, Eq, Hash, Structural)]
pub enum Mode {
    Normal,
    Insert,
    Command,
}

/// What a key binding does.
#[derive(Clone, Copy, Debug, PartialEq, Eq, Structural)]
pub enum Action {
    MoveLeft,
    MoveDown,
    MoveUp,
    MoveRight,
    QuitWithoutSaving,
    WriteAndQuit,
    Insert,
    InsertAtLineStart,
    Append,
    AppendAtLineEnd,
    OpenBelow,
    OpenAbove,
    LineEnd,
    LineStart,
    EnterCommandMode,
    DeleteLine,
    ChangeLine,
    FocusLeft,
    FocusRight,
    FocusDown,
    FocusUp,
    LeaveInsertMode,
    LeaveCommandMode,
}

/// Work that only the host can do, asked for by the handling of a key.
#[derive(Debug, PartialEq, Eq)]
pub enum Request {
    Nothing,
    /// End the program.
    Quit,
    /// Store `text` in the file of the window with focus, from its start;
    /// then report with `write_done` or `report_error`; then quit if asked to.
    Write { text: String, then_quit: bool },
    /// Read the file at `path` and hand its text to `load_done`.
    Load { path: String },
}

/// The key bindings of Normal mode, as written.
pub open spec fn normal_bindings() -> Seq<(&'static str, Action)> {
    seq![
        ("h", Action::MoveLeft),
        ("j", Action::MoveDown),
        ("k", Action::MoveUp),
        ("l", Action::MoveRight),
        ("ZQ", Action::QuitWithoutSaving),
        ("ZZ", Action::WriteAndQuit),
        ("i", Action::Insert),
        ("I", Action::InsertAtLineStart),
        ("a", Action::Append),
        ("A", Action::AppendAtLineEnd),
        ("o", Action::OpenBelow),
        ("O", Action::OpenAbove),
        ("$", Action::LineEnd),
        ("0", Action::LineStart),
        (":", Action::EnterCommandMode),
        ("dd", Action::DeleteLine),
        ("cc", Action::ChangeLine),
        ("<space>h", Action::FocusLeft),
        ("<space>l", Action::FocusRight),
        ("<space>j", Action::FocusDown),
        ("<space>k", Action::FocusUp),
    ]
}

/// The key bindings of Insert mode, as written.
pub open spec fn insert_bindings() -> Seq<(&'static str, Action)> {
    seq![("jk", Action::LeaveInsertMode), ("<Esc>", Action::LeaveInsertMode)]
}

/// The key bindings of Command mode, as written.
pub open spec fn command_bindings() -> Seq<(&'static str, Action)> {
    seq![("<Esc>", Action::LeaveCommandMode)]
}

/// The commands, by name.
pub open spec fn command_names() -> Seq<(&'static str, CommandKind)> {
    seq![
        ("w", CommandKind::Write),
        ("q", CommandKind::Quit),
        ("q!", CommandKind::ForceQuit),
        ("wq", CommandKind::WriteQuit),
        ("vne", CommandKind::VerticalSplit),
        ("new", CommandKind::HorizontalSplit),
        ("e", CommandKind::Edit),
    ]
}

/// The mode whose key map looks up a key: a command line submitted with
/// Enter returns to Normal mode first.
pub open spec fn lookup_mode(m: Mode, code: KeyCode) -> Mode {
    if m == Mode::Command && code == KeyCode::Enter {
        Mode::Normal
    } else {
        m
    }
}

/// The mode after `a` runs in mode `m`.
pub open spec fn action_mode(m: Mode, a: Action) -> Mode {
    match a {
        Action::Insert | Action::InsertAtLineStart | Action::Append | Action::AppendAtLineEnd
        | Action::OpenBelow | Action::OpenAbove | Action::ChangeLine => Mode::Insert,
        Action::LeaveInsertMode | Action::LeaveCommandMode => Mode::Normal,
        Action::EnterCommandMode => Mode::Command,
        _ => m,
    }
}

/// `a` leaves the focus where it is and the focused text as it is.
pub open spec fn keeps_active_text(a: Action) -> bool {
    !(a is OpenBelow || a is OpenAbove || a is DeleteLine || a is ChangeLine || a is FocusLeft
        || a is FocusRight || a is FocusDown || a is FocusUp)
}

/// The cursor moves and focus moves that `a` makes from `pre` to `post`.
pub open spec fn action_effect(pre: &State, post: &State, a: Action) -> bool {
    let w0 = pre.scr().active_window_spec();
    let w1 = post.scr().active_window_spec();
    let fs = pre.scr().frames();
    let cur = pre.scr().active();
    let next = post.scr().active();
    match a {
        Action::MoveLeft => moved_col(w0, w1, -1),
        Action::MoveRight => moved_col(w0, w1, 1),
        Action::MoveUp => moved_row(w0, w1, -1),
        Action::MoveDown => moved_row(w0, w1, 1),
        Action::FocusLeft => nav_outcome(fs, cur, Direction::Left, next),
        Action::FocusRight => nav_outcome(fs, cur, Direction::Right, next),
        Action::FocusUp => nav_outcome(fs, cur, Direction::Up, next),
        Action::FocusDown => nav_outcome(fs, cur, Direction::Down, next),
        _ => true,
    }
}

/// `n` spaces typed at `p`.
pub open spec fn spaces(text: Seq<Seq<char>>, p: (int, int), n: nat) -> (Seq<Seq<char>>, (int, int))
    decreases n,
{
    if n == 0 {
        (text, p)
    } else {
        let (t, q) = spaces(text, p, (n - 1) as nat);
        typed(t, q, ' ')
    }
}

/// The text and cursor after Insert mode echoes the key `code` at `p`.
pub open spec fn echo(text: Seq<Seq<char>>, p: (int, int), code: KeyCode) -> (Seq<Seq<char>>, (int, int)) {
    match code {
        KeyCode::Char(c) => typed(text, p, c),
        KeyCode::Enter => typed(text, p, '\n'),
        KeyCode::Backspace => backspace(text, p),
        KeyCode::Tab => spaces(text, p, TAB_WIDTH as nat),
        _ => (text, p),
    }
}

/// `a`, then `b`, then `c`.
fn concat3(a: &str, b: &Vec<char>, c: &str) -> (r: Vec<char>)
    ensures
        r@ == a@ + b@ + c@,
{
    let mut r = chars_of(a);
    let mut i: usize = 0;
    while i < b.len()
        invariant
            i <= b.len(),
            r@ == a@ + b@.subrange(0, i as int),
        decreases b.len() - i,
    {
        r.push(b[i]);
        proof {
            assert(b@.subrange(0, i + 1) =~= b@.subrange(0, i as int).push(b@[i as int]));
        }
        i = i + 1;
    }
    let cs = chars_of(c);
    let mut j: usize = 0;
    while j < cs.len()
        invariant
            j <= cs.len(),
            cs@ == c@,
            r@ == a@ + b@ + cs@.subrange(0, j as int),
        decreases cs.len() - j,
    {
        r.push(cs[j]);
        proof {
            assert(cs@.subrange(0, j + 1) =~= cs@.subrange(0, j as int).push(cs@[j as int]));
        }
        j = j + 1;
    }
    proof {
        assert(b@.subrange(0, b.len() as int) =~= b@);
        assert(cs@.subrange(0, cs.len() as int) =~= cs@);
    }
    r
}

/// A copy of the keys `v`.
fn copy_keys(v: &Vec<Key>) -> (r: Vec<Key>)
    ensures
        r@ == v@,
{
    let mut r: Vec<Key> = Vec::new();
    let mut i: usize = 0;
    while i < v.len()
        invariant
            i <= v.len(),
            r@ == v@.subrange(0, i as int),
        decreases v.len() - i,
    {
        r.push(v[i]);
        proof {
            assert(v@.subrange(0, i + 1) =~= v@.subrange(0, i as int).push(v@[i as int]));
        }
        i = i + 1;
    }
    proof {
        assert(v@.subrange(0, v.len() as int) =~= v@);
    }
    r
}

/// The command line after its `:`.
pub open spec fn command_text(msg: Seq<char>) -> Seq<char> {
    if msg.len() > 0 {
        msg.drop_first()
    } else {
        Seq::<char>::empty()
    }
}

/// What running the command `k` with argument `arg` from the state `pre`
/// leads to: the state `post` and the request `r`.
pub open spec fn command_effect(pre: &State, post: &State, k: CommandKind, arg: Option<Seq<char>>, r: Request) -> bool {
    let b = pre.scr().active_window_spec().buf();
    match k {
        CommandKind::Write => match arg {
            None => (b.backing() is None ==> r is Nothing && post.scr().msg_is_error()) && (b.backing() is Some
                ==> (r matches Request::Write { then_quit: false, .. })),
            Some(f) => (r matches Request::Write { then_quit: false, .. })
                && post.scr().active_window_spec().buf().backing() == Some(f),
        },
        CommandKind::Quit => (r is Quit <==> (arg is None && !b.dirty())) && (!(r is Quit) ==> r is Nothing
            && post.scr().msg_is_error()),
        CommandKind::ForceQuit => (r is Quit <==> arg is None) && (arg is Some ==> r is Nothing
            && post.scr().msg_is_error()),
        CommandKind::WriteQuit => match arg {
            None => (b.backing() is None ==> r is Quit) && (b.backing() is Some ==> (r matches Request::Write {
                then_quit: true,
                ..
            })),
            Some(_) => r is Nothing && post.scr().msg_is_error(),
        },
        CommandKind::VerticalSplit => post.scr().wins().len() == pre.scr().wins().len() + 1 && match arg {
            None => r is Nothing,
            Some(f) => r matches Request::Load { path } && path@ == f,
        },
        CommandKind::HorizontalSplit => (pre.scr().active_window_spec().rect().height >= 1 ==> post.scr().wins().len()
            == pre.scr().wins().len() + 1 && match arg {
            None => r is Nothing,
            Some(f) => r matches Request::Load { path } && path@ == f,
        }) && (pre.scr().active_window_spec().rect().height == 0 ==> r is Nothing && post.scr().msg_is_error()),
        CommandKind::Edit => match arg {
            None => r is Nothing && post.scr().msg_is_error(),
            Some(f) => r matches Request::Load { path } && path@ == f,
        },
    }
}

/// A command's effect does not depend on what leaving Command mode changes.
proof fn lemma_command_effect_frame(
    pre: &State,
    a: &State,
    b: &State,
    k: CommandKind,
    arg: Option<Seq<char>>,
    r: Request,
)
    requires
        command_effect(pre, a, k, arg, r),
        b.scr().wins() == a.scr().wins(),
        b.scr().active() == a.scr().active(),
        b.scr().msg_is_error() == a.scr().msg_is_error(),
    ensures
        command_effect(pre, b, k, arg, r),
{
}

/// A change to the window with focus.
enum WinOp {
    MoveRow(isize),
    MoveCol(isize),
    ZeroCol,
    EndOfLine,
    NewLineBelow,
    NewLineAbove,
    DeleteLine,
    ChangeLine,
    TypeChar(char),
    DeleteChars(usize),
}

pub struct State {
    screen: Screen,
    normal_keymap: Trie<Key, Action>,
    insert_keymap: Trie<Key, Action>,
    command_keymap: Trie<Key, Action>,
    commands: Commands,
    current_key_event: Vec<Key>,
    mode: Mode,
}

impl State {
    pub closed spec fn scr(&self) -> Screen {
        self.screen
    }

    /// The key map of mode `m`.
    pub closed spec fn keymap(&self, m: Mode) -> Trie<Key, Action> {
        match m {
            Mode::Normal => self.normal_keymap,
            Mode::Insert => self.insert_keymap,
            Mode::Command => self.command_keymap,
        }
    }

    /// The keys typed since the last resolved action.
    pub closed spec fn pending(&self) -> Seq<Key> {
        self.current_key_event@
    }

    pub closed spec fn mode_spec(&self) -> Mode {
        self.mode
    }

    /// The command table.
    pub closed spec fn table(&self) -> Seq<(Seq<char>, CommandKind)> {
        self.commands.table()
    }

    pub open spec fn active_text(&self) -> Seq<Seq<char>> {
        self.scr().active_window_spec().text()
    }

    pub open spec fn active_pos(&self) -> (int, int) {
        self.scr().active_window_spec().pos()
    }

    pub open spec fn wf(&self) -> bool {
        &&& self.scr().wf()
        &&& self.keymap(Mode::Normal).wf()
        &&& self.keymap(Mode::Insert).wf()
        &&& self.keymap(Mode::Command).wf()
        &&& (self.mode_spec() == Mode::Command ==> self.scr().command_col() is Some)
    }

    /// `self` has the key maps and commands of `other`.
    pub open spec fn same_tables(&self, other: &State) -> bool {
        &&& forall|m: Mode| #[trigger] self.keymap(m) == other.keymap(m)
        &&& self.table() == other.table()
    }

    /// An editor on a terminal of `rows` rows and `cols` columns, in Normal
    /// mode, with one empty window and the standard key maps and commands.
    pub fn init(rows: usize, cols: usize) -> (s: State)
        requires
            rows >= 2,
        ensures
            s.wf(),
            s.mode_spec() == Mode::Normal,
            s.pending() == Seq::<Key>::empty(),
            s.keymap(Mode::Normal).bindings() == keymap_bindings(normal_bindings()),
            s.keymap(Mode::Insert).bindings() == keymap_bindings(insert_bindings()),
            s.keymap(Mode::Command).bindings() == keymap_bindings(command_bindings()),
            s.table() == command_names().map_values(|e: (&str, CommandKind)| (e.0@, e.1)),
            s.scr().wins().len() == 1,
            s.scr().size() == (rows, cols),
            s.active_text() == seq![Seq::<char>::empty()],
            s.scr().active_window_spec().buf().backing() is None,
            s.scr().msg() == Seq::<char>::empty(),
            !s.scr().msg_is_error(),
    {
        let normal = vec![
            ("h", Action::MoveLeft),
            ("j", Action::MoveDown),
            ("k", Action::MoveUp),
            ("l", Action::MoveRight),
            ("ZQ", Action::QuitWithoutSaving),
            ("ZZ", Action::WriteAndQuit),
            ("i", Action::Insert),
            ("I", Action::InsertAtLineStart),
            ("a", Action::Append),
            ("A", Action::AppendAtLineEnd),
            ("o", Action::OpenBelow),
            ("O", Action::OpenAbove),
            ("$", Action::LineEnd),
            ("0", Action::LineStart),
            (":", Action::EnterCommandMode),
            ("dd", Action::DeleteLine),
            ("cc", Action::ChangeLine),
            ("<space>h", Action::FocusLeft),
            ("<space>l", Action::FocusRight),
            ("<space>j", Action::FocusDown),
            ("<space>k", Action::FocusUp),
        ];
        let insert = vec![("jk", Action::LeaveInsertMode), ("<Esc>", Action::LeaveInsertMode)];
        let command = vec![("<Esc>", Action::LeaveCommandMode)];
        let names = vec![
            ("w", CommandKind::Write),
            ("q", CommandKind::Quit),
            ("q!", CommandKind::ForceQuit),
            ("wq", CommandKind::WriteQuit),
            ("vne", CommandKind::VerticalSplit),
            ("new", CommandKind::HorizontalSplit),
            ("e", CommandKind::Edit),
        ];
        proof {
            assert(normal@ =~= normal_bindings());
            assert(insert@ =~= insert_bindings());
            assert(command@ =~= command_bindings());
            assert(names@ =~= command_names());
        }
        let normal_keymap = new_keymap_trie(normal);
        let insert_keymap = new_keymap_trie(insert);
        let command_keymap = new_keymap_trie(command);
        let commands = Commands::new(names);
        State {
            screen: Screen::new(rows, cols),
            normal_keymap,
            insert_keymap,
            command_keymap,
            commands,
            current_key_event: Vec::new(),
            mode: Mode::Normal,
        }
    }

    pub fn screen(&self) -> (r: &Screen)
        ensures
            *r == self.scr(),
    {
        &self.screen
    }

    /// The screen, for a change the caller makes.
    pub fn screen_mut(&mut self) -> (r: &mut Screen)
        ensures
            *r == old(self).scr(),
            final(self).scr() == *final(r),
            final(self).mode_spec() == old(self).mode_spec(),
            final(self).pending() == old(self).pending(),
            final(self).same_tables(old(self)),
    {
        &mut self.screen
    }

    /// The key map of mode `m`.
    pub fn keymaps(&self, m: Mode) -> (r: &Trie<Key, Action>)
        ensures
            *r == self.keymap(m),
    {
        match m {
            Mode::Normal => &self.normal_keymap,
            Mode::Insert => &self.insert_keymap,
            Mode::Command => &self.command_keymap,
        }
    }

    pub fn mode(&self) -> (r: Mode)
        ensures
            r == self.mode_spec(),
    {
        self.mode
    }

    /// The keys typed since the last resolved action.
    pub fn current_key_event(&self) -> (r: &Vec<Key>)
        ensures
            r@ == self.pending(),
    {
        &self.current_key_event
    }

    pub fn clear_current_key_event(&mut self)
        ensures
            final(self).pending() == Seq::<Key>::empty(),
            final(self).scr() == old(self).scr(),
            final(self).mode_spec() == old(self).mode_spec(),
            final(self).same_tables(old(self)),
    {
        self.current_key_event = Vec::new();
    }

    pub fn append_current_key_event(&mut self, c: Key)
        ensures
            final(self).pending() == old(self).pending().push(c),
            final(self).scr() == old(self).scr(),
            final(self).mode_spec() == old(self).mode_spec(),
            final(self).same_tables(old(self)),
    {
        self.current_key_event.push(c);
    }

    pub fn set_current_key_event(&mut self, keys: Vec<Key>)
        ensures
            final(self).pending() == keys@,
            final(self).scr() == old(self).scr(),
            final(self).mode_spec() == old(self).mode_spec(),
            final(self).same_tables(old(self)),
    {
        self.current_key_event = keys;
    }

    /// Applies `op` to the window with focus.
    fn apply(&mut self, op: WinOp)
        requires
            old(self).wf(),
        ensures
            final(self).wf(),
            final(self).mode_spec() == old(self).mode_spec(),
            final(self).pending() == old(self).pending(),
            final(self).same_tables(old(self)),
            final(self).scr().same_lines(&old(self).scr()),
            final(self).scr().active() == old(self).scr().active(),
            final(self).scr().frames() == old(self).scr().frames(),
            final(self).scr().wins().len() == old(self).scr().wins().len(),
            final(self).scr().active_window_spec().buf().same_file(&old(self).scr().active_window_spec().buf()),
            op matches WinOp::TypeChar(c) ==> (final(self).active_text(), final(self).active_pos()) == typed(
                old(self).active_text(),
                old(self).active_pos(),
                c,
            ),
            op matches WinOp::MoveRow(d) ==> moved_row(
                old(self).scr().active_window_spec(),
                final(self).scr().active_window_spec(),
                d as int,
            ),
            op matches WinOp::MoveCol(d) ==> moved_col(
                old(self).scr().active_window_spec(),
                final(self).scr().active_window_spec(),
                d as int,
            ),
            op matches WinOp::DeleteChars(n) ==> (final(self).active_text(), final(self).active_pos())
                == backspaces(old(self).active_text(), old(self).active_pos(), n as nat),
            (op is MoveRow || op is MoveCol || op is ZeroCol || op is EndOfLine)
                ==> final(self).scr().active_window_spec().buf() == old(self).scr().active_window_spec().buf(),
    {
        let ghost pre = self.screen;
        match op {
            WinOp::MoveRow(d) => self.screen.active_window_mut().move_cursor_row(d),
            WinOp::MoveCol(d) => self.screen.active_window_mut().move_cursor_col(d),
            WinOp::ZeroCol => self.screen.active_window_mut().zero_cursor_col(),
            WinOp::EndOfLine => self.screen.active_window_mut().move_cursor_end_of_line(),
            WinOp::NewLineBelow => self.screen.active_window_mut().new_line_below(),
            WinOp::NewLineAbove => self.screen.active_window_mut().new_line_above(),
            WinOp::DeleteLine => self.screen.active_window_mut().delete_line(),
            WinOp::ChangeLine => self.screen.active_window_mut().change_line(),
            WinOp::TypeChar(c) => self.screen.active_window_mut().type_char(c),
            WinOp::DeleteChars(n) => self.screen.active_window_mut().delete_chars(n),
        }
        proof {
            Screen::lemma_active_update(pre, self.screen, self.screen.active_window_spec());
        }
    }

    /// Enters Insert mode and says so on the message line.
    pub fn enter_insert_mode(&mut self)
        requires
            old(self).wf(),
        ensures
            final(self).wf(),
            final(self).mode_spec() == Mode::Insert,
            final(self).pending() == old(self).pending(),
            final(self).same_tables(old(self)),
            final(self).scr().same_windows(&old(self).scr()),
            final(self).scr().command_col() == old(self).scr().command_col(),
    {
        self.mode = Mode::Insert;
        self.screen.set_message(chars_of("-- INSERT --"));
    }

    /// Returns to Normal mode; the cursor steps back onto the last character typed.
    pub fn enter_normal_mode(&mut self)
        requires
            old(self).wf(),
        ensures
            final(self).wf(),
            final(self).mode_spec() == Mode::Normal,
            final(self).pending() == old(self).pending(),
            final(self).same_tables(old(self)),
            final(self).scr().active() == old(self).scr().active(),
            final(self).scr().wins().len() == old(self).scr().wins().len(),
            final(self).scr().active_window_spec().buf() == old(self).scr().active_window_spec().buf(),
    {
        self.mode = Mode::Normal;
        self.screen.set_message(Vec::new());
        self.apply(WinOp::MoveCol(-1));
    }

    /// Enters Command mode with an empty command line.
    pub fn enter_command_mode(&mut self)
        requires
            old(self).wf(),
        ensures
            final(self).wf(),
            final(self).mode_spec() == Mode::Command,
            final(self).pending() == old(self).pending(),
            final(self).same_tables(old(self)),
            final(self).scr().same_windows(&old(self).scr()),
            final(self).scr().msg() == seq![':'],
    {
        self.mode = Mode::Command;
        self.screen.enter_command_mode();
    }

    /// Leaves Command mode for Normal mode.
    pub fn leave_command_mode(&mut self)
        requires
            old(self).wf(),
        ensures
            final(self).wf(),
            final(self).mode_spec() == Mode::Normal,
            final(self).pending() == old(self).pending(),
            final(self).same_tables(old(self)),
            final(self).scr().same_windows(&old(self).scr()),
            final(self).scr().command_col() is None,
            final(self).scr().msg_is_error() == old(self).scr().msg_is_error(),
    {
        self.mode = Mode::Normal;
        self.screen.leave_command_mode();
    }

    /// Asks for the buffer with focus to be stored; a scratch buffer gets an
    /// error message instead, and a quit all the same when `then_quit`.
    fn write_request(&mut self, then_quit: bool) -> (r: Request)
        requires
            old(self).wf(),
        ensures
            final(self).wf(),
            final(self).mode_spec() == old(self).mode_spec(),
            final(self).pending() == old(self).pending(),
            final(self).same_tables(old(self)),
            final(self).scr().same_windows(&old(self).scr()),
            final(self).scr().command_col() == old(self).scr().command_col(),
            old(self).scr().active_window_spec().buf().backing() is Some ==> (r matches Request::Write {
                text,
                then_quit: q,
            } && q == then_quit && text@ == crate::buffer::serialized(
                old(self).active_text(),
                old(self).scr().active_window_spec().buf().trailing_newline(),
            )),
            old(self).scr().active_window_spec().buf().backing() is None ==> final(self).scr().msg_is_error()
                && (if then_quit {
                r is Quit
            } else {
                r is Nothing
            }),
    {
        match self.screen.active_window().write() {
            Ok(text) => Request::Write { text, then_quit },
            Err(e) => {
                self.screen.set_error_message(chars_of(e.as_str()));
                if then_quit {
                    Request::Quit
                } else {
                    Request::Nothing
                }
            },
        }
    }

    /// Runs the command `k` with the argument `arg`.
    fn run_command(&mut self, k: CommandKind, arg: Option<Vec<char>>) -> (r: Request)
        requires
            old(self).wf(),
        ensures
            final(self).wf(),
            final(self).mode_spec() == old(self).mode_spec(),
            final(self).pending() == old(self).pending(),
            final(self).same_tables(old(self)),
            command_effect(old(self), final(self), k, crate::command::opt_view(arg), r),
    {
        match k {
            CommandKind::Write => {
                if let Some(a) = arg {
                    let ghost pre = self.screen;
                    self.screen.active_window_mut().set_path(string_of(&a));
                    proof {
                        Screen::lemma_active_update(pre, self.screen, self.screen.active_window_spec());
                    }
                }
                self.write_request(false)
            },
            CommandKind::Quit => {
                if let Some(a) = arg {
                    self.screen.set_error_message(concat3("unexpected chars: `", &a, "`"));
                    Request::Nothing
                } else if self.screen.active_window().buffer().unsaved_changes() {
                    self.screen.set_error_message(chars_of("no write since last change"));
                    Request::Nothing
                } else {
                    Request::Quit
                }
            },
            CommandKind::ForceQuit => {
                if let Some(a) = arg {
                    self.screen.set_error_message(concat3("unexpected chars: `", &a, "`"));
                    Request::Nothing
                } else {
                    Request::Quit
                }
            },
            CommandKind::WriteQuit => {
                if let Some(a) = arg {
                    self.screen.set_error_message(concat3("unexpected chars: `", &a, "`"));
                    Request::Nothing
                } else {
                    self.write_request(true)
                }
            },
            CommandKind::VerticalSplit => {
                self.screen.new_vertical_split();
                match arg {
                    Some(a) => Request::Load { path: string_of(&a) },
                    None => Request::Nothing,
                }
            },
            CommandKind::HorizontalSplit => {
                if self.screen.active_window().height() == 0 {
                    self.screen.set_error_message(chars_of("not enough room"));
                    return Request::Nothing;
                }
                self.screen.new_horizontal_split();
                match arg {
                    Some(a) => Request::Load { path: string_of(&a) },
                    None => Request::Nothing,
                }
            },
            CommandKind::Edit => match arg {
                Some(a) => Request::Load { path: string_of(&a) },
                None => {
                    self.screen.set_error_message(chars_of("no file name"));
                    Request::Nothing
                },
            },
        }
    }

    /// Runs the command on the command line, then leaves Command mode; an
    /// unknown command is reported on the message line.
    pub fn enter_command(&mut self) -> (r: Request)
        requires
            old(self).wf(),
        ensures
            final(self).wf(),
            final(self).mode_spec() == Mode::Normal,
            final(self).pending() == old(self).pending(),
            final(self).same_tables(old(self)),
            final(self).scr().command_col() is None,
            ({
                let (name, arg) = parse_command(command_text(old(self).scr().msg()));
                match lookup_command(old(self).table(), name, old(self).table().len() as int) {
                    Some(k) => command_effect(old(self), final(self), k, arg, r),
                    None => r is Nothing && final(self).scr().msg_is_error(),
                }
            }),
    {
        let cmd = self.screen.get_curr_command();
        let ghost kind = lookup_command(self.table(), parse_command(cmd@).0, self.table().len() as int);
        let ghost arg_view = parse_command(cmd@).1;
        let r = match self.commands.get(&cmd) {
            Some((k, arg)) => self.run_command(k, arg),
            None => {
                self.screen.set_error_message(concat3("Unknown command `", &cmd, "`"));
                Request::Nothing
            },
        };
        let ghost mid = *self;
        self.leave_command_mode();
        proof {
            if let Some(k) = kind {
                lemma_command_effect_frame(old(self), &mid, self, k, arg_view, r);
            }
        }
        r
    }

    /// Handles one key event. Control-modified keys are ignored; arrows
    /// move the cursor directly. Any other key is echoed (in Insert mode into
    /// the buffer, in Command mode into the command line), joins the pending
    /// sequence, and is looked up in the current mode's key map: on a match
    /// Insert mode takes the matched keys back out of the buffer, the action
    /// runs and the pending sequence empties; on no match its first key is
    /// dropped; an incomplete sequence waits for more keys.
    pub fn handle_key_event(&mut self, key: Key) -> (r: Request)
        requires
            old(self).wf(),
        ensures
            final(self).wf(),
            final(self).same_tables(old(self)),
            key.control ==> *final(self) == *old(self) && r is Nothing,
            !key.control && (key.code is Left || key.code is Right || key.code is Up || key.code is Down
                || key.code is Other) ==> {
                &&& final(self).pending() == old(self).pending()
                &&& final(self).mode_spec() == old(self).mode_spec()
                &&& final(self).scr().active() == old(self).scr().active()
                &&& final(self).active_text() == old(self).active_text()
                &&& r is Nothing
            },
            !key.control && key.code is Other ==> *final(self) == *old(self),
            !key.control && old(self).mode_spec() != Mode::Command ==> {
                let w0 = old(self).scr().active_window_spec();
                let w1 = final(self).scr().active_window_spec();
                &&& key.code is Left ==> moved_col(w0, w1, -1)
                &&& key.code is Right ==> moved_col(w0, w1, 1)
                &&& key.code is Up ==> moved_row(w0, w1, -1)
                &&& key.code is Down ==> moved_row(w0, w1, 1)
            },
            !key.control && old(self).mode_spec() == Mode::Command ==> {
                let col = old(self).scr().command_col()->0;
                let len = old(self).scr().msg().len();
                &&& key.code is Left ==> final(self).scr().command_col() == Some(command_col_after(col, -1, len))
                &&& key.code is Right ==> final(self).scr().command_col() == Some(command_col_after(col, 1, len))
                &&& (key.code is Left || key.code is Right) ==> final(self).scr().wins() == old(self).scr().wins()
                    && final(self).scr().msg() == old(self).scr().msg()
                &&& (key.code is Up || key.code is Down) ==> *final(self) == *old(self)
            },
            !key.control && (key.code is Char || key.code is Enter || key.code is Backspace || key.code is Tab
                || key.code is Esc) ==> {
                let mid = lookup_mode(old(self).mode_spec(), key.code);
                let p = old(self).pending().push(key);
                let res = padded_fetch_model(old(self).keymap(mid).bindings(), p);
                let (echo_text, echo_pos) = echo(old(self).active_text(), old(self).active_pos(), key.code);
                &&& (res matches FetchResult::Matched((i, a)) ==> final(self).pending() == Seq::<Key>::empty()
                    && final(self).mode_spec() == action_mode(mid, a))
                &&& (res is NoMatch ==> final(self).pending() == p.drop_first() && final(self).mode_spec() == mid)
                &&& (res is MaybeIncomplete ==> final(self).pending() == p && final(self).mode_spec() == mid)
                &&& (old(self).mode_spec() == Mode::Insert && !(res is Matched) ==> final(self).active_text() == echo_text
                    && final(self).active_pos() == echo_pos && final(self).scr().active() == old(self).scr().active())
                &&& (old(self).mode_spec() == Mode::Insert ==> (res matches FetchResult::Matched((i, a))
                    ==> keeps_active_text(a) ==> final(self).active_text() == backspaces(echo_text, echo_pos, (p.len() - i) as nat).0
                    && final(self).scr().active() == old(self).scr().active()))
                &&& (res matches FetchResult::Matched((_, a)) ==> a is QuitWithoutSaving ==> r is Quit)
                &&& (old(self).mode_spec() == Mode::Normal && !(res is Matched) ==> final(self).scr() == old(self).scr())
                &&& (old(self).mode_spec() == Mode::Normal ==> (res matches FetchResult::Matched((_, a))
                    ==> action_effect(old(self), final(self), a)))
                &&& (old(self).mode_spec() == Mode::Normal ==> (res matches FetchResult::Matched((_, a))
                    ==> keeps_active_text(a) ==> final(self).active_text() == old(self).active_text()
                    && final(self).scr().active() == old(self).scr().active()))
                &&& (old(self).mode_spec() == Mode::Command && !(res is Matched) ==> (key.code matches KeyCode::Char(
                    c,
                ) ==> final(self).scr().msg() == old(self).scr().msg().push(c)
                    && final(self).scr().wins() == old(self).scr().wins()))
                &&& (old(self).mode_spec() == Mode::Command && key.code is Enter && !(res is Matched) ==> {
                    let (name, arg) = parse_command(command_text(old(self).scr().msg()));
                    match lookup_command(old(self).table(), name, old(self).table().len() as int) {
                        Some(k) => command_effect(old(self), final(self), k, arg, r),
                        None => r is Nothing && final(self).scr().msg_is_error(),
                    }
                })
            },
    {
        if key.control {
            return Request::Nothing;
        }
        match key.code {
            KeyCode::Left => {
                if self.mode == Mode::Command {
                    self.screen.command_move_cursor(-1);
                } else {
                    self.apply(WinOp::MoveCol(-1));
                }
                return Request::Nothing;
            },
            KeyCode::Right => {
                if self.mode == Mode::Command {
                    self.screen.command_move_cursor(1);
                } else {
                    self.apply(WinOp::MoveCol(1));
                }
                return Request::Nothing;
            },
            KeyCode::Up => {
                if self.mode != Mode::Command {
                    self.apply(WinOp::MoveRow(-1));
                }
                return Request::Nothing;
            },
            KeyCode::Down => {
                if self.mode != Mode::Command {
                    self.apply(WinOp::MoveRow(1));
                }
                return Request::Nothing;
            },
            KeyCode::Other => {
                return Request::Nothing;
            },
            _ => {},
        }
        let mut request = Request::Nothing;
        if self.mode == Mode::Insert {
            match key.code {
                KeyCode::Tab => {
                    let ghost text0 = self.active_text();
                    let ghost pos0 = self.active_pos();
                    let ghost s0 = *self;
                    let mut n: usize = 0;
                    while n < TAB_WIDTH
                        invariant
                            n <= TAB_WIDTH,
                            self.wf(),
                            self.mode_spec() == s0.mode_spec(),
                            self.pending() == s0.pending(),
                            self.same_tables(&s0),
                            self.scr().active() == s0.scr().active(),
                            (self.active_text(), self.active_pos()) == spaces(text0, pos0, n as nat),
                        decreases TAB_WIDTH - n,
                    {
                        self.apply(WinOp::TypeChar(' '));
                        n = n + 1;
                    }
                },
                KeyCode::Backspace => {
                    self.apply(WinOp::DeleteChars(1));
                    proof {
                        assert(backspaces(old(self).active_text(), old(self).active_pos(), 1) == backspace(
                            old(self).active_text(),
                            old(self).active_pos(),
                        )) by {
                            assert(backspaces(old(self).active_text(), old(self).active_pos(), 0) == (
                                old(self).active_text(),
                                old(self).active_pos(),
                            ));
                        }
                    }
                },
                KeyCode::Enter => self.apply(WinOp::TypeChar('\n')),
                KeyCode::Char(c) => self.apply(WinOp::TypeChar(c)),
                _ => {},
            }
        } else if self.mode == Mode::Command {
            match key.code {
                KeyCode::Backspace => self.screen.command_delete_char(),
                KeyCode::Enter => {
                    request = self.enter_command();
                },
                KeyCode::Char(c) => self.screen.command_type_char(c),
                _ => {},
            }
        }
        let ghost echoed = *self;
        self.current_key_event.push(key);
        let pending = copy_keys(&self.current_key_event);
        let found = match self.keymaps(self.mode).fetch_maybe_pad_start(pending) {
            FetchResult::Matched((i, a)) => FetchResult::Matched((i, *a)),
            FetchResult::NoMatch => FetchResult::NoMatch,
            FetchResult::MaybeIncomplete => FetchResult::MaybeIncomplete,
        };
        proof {
            let m = self.keymap(self.mode_spec()).bindings();
            lemma_first_match_range(m, self.pending(), 0);
        }
        match found {
            FetchResult::Matched((i, a)) => {
                if self.mode == Mode::Insert {
                    let len = self.current_key_event.len();
                    self.apply(WinOp::DeleteChars(len - i));
                }
                let r2 = self.execute(a);
                if let Request::Nothing = r2 {
                } else {
                    request = r2;
                }
                self.current_key_event = Vec::new();
            },
            FetchResult::NoMatch => {
                self.current_key_event.remove(0);
            },
            FetchResult::MaybeIncomplete => {},
        }
        proof {
            if !(found is Matched) && old(self).mode_spec() == Mode::Command && key.code is Enter {
                let (name, arg) = parse_command(command_text(old(self).scr().msg()));
                if let Some(k) = lookup_command(old(self).table(), name, old(self).table().len() as int) {
                    lemma_command_effect_frame(old(self), &echoed, &*self, k, arg, request);
                }
            }
        }
        request
    }

    /// Reports a stored buffer: it is no longer dirty, and the message line
    /// says where it went.
    pub fn write_done(&mut self)
        requires
            old(self).wf(),
        ensures
            final(self).wf(),
            final(self).mode_spec() == old(self).mode_spec(),
            final(self).pending() == old(self).pending(),
            final(self).same_tables(old(self)),
            !final(self).scr().active_window_spec().buf().dirty(),
            final(self).active_text() == old(self).active_text(),
            !final(self).scr().msg_is_error(),
    {
        let ghost pre = self.screen;
        self.screen.active_window_mut().mark_written();
        proof {
            Screen::lemma_active_update(pre, self.screen, self.screen.active_window_spec());
        }
        let name = chars_of(self.screen.active_window().buffer().filename());
        self.screen.set_message(concat3("\"", &name, "\" written"));
    }

    /// Shows in the window with focus the file at `path`, whose text is `contents`.
    pub fn load_done(&mut self, path: String, contents: &str)
        requires
            old(self).wf(),
        ensures
            final(self).wf(),
            final(self).mode_spec() == old(self).mode_spec(),
            final(self).pending() == old(self).pending(),
            final(self).same_tables(old(self)),
            final(self).active_text() == crate::buffer::load_lines(contents@),
            final(self).scr().active_window_spec().buf().backing() == Some(path@),
            final(self).active_pos() == (0int, 0int),
    {
        let ghost pre = self.screen;
        let b = Buffer::from_filepath(path, contents);
        self.screen.active_window_mut().load_file(b);
        proof {
            Screen::lemma_active_update(pre, self.screen, self.screen.active_window_spec());
        }
    }

    /// Shows `message` on the message line as an error.
    pub fn report_error(&mut self, message: &str)
        requires
            old(self).wf(),
        ensures
            final(self).wf(),
            final(self).mode_spec() == old(self).mode_spec(),
            final(self).pending() == old(self).pending(),
            final(self).same_tables(old(self)),
            final(self).scr().msg() == message@,
            final(self).scr().msg_is_error(),
    {
        self.screen.set_error_message(chars_of(message));
    }

    /// Runs the action of a key binding.
    fn execute(&mut self, a: Action) -> (r: Request)
        requires
            old(self).wf(),
        ensures
            final(self).wf(),
            final(self).mode_spec() == action_mode(old(self).mode_spec(), a),
            final(self).pending() == old(self).pending(),
            final(self).same_tables(old(self)),
            keeps_active_text(a) ==> final(self).scr().active() == old(self).scr().active()
                && final(self).active_text() == old(self).active_text(),
            action_effect(old(self), final(self), a),
            a is QuitWithoutSaving ==> r is Quit,
            a is WriteAndQuit ==> (old(self).scr().active_window_spec().buf().backing() is None ==> r is Quit)
                && (old(self).scr().active_window_spec().buf().backing() is Some ==> (r matches Request::Write {
                then_quit: true,
                ..
            })),
            !(a is QuitWithoutSaving || a is WriteAndQuit) ==> r is Nothing,
    {
        match a {
            Action::MoveLeft => self.apply(WinOp::MoveCol(-1)),
            Action::MoveDown => self.apply(WinOp::MoveRow(1)),
            Action::MoveUp => self.apply(WinOp::MoveRow(-1)),
            Action::MoveRight => self.apply(WinOp::MoveCol(1)),
            Action::QuitWithoutSaving => {
                return Request::Quit;
            },
            Action::WriteAndQuit => {
                return self.write_request(true);
            },
            Action::Insert => self.enter_insert_mode(),
            Action::InsertAtLineStart => {
                self.apply(WinOp::ZeroCol);
                self.enter_insert_mode();
            },
            Action::Append => {
                self.enter_insert_mode();
                self.apply(WinOp::MoveCol(1));
            },
            Action::AppendAtLineEnd => {
                self.enter_insert_mode();
                self.apply(WinOp::EndOfLine);
            },
            Action::OpenBelow => {
                self.apply(WinOp::NewLineBelow);
                self.enter_insert_mode();
            },
            Action::OpenAbove => {
                self.apply(WinOp::NewLineAbove);
                self.enter_insert_mode();
            },
            Action::LineEnd => self.apply(WinOp::EndOfLine),
            Action::LineStart => self.apply(WinOp::ZeroCol),
            Action::EnterCommandMode => self.enter_command_mode(),
            Action::DeleteLine => self.apply(WinOp::DeleteLine),
            Action::ChangeLine => {
                self.apply(WinOp::ChangeLine);
                self.enter_insert_mode();
            },
            Action::FocusLeft => self.screen.move_to_left_window(),
            Action::FocusRight => self.screen.move_to_right_window(),
            Action::FocusDown => self.screen.move_to_down_window(),
            Action::FocusUp => self.screen.move_to_up_window(),
            Action::LeaveInsertMode => self.enter_normal_mode(),
            Action::LeaveCommandMode => self.leave_command_mode(),
        }
        Request::Nothing
    }
}

} // verus!
