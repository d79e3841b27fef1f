//! The screen: windows that split the editing area between them, the one
//! that has focus, and the message line below them, which doubles as the
//! command line.
use vstd::prelude::*;
use crate::window::{Frame, Window};

verus! {

/// A direction to move the focus in.
#[derive(Clone, Copy, Debug, PartialEq, Eq, Structural)]
pub enum Direction {
    Left,
    Right,
    Up,
    Down,
}

/// The rows `f` takes up, its status line included, meet those of `g`.
pub open spec fn rows_meet(f: Frame, g: Frame) -> bool {
    f.top <= g.top + g.height && g.top <= f.top + f.height
}

/// The columns of `f` meet those of `g`.
pub open spec fn cols_meet(f: Frame, g: Frame) -> bool {
    f.width > 0 && g.width > 0 && f.left < g.left + g.width && g.left < f.left + f.width
}

pub open spec fn disjoint(f: Frame, g: Frame) -> bool {
    !(rows_meet(f, g) && cols_meet(f, g))
}

/// `f`, with its status line, lies in a screen of `rows` rows and `cols` columns.
pub open spec fn within(f: Frame, rows: usize, cols: usize) -> bool {
    f.top + f.height < rows && f.left + f.width <= cols
}

/// Every frame lies on the screen and no two overlap.
pub open spec fn frames_ok(fs: Seq<Frame>, rows: usize, cols: usize) -> bool {
    &&& forall|i: int| 0 <= i < fs.len() ==> within(#[trigger] fs[i], rows, cols)
    &&& forall|i: int, j: int| 0 <= i < j < fs.len() ==> disjoint(#[trigger] fs[i], #[trigger] fs[j])
}

/// `f`'s near edge touches the far edge of `active` in direction `d`.
pub open spec fn abuts(active: Frame, f: Frame, d: Direction) -> bool {
    match d {
        Direction::Left => f.left + f.width == active.left,
        Direction::Right => f.left == active.left + active.width,
        Direction::Up => f.top + f.height + 1 == active.top,
        Direction::Down => f.top == active.top + active.height + 1,
    }
}

/// How far `f`'s origin lies from `active`'s across direction `d`.
pub open spec fn distance(active: Frame, f: Frame, d: Direction) -> int {
    let (a, b) = match d {
        Direction::Left | Direction::Right => (active.top as int, f.top as int),
        Direction::Up | Direction::Down => (active.left as int, f.left as int),
    };
    if a >= b {
        a - b
    } else {
        b - a
    }
}

/// Window `i` is one the focus may move to from window `cur` in direction `d`.
pub open spec fn is_candidate(fs: Seq<Frame>, cur: int, i: int, d: Direction) -> bool {
    0 <= i < fs.len() && i != cur && abuts(fs[cur], fs[i], d)
}

/// Window `i` is the candidate nearest to `cur`, the first such one.
pub open spec fn is_nav_target(fs: Seq<Frame>, cur: int, i: int, d: Direction) -> bool {
    &&& is_candidate(fs, cur, i, d)
    &&& forall|j: int| #[trigger]
        is_candidate(fs, cur, j, d) ==> distance(fs[cur], fs[i], d) <= distance(fs[cur], fs[j], d)
    &&& forall|j: int|
        0 <= j < i && #[trigger] is_candidate(fs, cur, j, d) ==> distance(fs[cur], fs[i], d) < distance(
            fs[cur],
            fs[j],
            d,
        )
}

/// Moving the focus from `cur` in direction `d` lands on `next`: the
/// nearest candidate, or `cur` itself when there is none.
pub open spec fn nav_outcome(fs: Seq<Frame>, cur: int, d: Direction, next: int) -> bool {
    ||| is_nav_target(fs, cur, next, d)
    ||| (next == cur && forall|j: int| !#[trigger] is_candidate(fs, cur, j, d))
}

/// The frames after splitting window `cur` side by side: it keeps the left
/// half, the new window placed last takes the right half and any odd column.
pub open spec fn split_vertical_frames(fs: Seq<Frame>, cur: int) -> Seq<Frame> {
    let f = fs[cur];
    let wa = (f.width / 2) as usize;
    let wb = (f.width - wa) as usize;
    fs.update(cur, Frame { width: wa, ..f }).push(
        Frame { top: f.top, left: (f.left + wa) as usize, height: f.height, width: wb },
    )
}

/// The frames after splitting window `cur` one above the other: it keeps the
/// upper half, the new window placed last takes the rest below the upper
/// half's status line.
pub open spec fn split_horizontal_frames(fs: Seq<Frame>, cur: int) -> Seq<Frame> {
    let f = fs[cur];
    let ha = (f.height / 2) as usize;
    let hb = (f.height - ha) as usize;
    fs.update(cur, Frame { height: ha, ..f }).push(
        Frame { top: (f.top + ha + 1) as usize, left: f.left, height: (hb - 1) as usize, width: f.width },
    )
}

/// With one window, no move of the focus goes anywhere.
pub proof fn lemma_single_window_navigation(f: Frame, d: Direction, next: int)
    requires
        nav_outcome(seq![f], 0, d, next),
    ensures
        next == 0,
{
    if is_nav_target(seq![f], 0, next, d) {
        assert(is_candidate(seq![f], 0, next, d));
    }
}

/// Splitting a lone window side by side, then moving the focus right and
/// then left, brings the focus back to the window that was split.
pub proof fn lemma_split_then_right_left(f: Frame, a2: int, a3: int)
    requires
        f.width >= 1,
        f.left + f.width <= usize::MAX,
        nav_outcome(split_vertical_frames(seq![f], 0), 1, Direction::Right, a2),
        nav_outcome(split_vertical_frames(seq![f], 0), a2, Direction::Left, a3),
    ensures
        a2 == 1,
        a3 == 0,
{
    let fs = split_vertical_frames(seq![f], 0);
    let wa = (f.width / 2) as usize;
    let wb = (f.width - wa) as usize;
    assert(fs.len() == 2);
    assert(fs[0] == Frame { width: wa, ..f });
    assert(fs[1] == Frame { top: f.top, left: (f.left + wa) as usize, height: f.height, width: wb });
    if is_nav_target(fs, 1, a2, Direction::Right) {
        assert(is_candidate(fs, 1, a2, Direction::Right));
        assert(a2 == 0);
    }
    assert(a2 == 1);
    assert(is_candidate(fs, 1, 0, Direction::Left));
    if is_nav_target(fs, 1, a3, Direction::Left) {
        assert(a3 == 0);
    }
}

/// The command-line cursor column after moving `col` by `rl` on a line of
/// `len` characters: never before column 1 nor past the end.
pub open spec fn command_col_after(col: usize, rl: int, len: nat) -> usize {
    (if col + rl < 1 {
        1
    } else if col + rl > len {
        len as int
    } else {
        col + rl
    }) as usize
}

pub struct Screen {
    windows: Vec<Window>,
    cur_window: usize,
    command_mode_cursor: Option<usize>,
    message: Vec<char>,
    message_is_error: bool,
    rows: usize,
    cols: usize,
}

impl Screen {
    pub closed spec fn wins(&self) -> Seq<Window> {
        self.windows@
    }

    /// The index of the window with focus.
    pub closed spec fn active(&self) -> int {
        self.cur_window as int
    }

    /// The message line.
    pub closed spec fn msg(&self) -> Seq<char> {
        self.message@
    }

    pub closed spec fn msg_is_error(&self) -> bool {
        self.message_is_error
    }

    /// The cursor column on the command line, while a command is typed.
    pub closed spec fn command_col(&self) -> Option<usize> {
        self.command_mode_cursor
    }

    /// Terminal rows and columns.
    pub closed spec fn size(&self) -> (usize, usize) {
        (self.rows, self.cols)
    }

    pub open spec fn frames(&self) -> Seq<Frame> {
        self.wins().map_values(|w: Window| w.rect())
    }

    pub open spec fn active_window_spec(&self) -> Window {
        self.wins()[self.active()]
    }

    pub open spec fn wf(&self) -> bool {
        &&& self.wins().len() >= 1
        &&& 0 <= self.active() < self.wins().len()
        &&& forall|i: int| 0 <= i < self.wins().len() ==> #[trigger] self.wins()[i].wf()
        &&& frames_ok(self.frames(), self.size().0, self.size().1)
    }

    /// `self` and `other` have the same message line and size.
    pub open spec fn same_lines(&self, other: &Screen) -> bool {
        &&& self.msg() == other.msg()
        &&& self.msg_is_error() == other.msg_is_error()
        &&& self.command_col() == other.command_col()
        &&& self.size() == other.size()
    }

    /// Replacing the window with focus by one in the same frame keeps the
    /// screen well formed.
    pub proof fn lemma_active_update(pre: Screen, post: Screen, w: Window)
        requires
            pre.wf(),
            w.wf(),
            w.rect() == pre.active_window_spec().rect(),
            post.wins() == pre.wins().update(pre.active(), w),
            post.active() == pre.active(),
            post.size() == pre.size(),
        ensures
            post.wf(),
            post.frames() == pre.frames(),
    {
        assert(post.frames() =~= pre.frames());
    }

    /// A screen of `rows` terminal rows and `cols` columns with one empty
    /// window over all of it but the status and message lines.
    pub fn new(rows: usize, cols: usize) -> (s: Screen)
        requires
            rows >= 2,
        ensures
            s.wf(),
            s.wins().len() == 1,
            s.active() == 0,
            s.frames() == seq![Frame { top: 0, left: 0, height: (rows - 2) as usize, width: cols }],
            s.wins()[0].text() == seq![Seq::<char>::empty()],
            s.wins()[0].buf().backing() is None,
            s.msg() == Seq::<char>::empty(),
            !s.msg_is_error(),
            s.command_col() is None,
            s.size() == (rows, cols),
    {
        let w = Window::new(rows - 2, cols, (0, 0));
        let mut windows = Vec::new();
        windows.push(w);
        let s = Screen {
            windows,
            cur_window: 0,
            command_mode_cursor: None,
            message: Vec::new(),
            message_is_error: false,
            rows,
            cols,
        };
        proof {
            assert(s.frames() =~= seq![w.rect()]);
        }
        s
    }

    pub fn active_window(&self) -> (r: &Window)
        requires
            self.wf(),
        ensures
            *r == self.active_window_spec(),
    {
        &self.windows[self.cur_window]
    }

    /// The window with focus, for a change that the caller makes.
    pub fn active_window_mut(&mut self) -> (r: &mut Window)
        requires
            old(self).wf(),
        ensures
            *r == old(self).active_window_spec(),
            final(self).wins() == old(self).wins().update(old(self).active(), *final(r)),
            final(self).active() == old(self).active(),
            final(self).same_lines(old(self)),
    {
        &mut self.windows[self.cur_window]
    }

    pub fn windows(&self) -> (r: &Vec<Window>)
        ensures
            r@ == self.wins(),
    {
        &self.windows
    }

    pub fn active_index(&self) -> (r: usize)
        ensures
            r == self.active(),
    {
        self.cur_window
    }

    /// Terminal rows and columns.
    pub fn dimensions(&self) -> (r: (usize, usize))
        ensures
            r == self.size(),
    {
        (self.rows, self.cols)
    }

    /// Splits the window with focus side by side; the new, empty window on
    /// the right takes the focus.
    pub fn new_vertical_split(&mut self)
        requires
            old(self).wf(),
        ensures
            final(self).wf(),
            final(self).frames() == split_vertical_frames(old(self).frames(), old(self).active()),
            final(self).active() == old(self).wins().len(),
            final(self).wins().len() == old(self).wins().len() + 1,
            forall|i: int| 0 <= i < old(self).wins().len() && i != old(self).active()
                ==> #[trigger] final(self).wins()[i] == old(self).wins()[i],
            final(self).wins()[old(self).active()].buf() == old(self).active_window_spec().buf(),
            final(self).wins()[old(self).active()].pos() == old(self).active_window_spec().pos(),
            final(self).active_window_spec().text() == seq![Seq::<char>::empty()],
            final(self).active_window_spec().buf().backing() is None,
            final(self).same_lines(old(self)),
    {
        let ghost pre = *self;
        let ghost fs = pre.frames();
        let cur = self.cur_window;
        let f = self.windows[cur].frame();
        let wa = f.width / 2;
        let wb = f.width - wa;
        assert(within(fs[cur as int], pre.size().0, pre.size().1));
        let new_window = Window::new(f.height, wb, (f.top, f.left + wa));
        self.windows[cur].set_width(wa);
        self.windows.push(new_window);
        self.cur_window = self.windows.len() - 1;
        proof {
            let post = *self;
            assert(post.frames() =~= split_vertical_frames(fs, cur as int));
            let nf = post.frames();
            assert forall|i: int, j: int| 0 <= i < j < nf.len() implies disjoint(#[trigger] nf[i], #[trigger] nf[j]) by {
                if j == nf.len() - 1 && i != cur {
                    assert(disjoint(fs[i], fs[cur as int]) || disjoint(fs[cur as int], fs[i]));
                } else if i == cur && j != nf.len() - 1 {
                    assert(disjoint(fs[cur as int], fs[j]));
                } else if j == cur {
                    assert(disjoint(fs[i], fs[cur as int]));
                } else if i != cur && j != nf.len() - 1 {
                    assert(disjoint(fs[i], fs[j]));
                }
            }
            assert forall|i: int| 0 <= i < post.wins().len() implies #[trigger] post.wins()[i].wf() by {
                if i < pre.wins().len() {
                    assert(pre.wins()[i].wf());
                }
            }
        }
    }

    /// Splits the window with focus one above the other; the new, empty
    /// window below takes the focus.
    pub fn new_horizontal_split(&mut self)
        requires
            old(self).wf(),
            old(self).active_window_spec().rect().height >= 1,
        ensures
            final(self).wf(),
            final(self).frames() == split_horizontal_frames(old(self).frames(), old(self).active()),
            final(self).active() == old(self).wins().len(),
            final(self).wins().len() == old(self).wins().len() + 1,
            forall|i: int| 0 <= i < old(self).wins().len() && i != old(self).active()
                ==> #[trigger] final(self).wins()[i] == old(self).wins()[i],
            final(self).wins()[old(self).active()].buf() == old(self).active_window_spec().buf(),
            final(self).wins()[old(self).active()].pos() == old(self).active_window_spec().pos(),
            final(self).active_window_spec().text() == seq![Seq::<char>::empty()],
            final(self).active_window_spec().buf().backing() is None,
            final(self).same_lines(old(self)),
    {
        let ghost pre = *self;
        let ghost fs = pre.frames();
        let cur = self.cur_window;
        let f = self.windows[cur].frame();
        let ha = f.height / 2;
        let hb = f.height - ha;
        assert(within(fs[cur as int], pre.size().0, pre.size().1));
        let new_window = Window::new(hb - 1, f.width, (f.top + ha + 1, f.left));
        self.windows[cur].set_height(ha);
        self.windows.push(new_window);
        self.cur_window = self.windows.len() - 1;
        proof {
            let post = *self;
            assert(post.frames() =~= split_horizontal_frames(fs, cur as int));
            let nf = post.frames();
            assert forall|i: int, j: int| 0 <= i < j < nf.len() implies disjoint(#[trigger] nf[i], #[trigger] nf[j]) by {
                if j == nf.len() - 1 && i != cur {
                    assert(disjoint(fs[i], fs[cur as int]) || disjoint(fs[cur as int], fs[i]));
                } else if i == cur && j != nf.len() - 1 {
                    assert(disjoint(fs[cur as int], fs[j]));
                } else if j == cur {
                    assert(disjoint(fs[i], fs[cur as int]));
                } else if i != cur && j != nf.len() - 1 {
                    assert(disjoint(fs[i], fs[j]));
                }
            }
            assert forall|i: int| 0 <= i < post.wins().len() implies #[trigger] post.wins()[i].wf() by {
                if i < pre.wins().len() {
                    assert(pre.wins()[i].wf());
                }
            }
        }
    }

    /// Moves the focus to the nearest window whose edge touches the focused
    /// window's edge in direction `d`; stays put when there is none.
    pub fn navigate(&mut self, d: Direction)
        requires
            old(self).wf(),
        ensures
            final(self).wf(),
            nav_outcome(old(self).frames(), old(self).active(), d, final(self).active()),
            final(self).wins() == old(self).wins(),
            final(self).same_lines(old(self)),
    {
        let ghost fs = self.frames();
        let cur = self.cur_window;
        let a = self.windows[cur].frame();
        let mut best: Option<usize> = None;
        let mut i: usize = 0;
        while i < self.windows.len()
            invariant
                fs == self.frames(),
                self.wf(),
                cur == self.active(),
                a == fs[cur as int],
                i <= fs.len(),
                match best {
                    Some(b) => {
                        &&& b < i
                        &&& is_candidate(fs, cur as int, b as int, d)
                        &&& forall|j: int| 0 <= j < i && #[trigger] is_candidate(fs, cur as int, j, d)
                            ==> distance(a, fs[b as int], d) <= distance(a, fs[j], d)
                        &&& forall|j: int| 0 <= j < b && #[trigger] is_candidate(fs, cur as int, j, d)
                            ==> distance(a, fs[b as int], d) < distance(a, fs[j], d)
                    },
                    None => forall|j: int| 0 <= j < i ==> !#[trigger] is_candidate(fs, cur as int, j, d),
                },
            decreases fs.len() - i,
        {
            let f = self.windows[i].frame();
            assert(within(fs[i as int], self.size().0, self.size().1));
            assert(within(fs[cur as int], self.size().0, self.size().1));
            let touches = match d {
                Direction::Left => f.left + f.width == a.left,
                Direction::Right => f.left == a.left + a.width,
                Direction::Up => f.top + f.height + 1 == a.top,
                Direction::Down => f.top == a.top + a.height + 1,
            };
            if i != cur && touches {
                let dist = match d {
                    Direction::Left | Direction::Right => if a.top >= f.top {
                        a.top - f.top
                    } else {
                        f.top - a.top
                    },
                    Direction::Up | Direction::Down => if a.left >= f.left {
                        a.left - f.left
                    } else {
                        f.left - a.left
                    },
                };
                assert(dist == distance(a, fs[i as int], d));
                match best {
                    Some(b) => {
                        let g = self.windows[b].frame();
                        let bdist = match d {
                            Direction::Left | Direction::Right => if a.top >= g.top {
                                a.top - g.top
                            } else {
                                g.top - a.top
                            },
                            Direction::Up | Direction::Down => if a.left >= g.left {
                                a.left - g.left
                            } else {
                                g.left - a.left
                            },
                        };
                        assert(bdist == distance(a, fs[b as int], d));
                        if dist < bdist {
                            best = Some(i);
                        }
                    },
                    None => {
                        best = Some(i);
                    },
                }
            }
            i = i + 1;
        }
        if let Some(b) = best {
            self.cur_window = b;
        }
    }

    /// `self` and `other` have the same windows, focus and size.
    pub open spec fn same_windows(&self, other: &Screen) -> bool {
        &&& self.wins() == other.wins()
        &&& self.active() == other.active()
        &&& self.size() == other.size()
    }

    /// Shows `message` on the message line.
    pub fn set_message(&mut self, message: Vec<char>)
        ensures
            final(self).msg() == message@,
            !final(self).msg_is_error(),
            final(self).command_col() == old(self).command_col(),
            final(self).same_windows(old(self)),
    {
        self.message = message;
        self.message_is_error = false;
    }

    /// Shows `message` on the message line as an error.
    pub fn set_error_message(&mut self, message: Vec<char>)
        ensures
            final(self).msg() == message@,
            final(self).msg_is_error(),
            final(self).command_col() == old(self).command_col(),
            final(self).same_windows(old(self)),
    {
        self.message = message;
        self.message_is_error = true;
    }

    /// Starts a command line: the message line reads `:` and the cursor
    /// stands after it.
    pub fn enter_command_mode(&mut self)
        ensures
            final(self).msg() == seq![':'],
            !final(self).msg_is_error(),
            final(self).command_col() == Some(1usize),
            final(self).same_windows(old(self)),
    {
        let mut m = Vec::new();
        m.push(':');
        self.message = m;
        self.message_is_error = false;
        self.command_mode_cursor = Some(1);
    }

    /// Ends the command line; a message line still holding a command is cleared.
    pub fn leave_command_mode(&mut self)
        ensures
            final(self).command_col() is None,
            final(self).msg() == if old(self).msg().len() > 0 && old(self).msg()[0] == ':' {
                Seq::<char>::empty()
            } else {
                old(self).msg()
            },
            final(self).msg_is_error() == old(self).msg_is_error(),
            final(self).same_windows(old(self)),
    {
        self.command_mode_cursor = None;
        if self.message.len() > 0 && self.message[0] == ':' {
            self.message = Vec::new();
        }
    }

    /// Moves the command-line cursor `rl` columns, keeping it after the `:`
    /// and no further than the end of the line.
    pub fn command_move_cursor(&mut self, rl: isize)
        requires
            old(self).command_col() is Some,
        ensures
            final(self).command_col() == Some(
                command_col_after(old(self).command_col()->0, rl as int, old(self).msg().len()),
            ),
            final(self).msg() == old(self).msg(),
            final(self).msg_is_error() == old(self).msg_is_error(),
            final(self).same_windows(old(self)),
    {
        let old_col = match self.command_mode_cursor {
            Some(c) => c,
            None => 1,
        };
        let new_col = old_col as i128 + rl as i128;
        if new_col < 1 {
            self.command_mode_cursor = Some(1);
        } else if new_col > self.message.len() as i128 {
            self.command_mode_cursor = Some(self.message.len());
        } else {
            self.command_mode_cursor = Some(new_col as usize);
        }
    }

    /// Types `c` at the end of the command line.
    pub fn command_type_char(&mut self, c: char)
        requires
            old(self).command_col() is Some,
        ensures
            final(self).msg() == old(self).msg().push(c),
            final(self).command_col() == Some(
                command_col_after(old(self).command_col()->0, 1, old(self).msg().len() + 1),
            ),
            final(self).msg_is_error() == old(self).msg_is_error(),
            final(self).same_windows(old(self)),
    {
        self.message.push(c);
        self.command_move_cursor(1);
    }

    /// Removes the last character of the command line, never its `:`.
    pub fn command_delete_char(&mut self)
        requires
            old(self).command_col() is Some,
        ensures
            old(self).msg().len() <= 1 ==> final(self).msg() == old(self).msg() && final(self).command_col()
                == old(self).command_col(),
            old(self).msg().len() > 1 ==> final(self).msg() == old(self).msg().drop_last()
                && final(self).command_col() == Some(
                command_col_after(old(self).command_col()->0, -1, (old(self).msg().len() - 1) as nat),
            ),
            final(self).msg_is_error() == old(self).msg_is_error(),
            final(self).same_windows(old(self)),
    {
        if self.message.len() > 1 {
            self.message.pop();
            self.command_move_cursor(-1);
        }
    }

    /// The command typed so far: the message line after its `:`.
    pub fn get_curr_command(&self) -> (r: Vec<char>)
        ensures
            r@ == if self.msg().len() > 0 {
                self.msg().drop_first()
            } else {
                Seq::<char>::empty()
            },
    {
        let mut r = Vec::new();
        if self.message.len() == 0 {
            return r;
        }
        let mut i: usize = 1;
        while i < self.message.len()
            invariant
                1 <= i <= self.message.len(),
                r@ == self.message@.subrange(1, i as int),
            decreases self.message.len() - i,
        {
            r.push(self.message[i]);
            proof {
                assert(self.message@.subrange(1, i + 1) =~= self.message@.subrange(1, i as int).push(
                    self.message@[i as int],
                ));
            }
            i = i + 1;
        }
        proof {
            assert(self.message@.subrange(1, self.message.len() as int) =~= self.message@.drop_first());
        }
        r
    }

    /// The message line.
    pub fn message(&self) -> (r: &Vec<char>)
        ensures
            r@ == self.msg(),
    {
        &self.message
    }

    pub fn message_is_error(&self) -> (r: bool)
        ensures
            r == self.msg_is_error(),
    {
        self.message_is_error
    }

    /// The command-line cursor column, while a command is typed.
    pub fn command_cursor(&self) -> (r: Option<usize>)
        ensures
            r == self.command_col(),
    {
        self.command_mode_cursor
    }

    pub fn move_to_left_window(&mut self)
        requires
            old(self).wf(),
        ensures
            final(self).wf(),
            nav_outcome(old(self).frames(), old(self).active(), Direction::Left, final(self).active()),
            final(self).wins() == old(self).wins(),
            final(self).same_lines(old(self)),
    {
        self.navigate(Direction::Left)
    }

    pub fn move_to_right_window(&mut self)
        requires
            old(self).wf(),
        ensures
            final(self).wf(),
            nav_outcome(old(self).frames(), old(self).active(), Direction::Right, final(self).active()),
            final(self).wins() == old(self).wins(),
            final(self).same_lines(old(self)),
    {
        self.navigate(Direction::Right)
    }

    pub fn move_to_up_window(&mut self)
        requires
            old(self).wf(),
        ensures
            final(self).wf(),
            nav_outcome(old(self).frames(), old(self).active(), Direction::Up, final(self).active()),
            final(self).wins() == old(self).wins(),
            final(self).same_lines(old(self)),
    {
        self.navigate(Direction::Up)
    }

    pub fn move_to_down_window(&mut self)
        requires
            old(self).wf(),
        ensures
            final(self).wf(),
            nav_outcome(old(self).frames(), old(self).active(), Direction::Down, final(self).active()),
            final(self).wins() == old(self).wins(),
            final(self).same_lines(old(self)),
    {
        self.navigate(Direction::Down)
    }
}

} // verus!
