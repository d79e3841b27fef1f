//! A window: one buffer seen through a screen rectangle, with a cursor
//! relative to the rectangle and a scroll offset on each axis.
//!
//! The buffer position of the cursor is the screen cursor plus the offset.
//! Every move clamps that position into the text and scrolls so that the
//! screen cursor stays inside the usable area.
use vstd::prelude::*;
use crate::buffer::Buffer;

verus! {

/// Columns on the left of a window reserved for line numbers, not counting
/// the separator after them.
pub const SIDEBAR_LEN: usize = 4;

/// A screen rectangle: its top-left corner, its text rows (a status line
/// follows them) and its columns.
#[derive(Clone, Copy, Debug, PartialEq, Eq, Structural)]
pub struct Frame {
    pub top: usize,
    pub left: usize,
    pub height: usize,
    pub width: usize,
}

/// The last screen row a cursor may use in a window of `height` rows.
pub open spec fn max_screen_row(height: usize) -> int {
    if height > 0 {
        height - 1
    } else {
        0
    }
}

/// The last screen column a cursor may use in a window of `width` columns:
/// the sidebar, its separator and one spare column are not usable.
pub open spec fn max_screen_col(width: usize) -> int {
    if width > SIDEBAR_LEN + 2 {
        width - SIDEBAR_LEN - 2
    } else {
        0
    }
}

/// One axis of a move: the screen coordinate `pos` is wanted with scroll
/// offset `off`, the buffer coordinate may not pass `limit`, and the screen
/// coordinate may not pass `extent`. Answers the new screen coordinate and
/// offset: a target before the screen start is taken from the offset, one past
/// the extent is added to it.
pub open spec fn clamp_axis(pos: int, off: int, limit: int, extent: int) -> (int, int) {
    let t = if limit - off < pos {
        limit - off
    } else {
        pos
    };
    if t < 0 {
        (0, if off + t > 0 {
            off + t
        } else {
            0
        })
    } else if t > extent {
        (extent, off + (t - extent))
    } else {
        (t, off)
    }
}

/// `b` clamped into `[0, limit]`.
pub open spec fn clamp(b: int, limit: int) -> int {
    if b < 0 {
        0
    } else if b > limit {
        limit
    } else {
        b
    }
}

/// On each axis the cursor lands on screen, and at the buffer coordinate it
/// aimed at, clamped into the text.
pub proof fn lemma_clamp_axis(pos: int, off: int, limit: int, extent: int)
    requires
        off >= 0,
        limit >= 0,
        extent >= 0,
    ensures
        0 <= clamp_axis(pos, off, limit, extent).0 <= extent,
        clamp_axis(pos, off, limit, extent).1 >= 0,
        clamp_axis(pos, off, limit, extent).0 + clamp_axis(pos, off, limit, extent).1 == clamp(
            pos + off,
            limit,
        ),
{
}

/// The text after one backspace at buffer position `p`, and where the cursor
/// goes: the character before the cursor is removed, or at the start of a
/// line the line is joined onto the one above.
pub open spec fn backspace(text: Seq<Seq<char>>, p: (int, int)) -> (Seq<Seq<char>>, (int, int)) {
    let (r, c) = p;
    if c == 0 {
        if r == 0 {
            (text, p)
        } else {
            (text.update(r - 1, text[r - 1] + text[r]).remove(r), (r - 1, text[r - 1].len() as int))
        }
    } else {
        (text.update(r, text[r].remove(c - 1)), (r, c - 1))
    }
}

/// The text after typing `c` at buffer position `p`, and where the cursor
/// goes: a newline breaks the line and moves to the start of the next one;
/// any other character is inserted and the cursor moves past it.
pub open spec fn typed(text: Seq<Seq<char>>, p: (int, int), c: char) -> (Seq<Seq<char>>, (int, int)) {
    let (r, k) = p;
    let line = text[r];
    if c == '\n' {
        (text.update(r, line.subrange(0, k)).insert(r + 1, line.subrange(k, line.len() as int)), (r + 1, 0))
    } else {
        (text.update(r, line.insert(k, c)), (r, k + 1))
    }
}

/// `n` backspaces in a row.
pub open spec fn backspaces(text: Seq<Seq<char>>, p: (int, int), n: nat) -> (Seq<Seq<char>>, (int, int))
    decreases n,
{
    if n == 0 {
        (text, p)
    } else {
        let (t, q) = backspaces(text, p, (n - 1) as nat);
        backspace(t, q)
    }
}

/// `w1` is `w0` after moving the cursor `du` rows: the row axis is placed for
/// the wanted screen row, then the column kept within the line reached.
pub open spec fn moved_row(w0: Window, w1: Window, du: int) -> bool {
    &&& (w1.screen().0, w1.scroll().0) == clamp_axis(
        w0.screen().0 + du,
        w0.scroll().0,
        w0.text().len() - 1,
        max_screen_row(w0.rect().height),
    )
    &&& (w1.screen().1, w1.scroll().1) == clamp_axis(
        w0.screen().1,
        w0.scroll().1,
        w0.text()[w1.pos().0].len() as int,
        max_screen_col(w0.rect().width),
    )
    &&& w1.same_but_cursor(&w0)
}

/// `w1` is `w0` after moving the cursor `rl` columns within its line.
pub open spec fn moved_col(w0: Window, w1: Window, rl: int) -> bool {
    &&& (w1.screen().1, w1.scroll().1) == clamp_axis(
        w0.screen().1 + rl,
        w0.scroll().1,
        w0.text()[w0.pos().0].len() as int,
        max_screen_col(w0.rect().width),
    )
    &&& w1.screen().0 == w0.screen().0
    &&& w1.scroll().0 == w0.scroll().0
    &&& w1.same_but_cursor(&w0)
}

/// Whatever the deltas, a row move or a column move from a well-formed
/// window leaves the cursor on an existing line, at one of its characters or
/// just past its end.
pub proof fn lemma_moves_stay_in_text(w0: Window, w1: Window, du: int, rl: int)
    requires
        w0.wf(),
    ensures
        moved_row(w0, w1, du) ==> w1.wf(),
        moved_col(w0, w1, rl) ==> w1.wf(),
{
    if moved_row(w0, w1, du) {
        lemma_clamp_axis(w0.screen().0 + du, w0.scroll().0, w0.text().len() - 1, max_screen_row(w0.rect().height));
        lemma_clamp_axis(w0.screen().1, w0.scroll().1, w0.text()[w1.pos().0].len() as int,
            max_screen_col(w0.rect().width));
    }
    if moved_col(w0, w1, rl) {
        lemma_clamp_axis(w0.screen().1 + rl, w0.scroll().1, w0.text()[w0.pos().0].len() as int,
            max_screen_col(w0.rect().width));
    }
}

pub struct Window {
    buffer: Buffer,
    /// (row, col) relative to the frame
    cursor: (usize, usize),
    offset: (usize, usize),
    frame: Frame,
}

impl Window {
    pub closed spec fn buf(&self) -> Buffer {
        self.buffer
    }

    /// The cursor, relative to the frame.
    pub closed spec fn screen(&self) -> (int, int) {
        (self.cursor.0 as int, self.cursor.1 as int)
    }

    /// The scroll offset on each axis.
    pub closed spec fn scroll(&self) -> (int, int) {
        (self.offset.0 as int, self.offset.1 as int)
    }

    pub closed spec fn rect(&self) -> Frame {
        self.frame
    }

    /// The buffer position of the cursor.
    pub open spec fn pos(&self) -> (int, int) {
        (self.screen().0 + self.scroll().0, self.screen().1 + self.scroll().1)
    }

    pub open spec fn text(&self) -> Seq<Seq<char>> {
        self.buf().text()
    }

    /// The cursor addresses an existing line, and a character of it or the
    /// end of it.
    pub open spec fn wf(&self) -> bool {
        &&& self.buf().wf()
        &&& 0 <= self.pos().0 < self.text().len()
        &&& 0 <= self.pos().1 <= self.text()[self.pos().0].len()
    }

    /// The screen cursor lies in the usable area of the frame.
    pub open spec fn on_screen(&self) -> bool {
        &&& self.screen().0 <= max_screen_row(self.rect().height)
        &&& self.screen().1 <= max_screen_col(self.rect().width)
    }

    /// `self` and `other` differ at most in the cursor and scroll offset.
    pub open spec fn same_but_cursor(&self, other: &Window) -> bool {
        &&& self.buf() == other.buf()
        &&& self.rect() == other.rect()
    }

    /// An empty scratch window of `height` rows and `width` columns with its
    /// top-left corner at `loc`.
    pub fn new(height: usize, width: usize, loc: (usize, usize)) -> (w: Window)
        ensures
            w.wf(),
            w.text() == seq![Seq::<char>::empty()],
            w.buf().backing() is None,
            !w.buf().dirty(),
            w.screen() == (0int, 0int),
            w.scroll() == (0int, 0int),
            w.rect() == (Frame { top: loc.0, left: loc.1, height, width }),
    {
        let buffer = Buffer::from_string("");
        proof {
            reveal_strlit("");
            assert(buffer.text() == seq![Seq::<char>::empty()]) by {
                crate::buffer::lemma_split_from(""@, 0);
                crate::buffer::lemma_line_end(""@, 0);
                assert(""@.subrange(0, 0) =~= Seq::<char>::empty());
            }
        }
        Window {
            buffer,
            cursor: (0, 0),
            offset: (0, 0),
            frame: Frame { top: loc.0, left: loc.1, height, width },
        }
    }

    fn max_row(&self) -> (r: usize)
        ensures
            r == max_screen_row(self.frame.height),
    {
        if self.frame.height > 0 {
            self.frame.height - 1
        } else {
            0
        }
    }

    fn max_col(&self) -> (r: usize)
        ensures
            r == max_screen_col(self.frame.width),
    {
        if self.frame.width > SIDEBAR_LEN + 2 {
            self.frame.width - SIDEBAR_LEN - 2
        } else {
            0
        }
    }

    /// Places the row axis for the wanted screen row `pos`.
    fn place_row(&mut self, pos: i128)
        requires
            old(self).buf().wf(),
        ensures
            (final(self).screen().0, final(self).scroll().0) == clamp_axis(
                pos as int,
                old(self).scroll().0,
                old(self).text().len() - 1,
                max_screen_row(old(self).rect().height),
            ),
            final(self).screen().1 == old(self).screen().1,
            final(self).scroll().1 == old(self).scroll().1,
            final(self).same_but_cursor(old(self)),
            0 <= final(self).pos().0 < final(self).text().len(),
            final(self).screen().0 <= max_screen_row(final(self).rect().height),
    {
        let count = self.buffer.line_count();
        let limit = (count - 1) as i128;
        let off = self.offset.0 as i128;
        let ext = self.max_row() as i128;
        proof {
            lemma_clamp_axis(pos as int, off as int, limit as int, ext as int);
        }
        let t = if limit - off < pos {
            limit - off
        } else {
            pos
        };
        if t < 0 {
            let o = off + t;
            self.cursor.0 = 0;
            self.offset.0 = if o > 0 {
                o as usize
            } else {
                0
            };
        } else if t > ext {
            self.cursor.0 = ext as usize;
            self.offset.0 = (off + (t - ext)) as usize;
        } else {
            self.cursor.0 = t as usize;
        }
    }

    /// Places the column axis for the wanted screen column `pos`, within the
    /// line the cursor is on.
    fn place_col(&mut self, pos: i128)
        requires
            old(self).buf().wf(),
            0 <= old(self).pos().0 < old(self).text().len(),
        ensures
            (final(self).screen().1, final(self).scroll().1) == clamp_axis(
                pos as int,
                old(self).scroll().1,
                old(self).text()[old(self).pos().0].len() as int,
                max_screen_col(old(self).rect().width),
            ),
            final(self).screen().0 == old(self).screen().0,
            final(self).scroll().0 == old(self).scroll().0,
            final(self).same_but_cursor(old(self)),
            final(self).wf(),
            final(self).screen().1 <= max_screen_col(final(self).rect().width),
    {
        proof {
            self.buffer.lemma_sizes();
        }
        let row = self.cursor.0 + self.offset.0;
        let limit = self.buffer.line_len(row) as i128;
        let off = self.offset.1 as i128;
        let ext = self.max_col() as i128;
        proof {
            lemma_clamp_axis(pos as int, off as int, limit as int, ext as int);
        }
        let t = if limit - off < pos {
            limit - off
        } else {
            pos
        };
        if t < 0 {
            let o = off + t;
            self.cursor.1 = 0;
            self.offset.1 = if o > 0 {
                o as usize
            } else {
                0
            };
        } else if t > ext {
            self.cursor.1 = ext as usize;
            self.offset.1 = (off + (t - ext)) as usize;
        } else {
            self.cursor.1 = t as usize;
        }
    }

    /// Places the row axis for screen row `row_pos`, then the column axis for
    /// screen column `col_pos` on the row reached.
    fn place(&mut self, row_pos: i128, col_pos: i128)
        requires
            old(self).buf().wf(),
        ensures
            (final(self).screen().0, final(self).scroll().0) == clamp_axis(
                row_pos as int,
                old(self).scroll().0,
                old(self).text().len() - 1,
                max_screen_row(old(self).rect().height),
            ),
            (final(self).screen().1, final(self).scroll().1) == clamp_axis(
                col_pos as int,
                old(self).scroll().1,
                old(self).text()[final(self).pos().0].len() as int,
                max_screen_col(old(self).rect().width),
            ),
            final(self).same_but_cursor(old(self)),
            final(self).wf(),
            final(self).on_screen(),
    {
        self.place_row(row_pos);
        self.place_col(col_pos);
    }

    /// Moves the cursor `du` rows down (up when negative), scrolling where it
    /// leaves the screen, then keeps its column within the line reached.
    pub fn move_cursor_row(&mut self, du: isize)
        requires
            old(self).wf(),
        ensures
            moved_row(*old(self), *final(self), du as int),
            final(self).wf(),
            final(self).on_screen(),
    {
        let r = self.cursor.0 as i128 + du as i128;
        let c = self.cursor.1 as i128;
        self.place(r, c);
    }

    /// Moves the cursor `rl` columns right (left when negative), scrolling
    /// where it leaves the screen.
    pub fn move_cursor_col(&mut self, rl: isize)
        requires
            old(self).wf(),
        ensures
            moved_col(*old(self), *final(self), rl as int),
            final(self).wf(),
    {
        let c = self.cursor.1 as i128 + rl as i128;
        self.place_col(c);
    }

    /// Puts the cursor on screen row `row`, then revalidates both axes.
    pub fn set_cursor_row(&mut self, row: usize)
        requires
            old(self).wf(),
        ensures
            (final(self).screen().0, final(self).scroll().0) == clamp_axis(
                row as int,
                old(self).scroll().0,
                old(self).text().len() - 1,
                max_screen_row(old(self).rect().height),
            ),
            (final(self).screen().1, final(self).scroll().1) == clamp_axis(
                old(self).screen().1,
                old(self).scroll().1,
                old(self).text()[final(self).pos().0].len() as int,
                max_screen_col(old(self).rect().width),
            ),
            final(self).same_but_cursor(old(self)),
            final(self).wf(),
            final(self).on_screen(),
    {
        let c = self.cursor.1 as i128;
        self.place(row as i128, c);
    }

    /// Puts the cursor on screen column `col`, then revalidates both axes.
    pub fn set_cursor_col(&mut self, col: usize)
        requires
            old(self).wf(),
        ensures
            (final(self).screen().0, final(self).scroll().0) == clamp_axis(
                old(self).screen().0,
                old(self).scroll().0,
                old(self).text().len() - 1,
                max_screen_row(old(self).rect().height),
            ),
            (final(self).screen().1, final(self).scroll().1) == clamp_axis(
                col as int,
                old(self).scroll().1,
                old(self).text()[final(self).pos().0].len() as int,
                max_screen_col(old(self).rect().width),
            ),
            final(self).same_but_cursor(old(self)),
            final(self).wf(),
            final(self).on_screen(),
    {
        let r = self.cursor.0 as i128;
        self.place(r, col as i128);
    }

    /// Moves the cursor to the first column of its line.
    pub fn zero_cursor_col(&mut self)
        requires
            old(self).wf(),
        ensures
            final(self).screen().1 == 0,
            final(self).scroll().1 == 0,
            final(self).screen().0 == old(self).screen().0,
            final(self).scroll().0 == old(self).scroll().0,
            final(self).same_but_cursor(old(self)),
            final(self).wf(),
    {
        let c = self.cursor.1 as i128 - (self.offset.1 as i128 + self.cursor.1 as i128);
        self.place_col(c);
    }

    /// Moves the cursor just past the last character of its line.
    pub fn move_cursor_end_of_line(&mut self)
        requires
            old(self).wf(),
        ensures
            (final(self).screen().0, final(self).scroll().0) == clamp_axis(
                old(self).screen().0,
                old(self).scroll().0,
                old(self).text().len() - 1,
                max_screen_row(old(self).rect().height),
            ),
            (final(self).screen().1, final(self).scroll().1) == clamp_axis(
                old(self).text()[old(self).pos().0].len() as int,
                old(self).scroll().1,
                old(self).text()[final(self).pos().0].len() as int,
                max_screen_col(old(self).rect().width),
            ),
            final(self).same_but_cursor(old(self)),
            final(self).wf(),
            final(self).on_screen(),
    {
        proof {
            self.buffer.lemma_sizes();
        }
        let len = self.buffer.line_len(self.cursor.0 + self.offset.0);
        let r = self.cursor.0 as i128;
        self.place(r, len as i128);
    }

    /// The buffer position of the cursor.
    fn adjusted_cursor(&self) -> (r: (usize, usize))
        requires
            self.wf(),
        ensures
            r.0 == self.pos().0,
            r.1 == self.pos().1,
    {
        proof {
            self.buffer.lemma_sizes();
        }
        (self.cursor.0 + self.offset.0, self.cursor.1 + self.offset.1)
    }

    /// Opens an empty line below the cursor's line and moves down onto it.
    pub fn new_line_below(&mut self)
        requires
            old(self).wf(),
        ensures
            final(self).wf(),
            final(self).text() == old(self).text().insert(old(self).pos().0 + 1, Seq::empty()),
            final(self).pos() == (old(self).pos().0 + 1, 0int),
            final(self).rect() == old(self).rect(),
            final(self).buf().same_file(&old(self).buf()),
            final(self).buf().dirty() == old(self).buf().dirty(),
    {
        let p = self.adjusted_cursor();
        self.buffer.new_line_below(p);
        proof {
            lemma_clamp_axis(self.screen().0 + 1, self.scroll().0, self.text().len() - 1,
                max_screen_row(self.rect().height));
        }
        self.move_cursor_row(1);
        proof {
            lemma_clamp_axis(self.screen().1, self.scroll().1, 0, max_screen_col(self.rect().width));
        }
    }

    /// Opens an empty line in place of the cursor's line, pushing that line
    /// down, and moves the cursor up one row.
    pub fn new_line_above(&mut self)
        requires
            old(self).wf(),
        ensures
            final(self).wf(),
            final(self).text() == old(self).text().insert(old(self).pos().0, Seq::empty()),
            final(self).pos().0 == clamp(old(self).pos().0 - 1, final(self).text().len() - 1),
            final(self).pos().1 == clamp(old(self).pos().1, final(self).text()[final(self).pos().0].len() as int),
            final(self).rect() == old(self).rect(),
            final(self).buf().same_file(&old(self).buf()),
            final(self).buf().dirty() == old(self).buf().dirty(),
    {
        let p = self.adjusted_cursor();
        self.buffer.new_line_above(p);
        proof {
            lemma_clamp_axis(self.screen().0 - 1, self.scroll().0, self.text().len() - 1,
                max_screen_row(self.rect().height));
        }
        let r = self.cursor.0 as i128 - 1;
        let c = self.cursor.1 as i128;
        let ghost pre = *self;
        self.place(r, c);
        proof {
            lemma_clamp_axis(c as int, pre.scroll().1, self.text()[self.pos().0].len() as int,
                max_screen_col(self.rect().width));
        }
    }

    /// Removes the cursor's line, then revalidates the cursor.
    pub fn delete_line(&mut self)
        requires
            old(self).wf(),
        ensures
            final(self).wf(),
            final(self).text() == if old(self).text().len() == 1 {
                seq![Seq::<char>::empty()]
            } else {
                old(self).text().remove(old(self).pos().0)
            },
            final(self).pos().0 == clamp(old(self).pos().0, final(self).text().len() - 1),
            final(self).pos().1 == clamp(old(self).pos().1, final(self).text()[final(self).pos().0].len() as int),
            final(self).rect() == old(self).rect(),
            final(self).buf().same_file(&old(self).buf()),
            final(self).buf().dirty() == old(self).buf().dirty(),
    {
        let p = self.adjusted_cursor();
        self.buffer.delete_line(p);
        proof {
            lemma_clamp_axis(self.screen().0, self.scroll().0, self.text().len() - 1,
                max_screen_row(self.rect().height));
        }
        let r = self.cursor.0 as i128;
        let c = self.cursor.1 as i128;
        let ghost pre = *self;
        self.place(r, c);
        proof {
            lemma_clamp_axis(c as int, pre.scroll().1, self.text()[self.pos().0].len() as int,
                max_screen_col(self.rect().width));
        }
    }

    /// Empties the cursor's line and moves the cursor to its start.
    pub fn change_line(&mut self)
        requires
            old(self).wf(),
        ensures
            final(self).wf(),
            final(self).text() == old(self).text().update(old(self).pos().0, Seq::empty()),
            final(self).pos() == (old(self).pos().0, 0int),
            final(self).rect() == old(self).rect(),
            final(self).buf().same_file(&old(self).buf()),
            final(self).buf().dirty() == old(self).buf().dirty(),
    {
        let p = self.adjusted_cursor();
        self.buffer.change_line(p);
        proof {
            lemma_clamp_axis(self.screen().0, self.scroll().0, self.text().len() - 1,
                max_screen_row(self.rect().height));
            lemma_clamp_axis(self.screen().1, self.scroll().1, 0, max_screen_col(self.rect().width));
        }
        let r = self.cursor.0 as i128;
        let c = self.cursor.1 as i128;
        self.place(r, c);
    }

    /// Shows `buffer` in this window, with the cursor at its start.
    pub fn load_file(&mut self, buffer: Buffer)
        requires
            buffer.wf(),
        ensures
            final(self).wf(),
            final(self).buf() == buffer,
            final(self).screen() == (0int, 0int),
            final(self).scroll() == (0int, 0int),
            final(self).rect() == old(self).rect(),
    {
        self.buffer = buffer;
        self.cursor = (0, 0);
        self.offset = (0, 0);
    }

    /// Types `c` at the cursor.
    pub fn type_char(&mut self, c: char)
        requires
            old(self).wf(),
        ensures
            final(self).wf(),
            final(self).rect() == old(self).rect(),
            final(self).buf().same_file(&old(self).buf()),
            final(self).buf().dirty(),
            (final(self).text(), final(self).pos()) == typed(old(self).text(), old(self).pos(), c),
    {
        let p = self.adjusted_cursor();
        if c == '\n' {
            self.buffer.add_line_break(p);
            proof {
                lemma_clamp_axis(self.screen().0 + 1, self.scroll().0, self.text().len() - 1,
                    max_screen_row(self.rect().height));
            }
            self.move_cursor_row(1);
            self.zero_cursor_col();
        } else {
            self.buffer.add_char(c, p);
            proof {
                lemma_clamp_axis(self.screen().1 + 1, self.scroll().1, self.text()[self.pos().0].len() as int,
                    max_screen_col(self.rect().width));
            }
            self.move_cursor_col(1);
        }
    }

    /// One backspace at the cursor.
    fn delete_char_before(&mut self)
        requires
            old(self).wf(),
        ensures
            final(self).wf(),
            (final(self).text(), final(self).pos()) == backspace(old(self).text(), old(self).pos()),
            final(self).rect() == old(self).rect(),
            final(self).buf().same_file(&old(self).buf()),
            old(self).buf().dirty() ==> final(self).buf().dirty(),
    {
        let p = self.adjusted_cursor();
        if p.1 == 0 {
            if p.0 != 0 {
                let new_col = self.buffer.line_len(p.0 - 1);
                self.buffer.delete_line_break(p);
                let r = self.cursor.0 as i128 - 1;
                let c = self.cursor.1 as i128;
                proof {
                    lemma_clamp_axis(r as int, self.scroll().0, self.text().len() - 1,
                        max_screen_row(self.rect().height));
                }
                self.place(r, c);
                proof {
                    lemma_clamp_axis(self.screen().0, self.scroll().0, self.text().len() - 1,
                        max_screen_row(self.rect().height));
                    lemma_clamp_axis(new_col as int, self.scroll().1, self.text()[self.pos().0].len() as int,
                        max_screen_col(self.rect().width));
                }
                self.set_cursor_col(new_col);
            }
        } else {
            self.buffer.delete_char(p);
            proof {
                lemma_clamp_axis(self.screen().1 - 1, self.scroll().1, self.text()[self.pos().0].len() as int,
                    max_screen_col(self.rect().width));
            }
            let c = self.cursor.1 as i128 - 1;
            self.place_col(c);
        }
    }

    /// `n` backspaces at the cursor.
    pub fn delete_chars(&mut self, n: usize)
        requires
            old(self).wf(),
        ensures
            final(self).wf(),
            (final(self).text(), final(self).pos()) == backspaces(old(self).text(), old(self).pos(), n as nat),
            final(self).rect() == old(self).rect(),
            final(self).buf().same_file(&old(self).buf()),
            old(self).buf().dirty() ==> final(self).buf().dirty(),
    {
        let mut i: usize = 0;
        while i < n
            invariant
                i <= n,
                self.wf(),
                (self.text(), self.pos()) == backspaces(old(self).text(), old(self).pos(), i as nat),
                self.rect() == old(self).rect(),
                self.buf().same_file(&old(self).buf()),
                old(self).buf().dirty() ==> self.buf().dirty(),
            decreases n - i,
        {
            self.delete_char_before();
            i = i + 1;
        }
    }

    /// The text to store for this window's buffer, or why it cannot be stored.
    pub fn write(&self) -> (r: Result<String, String>)
        ensures
            self.buf().writes(r),
    {
        self.buffer.write()
    }

    pub fn buffer(&self) -> (r: &Buffer)
        ensures
            *r == self.buf(),
    {
        &self.buffer
    }

    /// Marks the buffer as written to its file.
    pub fn mark_written(&mut self)
        requires
            old(self).wf(),
        ensures
            final(self).wf(),
            !final(self).buf().dirty(),
            final(self).text() == old(self).text(),
            final(self).buf().same_file(&old(self).buf()),
            final(self).pos() == old(self).pos(),
            final(self).rect() == old(self).rect(),
    {
        self.buffer.mark_written();
    }

    /// Points the buffer at the file `path`.
    pub fn set_path(&mut self, path: String)
        requires
            old(self).wf(),
        ensures
            final(self).wf(),
            final(self).buf().backing() == Some(path@),
            final(self).buf().trailing_newline() == old(self).buf().trailing_newline(),
            final(self).buf().dirty() == old(self).buf().dirty(),
            final(self).text() == old(self).text(),
            final(self).pos() == old(self).pos(),
            final(self).rect() == old(self).rect(),
    {
        self.buffer.set_path(path);
    }

    /// The cursor, relative to the frame.
    pub fn cursor(&self) -> (r: (usize, usize))
        ensures
            (r.0 as int, r.1 as int) == self.screen(),
    {
        self.cursor
    }

    /// The scroll offset on each axis.
    pub fn offset(&self) -> (r: (usize, usize))
        ensures
            (r.0 as int, r.1 as int) == self.scroll(),
    {
        self.offset
    }

    pub fn frame(&self) -> (r: Frame)
        ensures
            r == self.rect(),
    {
        self.frame
    }

    pub fn height(&self) -> (r: usize)
        ensures
            r == self.rect().height,
    {
        self.frame.height
    }

    pub fn width(&self) -> (r: usize)
        ensures
            r == self.rect().width,
    {
        self.frame.width
    }

    pub fn set_height(&mut self, height: usize)
        ensures
            final(self).rect() == (Frame { height, ..old(self).rect() }),
            final(self).buf() == old(self).buf(),
            final(self).screen() == old(self).screen(),
            final(self).scroll() == old(self).scroll(),
    {
        self.frame.height = height;
    }

    pub fn set_width(&mut self, width: usize)
        ensures
            final(self).rect() == (Frame { width, ..old(self).rect() }),
            final(self).buf() == old(self).buf(),
            final(self).screen() == old(self).screen(),
            final(self).scroll() == old(self).scroll(),
    {
        self.frame.width = width;
    }

    /// The top-left corner, as (row, column).
    pub fn loc(&self) -> (r: (usize, usize))
        ensures
            r == (self.rect().top, self.rect().left),
    {
        (self.frame.top, self.frame.left)
    }
}

} // verus!
