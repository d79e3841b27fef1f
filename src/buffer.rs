//! Line storage for one file, with its backing path, the dirty flag and
//! whether the loaded text ended in a newline.
use vstd::prelude::*;
use crate::text::{chars_of, string_of};

verus! {

/// The position of the first newline in `s` at or after `from`, or `s.len()`.
pub open spec fn line_end(s: Seq<char>, from: int) -> int
    decreases s.len() - from,
{
    if from < 0 || from >= s.len() {
        s.len() as int
    } else if s[from] == '\n' {
        from
    } else {
        line_end(s, from + 1)
    }
}

pub proof fn lemma_line_end(s: Seq<char>, from: int)
    requires
        0 <= from <= s.len(),
    ensures
        from <= line_end(s, from) <= s.len(),
        line_end(s, from) < s.len() ==> s[line_end(s, from)] == '\n',
        forall|k: int| from <= k < line_end(s, from) ==> s[k] != '\n',
    decreases s.len() - from,
{
    if from < s.len() && s[from] != '\n' {
        lemma_line_end(s, from + 1);
    }
}

/// The newline-separated pieces of `s` from position `start` on.
pub open spec fn split_from(s: Seq<char>, start: int) -> Seq<Seq<char>>
    decreases s.len() - start,
{
    if start < 0 || start > s.len() {
        seq![Seq::empty()]
    } else {
        let e = line_end(s, start);
        if e >= s.len() {
            seq![s.subrange(start, s.len() as int)]
        } else {
            proof {
                lemma_line_end(s, start);
            }
            seq![s.subrange(start, e)] + split_from(s, e + 1)
        }
    }
}

/// The newline-separated pieces of `s`; never empty.
pub open spec fn split_lines(s: Seq<char>) -> Seq<Seq<char>> {
    split_from(s, 0)
}

/// The lines joined with newlines between them.
pub open spec fn join_lines(ls: Seq<Seq<char>>) -> Seq<char>
    decreases ls.len(),
{
    if ls.len() == 0 {
        Seq::empty()
    } else if ls.len() == 1 {
        ls[0]
    } else {
        ls[0] + seq!['\n'] + join_lines(ls.drop_first())
    }
}

/// The text ends with a newline that a loaded buffer keeps as a flag rather
/// than as a last, empty line.
pub open spec fn load_flag(s: Seq<char>) -> bool {
    split_lines(s).len() > 1 && split_lines(s).last().len() == 0
}

/// The lines a loaded buffer holds for the text `s`.
pub open spec fn load_lines(s: Seq<char>) -> Seq<Seq<char>> {
    if load_flag(s) {
        split_lines(s).drop_last()
    } else {
        split_lines(s)
    }
}

/// The text that is stored for `lines`, with a final newline when `flag`.
pub open spec fn serialized(lines: Seq<Seq<char>>, flag: bool) -> Seq<char> {
    if flag {
        join_lines(lines) + seq!['\n']
    } else {
        join_lines(lines)
    }
}

pub proof fn lemma_split_from(s: Seq<char>, start: int)
    requires
        0 <= start <= s.len(),
    ensures
        split_from(s, start).len() >= 1,
        join_lines(split_from(s, start)) == s.subrange(start, s.len() as int),
    decreases s.len() - start,
{
    lemma_line_end(s, start);
    let e = line_end(s, start);
    if e < s.len() {
        lemma_split_from(s, e + 1);
        let rest = split_from(s, e + 1);
        let ls = seq![s.subrange(start, e)] + rest;
        assert(ls.drop_first() =~= rest);
        assert(ls[0] == s.subrange(start, e));
        assert(s.subrange(start, s.len() as int) =~= s.subrange(start, e) + seq!['\n']
            + s.subrange(e + 1, s.len() as int));
    }
}

pub proof fn lemma_join_push(ls: Seq<Seq<char>>, x: Seq<char>)
    requires
        ls.len() >= 1,
    ensures
        join_lines(ls.push(x)) == join_lines(ls) + seq!['\n'] + x,
    decreases ls.len(),
{
    let lx = ls.push(x);
    if ls.len() == 1 {
        assert(lx.drop_first() =~= seq![x]);
        assert(join_lines(seq![x]) == x);
        assert(lx[0] == ls[0]);
        assert(join_lines(lx) == lx[0] + seq!['\n'] + join_lines(lx.drop_first()));
    } else {
        lemma_join_push(ls.drop_first(), x);
        assert(lx.drop_first() =~= ls.drop_first().push(x));
        assert(join_lines(lx) =~= join_lines(ls) + seq!['\n'] + x);
    }
}

/// Loading a text and storing it at once gives back exactly that text,
/// with or without a final newline.
pub proof fn lemma_load_then_write_round_trip(s: Seq<char>)
    ensures
        serialized(load_lines(s), load_flag(s)) == s,
{
    lemma_split_from(s, 0);
    assert(s.subrange(0, s.len() as int) =~= s);
    let ls = split_lines(s);
    if load_flag(s) {
        lemma_join_push(ls.drop_last(), ls.last());
        assert(ls.drop_last().push(ls.last()) =~= ls);
        assert(ls.last() =~= Seq::<char>::empty());
        assert(join_lines(ls.drop_last()) + seq!['\n'] + Seq::<char>::empty() =~= join_lines(
            ls.drop_last(),
        ) + seq!['\n']);
    }
}

/// The views of a vector of lines.
pub open spec fn views(lines: Seq<Vec<char>>) -> Seq<Seq<char>> {
    lines.map_values(|l: Vec<char>| l@)
}

/// Splits `cs` at every newline.
fn split_text(cs: &Vec<char>) -> (r: Vec<Vec<char>>)
    ensures
        views(r@) == split_lines(cs@),
{
    let ghost s = cs@;
    let mut lines: Vec<Vec<char>> = Vec::new();
    let mut cur: Vec<char> = Vec::new();
    let mut start: usize = 0;
    let mut i: usize = 0;
    while i < cs.len()
        invariant
            s == cs@,
            start <= i <= cs.len(),
            cur@ == s.subrange(start as int, i as int),
            line_end(s, start as int) == line_end(s, i as int),
            views(lines@) + split_from(s, start as int) == split_from(s, 0),
        decreases cs.len() - i,
    {
        if cs[i] == '\n' {
            proof {
                lemma_line_end(s, start as int);
                let rest = split_from(s, i + 1);
                assert(split_from(s, start as int) == seq![s.subrange(start as int, i as int)] + rest);
                assert(views(lines@.push(cur)) =~= views(lines@).push(cur@));
                assert(views(lines@) + (seq![cur@] + rest) =~= views(lines@).push(cur@) + rest);
            }
            lines.push(cur);
            cur = Vec::new();
            start = i + 1;
            proof {
                assert(cur@ =~= s.subrange(start as int, start as int));
            }
        } else {
            cur.push(cs[i]);
            proof {
                assert(cur@ =~= s.subrange(start as int, i + 1));
            }
        }
        i = i + 1;
    }
    proof {
        lemma_line_end(s, start as int);
        assert(split_from(s, start as int) == seq![s.subrange(start as int, s.len() as int)]);
        assert(views(lines@.push(cur)) =~= views(lines@).push(cur@));
        assert(views(lines@) + seq![cur@] =~= views(lines@).push(cur@));
    }
    lines.push(cur);
    lines
}

pub struct Buffer {
    lines: Vec<Vec<char>>,
    path: Option<String>,
    unsaved_changes: bool,
    terminal_newline: bool,
}

impl Buffer {
    /// The lines, in document order.
    pub closed spec fn text(&self) -> Seq<Seq<char>> {
        views(self.lines@)
    }

    /// The path of the backing file; `None` for a scratch buffer.
    pub closed spec fn backing(&self) -> Option<Seq<char>> {
        match self.path {
            Some(p) => Some(p@),
            None => None,
        }
    }

    /// Edited since it was loaded or last written.
    pub closed spec fn dirty(&self) -> bool {
        self.unsaved_changes
    }

    /// The loaded text ended with a newline.
    pub closed spec fn trailing_newline(&self) -> bool {
        self.terminal_newline
    }

    /// Line counts and lengths fit in `usize`.
    pub proof fn lemma_sizes(&self)
        ensures
            self.text().len() <= usize::MAX,
            forall|i: int| 0 <= i < self.text().len() ==> #[trigger] self.text()[i].len() <= usize::MAX,
    {
        assert(self.lines.len() == self.lines@.len());
        assert forall|i: int| 0 <= i < self.text().len() implies #[trigger] self.text()[i].len() <= usize::MAX by {
            assert(self.lines@[i].len() == self.lines@[i]@.len());
        }
    }

    /// A buffer always holds at least one line.
    pub open spec fn wf(&self) -> bool {
        self.text().len() > 0
    }

    /// `self` differs from `other` in its lines and dirty flag at most.
    pub open spec fn same_file(&self, other: &Buffer) -> bool {
        &&& self.backing() == other.backing()
        &&& self.trailing_newline() == other.trailing_newline()
    }

    /// `r` is what storing the buffer answers: the stored text for a buffer
    /// with a file, an error for a scratch buffer.
    pub open spec fn writes(&self, r: Result<String, String>) -> bool {
        &&& (self.backing() is None <==> r is Err)
        &&& (r matches Ok(t) ==> t@ == serialized(self.text(), self.trailing_newline()))
        &&& (r matches Err(e) ==> e@ == seq!['N', 'o', ' ', 'f', 'i', 'l', 'e', 'n', 'a', 'm', 'e'])
    }

    /// A scratch buffer holding the pieces of `s` between newlines.
    pub fn from_string(s: &str) -> (b: Buffer)
        ensures
            b.wf(),
            b.text() == split_lines(s@),
            b.backing() is None,
            !b.dirty(),
            !b.trailing_newline(),
    {
        let cs = chars_of(s);
        proof {
            lemma_split_from(cs@, 0);
        }
        Buffer { lines: split_text(&cs), path: None, unsaved_changes: false, terminal_newline: false }
    }

    /// A buffer backed by the file at `path` whose text, as read, is `contents`.
    /// A final newline is kept as a flag, not as an empty last line.
    pub fn from_filepath(path: String, contents: &str) -> (b: Buffer)
        ensures
            b.wf(),
            b.text() == load_lines(contents@),
            b.trailing_newline() == load_flag(contents@),
            b.backing() == Some(path@),
            !b.dirty(),
    {
        let cs = chars_of(contents);
        let mut lines = split_text(&cs);
        proof {
            lemma_split_from(cs@, 0);
        }
        let mut terminal_newline = false;
        let n = lines.len();
        if n > 1 && lines[n - 1].len() == 0 {
            lines.pop();
            terminal_newline = true;
            proof {
                assert(views(lines@) =~= split_lines(cs@).drop_last());
            }
        }
        Buffer { lines, path: Some(path), unsaved_changes: false, terminal_newline }
    }

    /// Takes line `row` out, leaving the others in place.
    fn take_line(&mut self, row: usize) -> (line: Vec<char>)
        requires
            row < old(self).text().len(),
        ensures
            line@ == old(self).text()[row as int],
            final(self).lines@ == old(self).lines@.remove(row as int),
            final(self).path == old(self).path,
            final(self).unsaved_changes == old(self).unsaved_changes,
            final(self).terminal_newline == old(self).terminal_newline,
    {
        self.lines.remove(row)
    }

    /// Puts `line` back at `row`.
    fn put_line(&mut self, row: usize, line: Vec<char>)
        requires
            row <= old(self).lines@.len(),
        ensures
            final(self).lines@ == old(self).lines@.insert(row as int, line),
            final(self).text() == old(self).text().insert(row as int, line@),
            final(self).path == old(self).path,
            final(self).unsaved_changes == old(self).unsaved_changes,
            final(self).terminal_newline == old(self).terminal_newline,
    {
        self.lines.insert(row, line);
        proof {
            assert(self.text() =~= old(self).text().insert(row as int, line@));
        }
    }

    /// Inserts `c` before column `cursor.1` of line `cursor.0`.
    pub fn add_char(&mut self, c: char, cursor: (usize, usize))
        requires
            old(self).wf(),
            cursor.0 < old(self).text().len(),
            cursor.1 <= old(self).text()[cursor.0 as int].len(),
        ensures
            final(self).wf(),
            final(self).text() == old(self).text().update(
                cursor.0 as int,
                old(self).text()[cursor.0 as int].insert(cursor.1 as int, c),
            ),
            final(self).dirty(),
            final(self).same_file(old(self)),
    {
        let (row, col) = cursor;
        let mut line = self.take_line(row);
        line.insert(col, c);
        self.put_line(row, line);
        self.unsaved_changes = true;
        proof {
            assert(self.text() =~= old(self).text().update(
                row as int,
                old(self).text()[row as int].insert(col as int, c),
            ));
        }
    }

    /// Breaks line `cursor.0` before column `cursor.1`; the tail becomes the next line.
    pub fn add_line_break(&mut self, cursor: (usize, usize))
        requires
            old(self).wf(),
            cursor.0 < old(self).text().len(),
            cursor.1 <= old(self).text()[cursor.0 as int].len(),
        ensures
            final(self).wf(),
            final(self).text() == old(self).text().update(
                cursor.0 as int,
                old(self).text()[cursor.0 as int].subrange(0, cursor.1 as int),
            ).insert(
                cursor.0 + 1,
                old(self).text()[cursor.0 as int].subrange(
                    cursor.1 as int,
                    old(self).text()[cursor.0 as int].len() as int,
                ),
            ),
            final(self).dirty(),
            final(self).same_file(old(self)),
    {
        let (row, col) = cursor;
        let n = self.lines.len();
        assert(n == self.text().len());
        let mut line = self.take_line(row);
        let tail = line.split_off(col);
        self.put_line(row, line);
        self.put_line(row + 1, tail);
        self.unsaved_changes = true;
        proof {
            let t = old(self).text();
            assert(self.text() =~= t.update(row as int, t[row as int].subrange(0, col as int)).insert(
                row + 1,
                t[row as int].subrange(col as int, t[row as int].len() as int),
            ));
        }
    }

    /// Inserts an empty line after line `cursor.0`.
    pub fn new_line_below(&mut self, cursor: (usize, usize))
        requires
            old(self).wf(),
            cursor.0 < old(self).text().len(),
        ensures
            final(self).wf(),
            final(self).text() == old(self).text().insert(cursor.0 + 1, Seq::empty()),
            final(self).dirty() == old(self).dirty(),
            final(self).same_file(old(self)),
    {
        let n = self.lines.len();
        assert(n == self.text().len());
        self.put_line(cursor.0 + 1, Vec::new());
    }

    /// Inserts an empty line before line `cursor.0`.
    pub fn new_line_above(&mut self, cursor: (usize, usize))
        requires
            old(self).wf(),
            cursor.0 < old(self).text().len(),
        ensures
            final(self).wf(),
            final(self).text() == old(self).text().insert(cursor.0 as int, Seq::empty()),
            final(self).dirty() == old(self).dirty(),
            final(self).same_file(old(self)),
    {
        self.put_line(cursor.0, Vec::new());
    }

    /// Removes the character before column `cursor.1` of line `cursor.0`.
    pub fn delete_char(&mut self, cursor: (usize, usize))
        requires
            old(self).wf(),
            cursor.0 < old(self).text().len(),
            1 <= cursor.1 <= old(self).text()[cursor.0 as int].len(),
        ensures
            final(self).wf(),
            final(self).text() == old(self).text().update(
                cursor.0 as int,
                old(self).text()[cursor.0 as int].remove(cursor.1 - 1),
            ),
            final(self).dirty(),
            final(self).same_file(old(self)),
    {
        let (row, col) = cursor;
        let mut line = self.take_line(row);
        line.remove(col - 1);
        self.put_line(row, line);
        self.unsaved_changes = true;
        proof {
            assert(self.text() =~= old(self).text().update(
                row as int,
                old(self).text()[row as int].remove(col - 1),
            ));
        }
    }

    /// Removes line `cursor.0`; removing the only line leaves one empty line.
    pub fn delete_line(&mut self, cursor: (usize, usize))
        requires
            old(self).wf(),
            cursor.0 < old(self).text().len(),
        ensures
            final(self).wf(),
            final(self).text() == if old(self).text().len() == 1 {
                seq![Seq::<char>::empty()]
            } else {
                old(self).text().remove(cursor.0 as int)
            },
            final(self).dirty() == old(self).dirty(),
            final(self).same_file(old(self)),
    {
        let _ = self.take_line(cursor.0);
        if self.lines.len() == 0 {
            self.lines.push(Vec::new());
            proof {
                assert(self.text() =~= seq![Seq::<char>::empty()]);
            }
        } else {
            proof {
                assert(self.text() =~= old(self).text().remove(cursor.0 as int));
            }
        }
    }

    /// Empties line `cursor.0`.
    pub fn change_line(&mut self, cursor: (usize, usize))
        requires
            old(self).wf(),
            cursor.0 < old(self).text().len(),
        ensures
            final(self).wf(),
            final(self).text() == old(self).text().update(cursor.0 as int, Seq::empty()),
            final(self).dirty() == old(self).dirty(),
            final(self).same_file(old(self)),
    {
        let _ = self.take_line(cursor.0);
        self.put_line(cursor.0, Vec::new());
        proof {
            assert(self.text() =~= old(self).text().update(cursor.0 as int, Seq::empty()));
        }
    }

    /// Joins line `cursor.0` onto the end of the line before it.
    pub fn delete_line_break(&mut self, cursor: (usize, usize))
        requires
            old(self).wf(),
            1 <= cursor.0 < old(self).text().len(),
        ensures
            final(self).wf(),
            final(self).text() == old(self).text().update(
                cursor.0 - 1,
                old(self).text()[cursor.0 - 1] + old(self).text()[cursor.0 as int],
            ).remove(cursor.0 as int),
            final(self).dirty(),
            final(self).same_file(old(self)),
    {
        let row = cursor.0;
        let mut old_row = self.take_line(row);
        let mut prev = self.take_line(row - 1);
        prev.append(&mut old_row);
        self.put_line(row - 1, prev);
        self.unsaved_changes = true;
        proof {
            let t = old(self).text();
            assert(self.text() =~= t.update(row - 1, t[row - 1] + t[row as int]).remove(row as int));
        }
    }

    /// The lines, in document order.
    pub fn lines(&self) -> (r: &Vec<Vec<char>>)
        ensures
            views(r@) == self.text(),
    {
        &self.lines
    }

    /// Line `n`.
    pub fn nth_line(&self, n: usize) -> (r: &Vec<char>)
        requires
            n < self.text().len(),
        ensures
            r@ == self.text()[n as int],
    {
        &self.lines[n]
    }

    /// The number of lines.
    pub fn line_count(&self) -> (r: usize)
        ensures
            r == self.text().len(),
    {
        self.lines.len()
    }

    /// The length of line `n`.
    pub fn line_len(&self, n: usize) -> (r: usize)
        requires
            n < self.text().len(),
        ensures
            r == self.text()[n as int].len(),
    {
        self.lines[n].len()
    }

    /// The text to store in the backing file, from its start: the lines
    /// joined by newlines, with a final newline when the loaded text had one.
    /// A scratch buffer has nowhere to be written.
    pub fn write(&self) -> (r: Result<String, String>)
        ensures
            self.writes(r),
    {
        if self.path.is_none() {
            let msg = chars_of("No filename");
            proof {
                reveal_strlit("No filename");
            }
            let r = string_of(&msg);
            proof {
                assert(r@ =~= seq!['N', 'o', ' ', 'f', 'i', 'l', 'e', 'n', 'a', 'm', 'e']);
            }
            return Err(r);
        }
        let mut out: Vec<char> = Vec::new();
        let mut i: usize = 0;
        while i < self.lines.len()
            invariant
                i <= self.lines.len(),
                i > 0 ==> out@ == join_lines(self.text().subrange(0, i as int)),
                i == 0 ==> out@ == Seq::<char>::empty(),
            decreases self.lines.len() - i,
        {
            let ghost before = out@;
            if i > 0 {
                out.push('\n');
            }
            let line = &self.lines[i];
            let mut j: usize = 0;
            while j < line.len()
                invariant
                    j <= line.len(),
                    out@ == (if i > 0 { before + seq!['\n'] } else { before }) + line@.subrange(0, j as int),
                decreases line.len() - j,
            {
                out.push(line[j]);
                proof {
                    assert(line@.subrange(0, j + 1) =~= line@.subrange(0, j as int).push(line[j as int]));
                }
                j = j + 1;
            }
            proof {
                let t = self.text();
                assert(line@.subrange(0, line.len() as int) =~= line@);
                assert(t[i as int] == line@);
                if i > 0 {
                    lemma_join_push(t.subrange(0, i as int), t[i as int]);
                    assert(t.subrange(0, i as int).push(t[i as int]) =~= t.subrange(0, i + 1));
                } else {
                    assert(t.subrange(0, 1) =~= seq![t[0]]);
                    assert(out@ =~= line@);
                }
            }
            i = i + 1;
        }
        proof {
            assert(self.text().subrange(0, self.lines.len() as int) =~= self.text());
        }
        if self.terminal_newline {
            out.push('\n');
        }
        let text = string_of(&out);
        proof {
            assert(text@ == serialized(self.text(), self.trailing_newline()));
        }
        Ok(text)
    }

    /// Records that the text now matches the backing file.
    pub fn mark_written(&mut self)
        ensures
            !final(self).dirty(),
            final(self).text() == old(self).text(),
            final(self).same_file(old(self)),
    {
        self.unsaved_changes = false;
    }

    /// Points the buffer at the file `path`.
    pub fn set_path(&mut self, path: String)
        ensures
            final(self).backing() == Some(path@),
            final(self).text() == old(self).text(),
            final(self).dirty() == old(self).dirty(),
            final(self).trailing_newline() == old(self).trailing_newline(),
    {
        self.path = Some(path);
    }

    /// The name shown for the buffer: its path, or `[No Name]`.
    pub fn filename(&self) -> (r: &str)
        ensures
            self.backing() matches Some(p) ==> r@ == p,
    {
        match &self.path {
            Some(p) => p.as_str(),
            None => "[No Name]",
        }
    }

    /// Edited since it was loaded or last written.
    pub fn unsaved_changes(&self) -> (r: bool)
        ensures
            r == self.dirty(),
    {
        self.unsaved_changes
    }
}

} // verus!
