use vstd::prelude::*;

verus! {

use vstd::utf8::{valid_utf8, is_char_boundary};
use crate::editor::{Editor, Cursor};
use crate::lines::{lines_wf, range_len, pos_on_line, lemma_lines_cover,
    lemma_line_edges_are_boundaries, TAB_SIZE};
use crate::unicode::{is_next_boundary, is_prev_boundary, count_chars, count_tabs, chars_between,
    tabs_between, next_boundary_from, prev_boundary_from, boundary_at, lemma_next_boundary_le,
    lemma_prev_boundary_ge};

/// Everything but the cursor and the scroll offset is unchanged.
pub open spec fn same_but_cursor_scroll(pre: Editor, post: Editor) -> bool {
    &&& post.text == pre.text
    &&& post.lines == pre.lines
    &&& post.marker == pre.marker
    &&& post.path == pre.path
    &&& post.active == pre.active
    &&& post.unsaved_changes == pre.unsaved_changes
    &&& post.message == pre.message
}

/// The scroll offset that keeps the cursor line inside a viewport of
/// `height` terminal rows, two of which are reserved for the status area:
/// the old offset clamped between `line - (height - 2)` and `line`.
pub open spec fn scroll_clamp(scroll: int, line: int, height: int) -> int {
    let room = if height >= 2 {
        height - 2
    } else {
        0
    };
    let lo = if line >= room {
        line - room
    } else {
        0
    };
    if scroll < lo {
        lo
    } else if scroll > line {
        line
    } else {
        scroll
    }
}

/// `col` is the result of stepping the byte column `from_col` backwards to
/// the nearest character boundary of the line starting at `start`.
pub open spec fn snapped_col(t: Seq<u8>, start: int, from_col: int, col: int) -> bool {
    &&& 0 <= col <= from_col
    &&& is_char_boundary(t, start + col)
    &&& forall|j: int| col < j <= from_col ==> !#[trigger] is_char_boundary(t, start + j)
}

/// How `move_left` steps the cursor: back one character, wrapping to the end
/// of the previous line from column 0, a no-op at the document start; then
/// the scroll offset is clamped to the new cursor line.
pub open spec fn move_left_rel(pre: Editor, post: Editor, height: int) -> bool {
    &&& same_but_cursor_scroll(pre, post)
    &&& if pre.cursor.column > 0 {
        &&& post.cursor.line == pre.cursor.line
        &&& is_prev_boundary(
            pre.text@,
            pre.char_index_spec(),
            pre.cur_line().start + post.cursor.column,
        )
    } else if pre.cursor.line > 0 {
        &&& post.cursor.line == pre.cursor.line - 1
        &&& post.cursor.column == range_len(pre.lines@[pre.cursor.line - 1])
    } else {
        post.cursor == pre.cursor
    }
    &&& post.scroll == scroll_clamp(pre.scroll as int, post.cursor.line as int, height)
}

/// How `move_right` steps the cursor: forward one character, wrapping to
/// column 0 of the next line from the end of a line, a no-op at the document
/// end; then the scroll offset is clamped to the new cursor line.
pub open spec fn move_right_rel(pre: Editor, post: Editor, height: int) -> bool {
    &&& same_but_cursor_scroll(pre, post)
    &&& if pre.cursor.column < range_len(pre.cur_line()) {
        &&& post.cursor.line == pre.cursor.line
        &&& is_next_boundary(
            pre.text@,
            pre.char_index_spec(),
            pre.cur_line().start + post.cursor.column,
        )
    } else if (pre.cursor.line as int) < pre.lines@.len() - 1 {
        &&& post.cursor.line == pre.cursor.line + 1
        &&& post.cursor.column == 0
    } else {
        post.cursor == pre.cursor
    }
    &&& post.scroll == scroll_clamp(pre.scroll as int, post.cursor.line as int, height)
}

/// The destination line of a vertical move by `n` lines: saturating at the
/// first line going up, at the last line going down.
pub open spec fn vertical_target(pre: Editor, n: int, up: bool) -> int {
    if up {
        if pre.cursor.line >= n {
            pre.cursor.line - n
        } else {
            0
        }
    } else {
        if pre.cursor.line + n <= pre.lines@.len() - 1 {
            pre.cursor.line + n
        } else {
            pre.lines@.len() - 1
        }
    }
}

/// How a vertical move sets the cursor: the destination line is the current
/// line moved by `n` and clamped to the document; the byte column is the
/// character count before the cursor on the old line, clamped to the
/// destination line's byte length and then stepped back to a character
/// boundary; the scroll offset is clamped to the new cursor line.
///
/// The preserved quantity is a character count, not the rendered width that
/// `physical_column_spec` gives, so moving through lines whose tab usage
/// differs can land the cursor at a different visual column: a known edge
/// case of these semantics, kept as they are.
pub open spec fn move_vertical_rel(pre: Editor, post: Editor, n: int, height: int, up: bool) -> bool {
    &&& same_but_cursor_scroll(pre, post)
    &&& {
        let t = pre.text@;
        let cnt = count_chars(t, pre.cur_line().start as int, pre.char_index_spec());
        let tl = vertical_target(pre, n, up);
        let dest = pre.lines@[tl];
        let raw = if cnt <= range_len(dest) {
            cnt
        } else {
            range_len(dest)
        };
        &&& post.cursor.line == tl
        &&& snapped_col(t, dest.start as int, raw, post.cursor.column as int)
    }
    &&& post.scroll == scroll_clamp(pre.scroll as int, post.cursor.line as int, height)
}

/// The screen column where the cursor is rendered: the characters before it
/// on its line, with each tab among them widened to `TAB_SIZE` columns.
pub open spec fn physical_column_spec(e: Editor) -> int {
    count_chars(e.text@, e.cur_line().start as int, e.char_index_spec()) + (TAB_SIZE - 1)
        * count_tabs(e.text@, e.cur_line().start as int, e.char_index_spec())
}

impl Editor {
    /// Clamps the scroll offset so the cursor line stays inside a viewport
    /// of `height` terminal rows (two rows reserved for status).
    pub fn scroll_to_cursor(&mut self, height: usize)
        ensures
            *final(self) == (Editor {
                scroll: scroll_clamp(
                    old(self).scroll as int,
                    old(self).cursor.line as int,
                    height as int,
                ) as usize,
                ..*old(self)
            }),
    {
        let room: usize = if height >= 2 {
            height - 2
        } else {
            0
        };
        let line = self.cursor.line;
        let lo: usize = if line >= room {
            line - room
        } else {
            0
        };
        let s = self.scroll;
        self.scroll = if s < lo {
            lo
        } else if s > line {
            line
        } else {
            s
        };
    }

    /// Steps the byte column backwards until it lands on a character
    /// boundary, in case a vertical move left it inside a multi-byte
    /// character.
    pub fn ensure_char_boundary(&mut self)
        requires
            valid_utf8(old(self).text@),
            lines_wf(old(self).text@, old(self).lines@),
            (old(self).cursor.line as int) < old(self).lines@.len(),
            old(self).cursor.column <= range_len(old(self).cur_line()),
        ensures
            final(self).cursor.line == old(self).cursor.line,
            final(self).cursor.column <= range_len(old(self).cur_line()),
            is_char_boundary(old(self).text@, final(self).char_index_spec()),
            snapped_col(
                old(self).text@,
                old(self).cur_line().start as int,
                old(self).cursor.column as int,
                final(self).cursor.column as int,
            ),
            same_but_cursor_scroll(*old(self), *final(self)),
            final(self).scroll == old(self).scroll,
    {
        let line = self.lines[self.cursor.line];
        proof {
            lemma_line_edges_are_boundaries(self.text@, self.lines@, self.cursor.line as int);
        }
        while !boundary_at(&self.text, line.start + self.cursor.column)
            invariant
                valid_utf8(self.text@),
                is_char_boundary(self.text@, line.start as int),
                line == self.cur_line(),
                (self.cursor.line as int) < self.lines@.len(),
                self.cursor.line == old(self).cursor.line,
                self.lines@ == old(self).lines@,
                self.text@ == old(self).text@,
                *self == (Editor { cursor: self.cursor, ..*old(self) }),
                self.cursor.column <= old(self).cursor.column,
                line.start + self.cursor.column <= line.end <= self.text@.len(),
                forall|j: int|
                    self.cursor.column < j <= old(self).cursor.column
                        ==> !#[trigger] is_char_boundary(self.text@, line.start + j),
            decreases self.cursor.column,
        {
            self.cursor.column = self.cursor.column - 1;
        }
    }

    /// Moves the cursor one character to the left; from column 0 it wraps to
    /// the end of the previous line, and at the document start it stays put.
    pub fn move_left(&mut self, height: usize)
        requires
            old(self).wf(),
        ensures
            final(self).wf(),
            move_left_rel(*old(self), *final(self), height as int),
    {
        if self.cursor.column > 0 {
            let ci = self.char_index();
            let p = prev_boundary_from(&self.text, ci);
            let line = self.lines[self.cursor.line];
            proof {
                lemma_line_edges_are_boundaries(self.text@, self.lines@, self.cursor.line as int);
                lemma_prev_boundary_ge(self.text@, ci as int, p as int, line.start as int);
            }
            self.cursor.column = p - line.start;
        } else if self.cursor.line > 0 {
            self.cursor.line = self.cursor.line - 1;
            let line = self.lines[self.cursor.line];
            proof {
                lemma_line_edges_are_boundaries(self.text@, self.lines@, self.cursor.line as int);
            }
            self.cursor.column = line.end - line.start;
        }
        self.scroll_to_cursor(height);
    }

    /// Moves the cursor one character to the right; from the end of a line
    /// it wraps to column 0 of the next line, and at the document end it
    /// stays put.
    pub fn move_right(&mut self, height: usize)
        requires
            old(self).wf(),
        ensures
            final(self).wf(),
            move_right_rel(*old(self), *final(self), height as int),
    {
        let line = self.lines[self.cursor.line];
        if self.cursor.column < line.end - line.start {
            let ci = self.char_index();
            let r = next_boundary_from(&self.text, ci);
            proof {
                lemma_line_edges_are_boundaries(self.text@, self.lines@, self.cursor.line as int);
                lemma_next_boundary_le(self.text@, ci as int, r as int, line.end as int);
            }
            self.cursor.column = r - line.start;
        } else if self.cursor.line < self.lines.len() - 1 {
            self.cursor.line = self.cursor.line + 1;
            self.cursor.column = 0;
            proof {
                lemma_line_edges_are_boundaries(self.text@, self.lines@, self.cursor.line as int);
            }
        }
        self.scroll_to_cursor(height);
    }

    /// Moves the cursor up `n` lines, preserving the character count before
    /// the cursor as far as the destination line allows.
    pub fn move_up(&mut self, n: usize, height: usize)
        requires
            old(self).wf(),
        ensures
            final(self).wf(),
            move_vertical_rel(*old(self), *final(self), n as int, height as int, true),
    {
        let line = self.lines[self.cursor.line];
        let ci = self.char_index();
        let cnt = chars_between(&self.text, line.start, ci);
        self.cursor.line = if self.cursor.line >= n {
            self.cursor.line - n
        } else {
            0
        };
        let dest = self.lines[self.cursor.line];
        let dlen = dest.end - dest.start;
        self.cursor.column = if cnt <= dlen {
            cnt
        } else {
            dlen
        };
        self.ensure_char_boundary();
        self.scroll_to_cursor(height);
    }

    /// Moves the cursor down `n` lines, preserving the character count
    /// before the cursor as far as the destination line allows.
    pub fn move_down(&mut self, n: usize, height: usize)
        requires
            old(self).wf(),
        ensures
            final(self).wf(),
            move_vertical_rel(*old(self), *final(self), n as int, height as int, false),
    {
        let line = self.lines[self.cursor.line];
        let ci = self.char_index();
        let cnt = chars_between(&self.text, line.start, ci);
        let last = self.lines.len() - 1;
        self.cursor.line = if n <= last - self.cursor.line {
            self.cursor.line + n
        } else {
            last
        };
        let dest = self.lines[self.cursor.line];
        let dlen = dest.end - dest.start;
        self.cursor.column = if cnt <= dlen {
            cnt
        } else {
            dlen
        };
        self.ensure_char_boundary();
        self.scroll_to_cursor(height);
    }

    /// Moves the cursor to column 0 of its line.
    pub fn move_home(&mut self)
        requires
            old(self).wf(),
        ensures
            final(self).wf(),
            *final(self) == (Editor {
                cursor: (Cursor { line: old(self).cursor.line, column: 0 }),
                ..*old(self)
            }),
    {
        proof {
            lemma_line_edges_are_boundaries(self.text@, self.lines@, self.cursor.line as int);
        }
        self.cursor.column = 0;
    }

    /// Moves the cursor to the end of its line, one past the last byte.
    pub fn move_end(&mut self)
        requires
            old(self).wf(),
        ensures
            final(self).wf(),
            *final(self) == (Editor {
                cursor: (Cursor {
                    line: old(self).cursor.line,
                    column: range_len(old(self).cur_line()) as usize,
                }),
                ..*old(self)
            }),
    {
        let line = self.lines[self.cursor.line];
        proof {
            lemma_line_edges_are_boundaries(self.text@, self.lines@, self.cursor.line as int);
        }
        self.cursor.column = line.end - line.start;
        self.ensure_char_boundary();
        proof {
            assert(line.start + range_len(line) == line.end as int);
            if (self.cursor.column as int) < range_len(line) {
                assert(!is_char_boundary(self.text@, line.start + range_len(line)));
                assert(false);
            }
        }
    }

    /// Resolves an absolute byte offset to its (line, column) position: the
    /// unique line whose range, end included, contains the offset. Used
    /// after cut and paste to relocate the cursor. When `pos` is a character
    /// boundary the relocated cursor is again well placed.
    pub fn move_to_byte(&mut self, pos: usize)
        requires
            valid_utf8(old(self).text@),
            lines_wf(old(self).text@, old(self).lines@),
            pos <= old(self).text@.len(),
        ensures
            same_but_cursor_scroll(*old(self), *final(self)),
            final(self).scroll == old(self).scroll,
            (final(self).cursor.line as int) < final(self).lines@.len(),
            pos_on_line(final(self).lines@[final(self).cursor.line as int], pos as int),
            final(self).char_index_spec() == pos,
            is_char_boundary(old(self).text@, pos as int) ==> final(self).cursor_ok(),
    {
        let ghost ls = self.lines@;
        let mut i: usize = 0;
        while i < self.lines.len()
            invariant
                self.lines@ == ls,
                *self == (Editor { cursor: self.cursor, ..*old(self) }),
                i <= ls.len(),
                lines_wf(self.text@, ls),
                pos <= self.text@.len(),
                (exists|k: int| 0 <= k < i && pos_on_line(#[trigger] ls[k], pos as int)) ==> {
                    &&& (self.cursor.line as int) < ls.len()
                    &&& pos_on_line(ls[self.cursor.line as int], pos as int)
                    &&& self.cursor.column == pos - ls[self.cursor.line as int].start
                },
            decreases ls.len() - i,
        {
            let line = self.lines[i];
            if line.start <= pos && pos <= line.end {
                self.cursor = Cursor { line: i, column: pos - line.start };
            }
            i = i + 1;
        }
        proof {
            lemma_lines_cover(self.text@, ls, pos as int);
        }
    }

    /// The byte offset of the character after the cursor: the text length
    /// when the cursor is on the last character or at the document end.
    pub fn next_char_index(&self) -> (r: usize)
        requires
            self.wf(),
        ensures
            self.char_index_spec() < self.text@.len() ==> is_next_boundary(
                self.text@,
                self.char_index_spec(),
                r as int,
            ),
            self.char_index_spec() == self.text@.len() ==> r == self.text@.len(),
    {
        let ci = self.char_index();
        if ci == self.text.len() {
            ci
        } else {
            next_boundary_from(&self.text, ci)
        }
    }

    /// The byte offset of the character before the cursor; the cursor must
    /// not be at the document start.
    pub fn prev_char_index(&self) -> (r: usize)
        requires
            self.wf(),
            self.char_index_spec() > 0,
        ensures
            is_prev_boundary(self.text@, self.char_index_spec(), r as int),
    {
        let ci = self.char_index();
        prev_boundary_from(&self.text, ci)
    }

    /// The screen column where the cursor is rendered: the characters before
    /// it on its line, each tab among them widened to `TAB_SIZE` columns.
    pub fn physical_column(&self) -> (r: usize)
        requires
            self.wf(),
            self.text@.len() <= usize::MAX / 4,
        ensures
            r as int == physical_column_spec(*self),
    {
        let line = self.lines[self.cursor.line];
        let ci = self.char_index();
        let chars = chars_between(&self.text, line.start, ci);
        let tabs = tabs_between(&self.text, line.start, ci);
        chars + tabs * (TAB_SIZE - 1)
    }
}

} // verus!
