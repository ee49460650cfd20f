use vstd::prelude::*;

verus! {

use vstd::utf8::{valid_utf8, is_char_boundary};
use crate::lines::{ByteRange, lines_wf, range_len, build_lines, lemma_lines_wf_unique,
    lemma_line_edges_are_boundaries};

/// The byte that separates path components in a file path.
pub const SLASH: u8 = 47;

/// The caret's logical position: a line index into the line index, and a
/// byte offset within that line. The byte offset always falls on a UTF-8
/// character boundary of the text.
#[derive(Clone, Copy, PartialEq, Eq, Structural, Debug)]
pub struct Cursor {
    pub line: usize,
    pub column: usize,
}

/// One open document: the UTF-8 text it owns, the line index derived from
/// that text, the cursor, the optional selection marker, the scroll offset of
/// the viewport, and the bookkeeping a front end renders (path, unsaved flag,
/// status message, whether the document is the active one).
pub struct Editor {
    pub text: Vec<u8>,
    pub lines: Vec<ByteRange>,
    pub scroll: usize,
    pub cursor: Cursor,
    pub marker: Option<usize>,
    pub path: Option<Vec<u8>>,
    pub active: bool,
    pub unsaved_changes: bool,
    pub message: Option<Vec<u8>>,
}

impl Editor {
    /// The line the cursor is on.
    pub open spec fn cur_line(self) -> ByteRange {
        self.lines@[self.cursor.line as int]
    }

    /// The cursor's absolute byte offset into the text.
    pub open spec fn char_index_spec(self) -> int {
        self.cur_line().start + self.cursor.column
    }

    /// The text is well-formed UTF-8 and the line index belongs to it.
    pub open spec fn text_ok(self) -> bool {
        &&& valid_utf8(self.text@)
        &&& lines_wf(self.text@, self.lines@)
    }

    /// The cursor points into an existing line, no further than one past the
    /// line's last byte, and sits on a character boundary.
    pub open spec fn cursor_ok(self) -> bool {
        &&& (self.cursor.line as int) < self.lines@.len()
        &&& self.cursor.column <= range_len(self.cur_line())
        &&& is_char_boundary(self.text@, self.char_index_spec())
    }

    /// The selection marker, when set, is a character boundary inside the
    /// text.
    pub open spec fn marker_ok(self) -> bool {
        self.marker matches Some(m) ==> m <= self.text@.len() && is_char_boundary(
            self.text@,
            m as int,
        )
    }

    /// The whole editor invariant: constructors establish it and every
    /// operation preserves it.
    pub open spec fn wf(self) -> bool {
        &&& self.text_ok()
        &&& self.cursor_ok()
        &&& self.marker_ok()
    }

    /// Creates an empty document. The text is empty, the line index holds the
    /// single empty line, the cursor is at the origin, and the document
    /// counts as unsaved from birth.
    pub fn new(path: Option<Vec<u8>>) -> (r: Editor)
        ensures
            r.wf(),
            r.text@ == Seq::<u8>::empty(),
            r.lines@.len() == 1,
            r.cursor == (Cursor { line: 0, column: 0 }),
            r.scroll == 0,
            r.marker is None,
            r.path == path,
            r.active == false,
            r.unsaved_changes == true,
            r.message is None,
    {
        let text: Vec<u8> = Vec::new();
        let mut lines: Vec<ByteRange> = Vec::new();
        lines.push(ByteRange { start: 0, end: 0 });
        Editor {
            text,
            lines,
            scroll: 0,
            cursor: Cursor { line: 0, column: 0 },
            marker: None,
            path,
            active: false,
            unsaved_changes: true,
            message: None,
        }
    }

    /// Creates a document over existing UTF-8 text, as when a file has been
    /// read in: the line index is built at once and the document starts
    /// saved.
    pub fn with_text(text: Vec<u8>, path: Option<Vec<u8>>) -> (r: Editor)
        requires
            valid_utf8(text@),
        ensures
            r.wf(),
            r.text == text,
            r.cursor == (Cursor { line: 0, column: 0 }),
            r.scroll == 0,
            r.marker is None,
            r.path == path,
            r.active == false,
            r.unsaved_changes == false,
            r.message is None,
    {
        let lines = build_lines(&text);
        proof {
            lemma_line_edges_are_boundaries(text@, lines@, 0);
        }
        Editor {
            text,
            lines,
            scroll: 0,
            cursor: Cursor { line: 0, column: 0 },
            marker: None,
            path,
            active: false,
            unsaved_changes: false,
            message: None,
        }
    }

    /// Rebuilds the line index from the current text by splitting at every
    /// newline byte. Every mutation calls this rather than patching the
    /// index incrementally.
    pub fn find_lines(&mut self)
        ensures
            lines_wf(final(self).text@, final(self).lines@),
            final(self).text == old(self).text,
            final(self).cursor == old(self).cursor,
            final(self).scroll == old(self).scroll,
            final(self).marker == old(self).marker,
            final(self).path == old(self).path,
            final(self).active == old(self).active,
            final(self).unsaved_changes == old(self).unsaved_changes,
            final(self).message == old(self).message,
    {
        let ls = build_lines(&self.text);
        self.lines = ls;
    }

    /// Marks the document active and rebuilds the line index from the text.
    /// The index clauses determine the rebuild, so nothing but the active
    /// flag changes.
    pub fn enter(&mut self)
        requires
            old(self).wf(),
        ensures
            final(self).wf(),
            final(self).active == true,
            final(self).lines@ == old(self).lines@,
            final(self).text == old(self).text,
            final(self).cursor == old(self).cursor,
            final(self).scroll == old(self).scroll,
            final(self).marker == old(self).marker,
            final(self).path == old(self).path,
            final(self).unsaved_changes == old(self).unsaved_changes,
            final(self).message == old(self).message,
    {
        self.active = true;
        let ls = build_lines(&self.text);
        proof {
            lemma_lines_wf_unique(self.text@, ls@, self.lines@);
        }
        self.lines = ls;
    }

    /// True while the document has changes that have not reached disk.
    pub fn is_unsaved(&self) -> (r: bool)
        ensures
            r == self.unsaved_changes,
    {
        self.unsaved_changes
    }

    /// The document's path, if it has one; an untitled document has none.
    pub fn path(&self) -> (r: &Option<Vec<u8>>)
        ensures
            r == &self.path,
    {
        &self.path
    }

    /// True while the document is the one being edited.
    pub fn is_active(&self) -> (r: bool)
        ensures
            r == self.active,
    {
        self.active
    }

    /// The document text.
    pub fn text(&self) -> (r: &Vec<u8>)
        ensures
            r == &self.text,
    {
        &self.text
    }

    /// The line index.
    pub fn lines(&self) -> (r: &Vec<ByteRange>)
        ensures
            r == &self.lines,
    {
        &self.lines
    }

    /// The first visible line of the viewport.
    pub fn scroll(&self) -> (r: usize)
        ensures
            r == self.scroll,
    {
        self.scroll
    }

    /// The cursor position.
    pub fn cursor(&self) -> (r: Cursor)
        ensures
            r == self.cursor,
    {
        self.cursor
    }

    /// The status message, if an operation has set one.
    pub fn message(&self) -> (r: &Option<Vec<u8>>)
        ensures
            r == &self.message,
    {
        &self.message
    }

    /// Sets the status message shown in place of the cursor position.
    pub fn set_message(&mut self, text: Vec<u8>)
        ensures
            *final(self) == (Editor { message: Some(text), ..*old(self) }),
    {
        self.message = Some(text);
    }

    /// Clears the status message; the front end does so before each input.
    pub fn clear_message(&mut self)
        ensures
            *final(self) == (Editor { message: None, ..*old(self) }),
    {
        self.message = None;
    }

    /// Marks the document inactive, handing control back to the navigator.
    pub fn leave(&mut self)
        ensures
            *final(self) == (Editor { active: false, ..*old(self) }),
    {
        self.active = false;
    }

    /// The range of the line the cursor is on.
    pub fn current_line(&self) -> (r: ByteRange)
        requires
            (self.cursor.line as int) < self.lines@.len(),
        ensures
            r == self.cur_line(),
    {
        self.lines[self.cursor.line]
    }

    /// The cursor's absolute byte offset into the text; equals the text
    /// length when the cursor is at the end of the document.
    pub fn char_index(&self) -> (r: usize)
        requires
            self.cursor_ok(),
        ensures
            r == self.char_index_spec(),
    {
        let line = self.lines[self.cursor.line];
        line.start + self.cursor.column
    }

    /// Records the cursor's current byte offset as the selection anchor,
    /// unless a selection is already in progress. Called before a
    /// shift-qualified movement is applied.
    pub fn set_marker_if_absent(&mut self)
        requires
            old(self).wf(),
        ensures
            final(self).wf(),
            old(self).marker is Some ==> *final(self) == *old(self),
            old(self).marker is None ==> *final(self) == (Editor {
                marker: Some(old(self).char_index_spec() as usize),
                ..*old(self)
            }),
    {
        if self.marker.is_none() {
            let ci = self.char_index();
            self.marker = Some(ci);
        }
    }

    /// Drops the selection anchor; any unqualified movement does this.
    pub fn clear_marker(&mut self)
        ensures
            *final(self) == (Editor { marker: None, ..*old(self) }),
    {
        self.marker = None;
    }

    /// The selection derived from marker and cursor, normalized so that
    /// `start <= end` whichever side the marker lies on; `None` when no
    /// selection is in progress. Recomputed on demand, never stored.
    pub fn selection(&self) -> (r: Option<ByteRange>)
        requires
            self.cursor_ok(),
        ensures
            self.marker is None ==> r is None,
            self.marker matches Some(m) ==> {
                let c = self.char_index_spec();
                r matches Some(sel) && sel.start == (if m <= c {
                    m as int
                } else {
                    c
                }) && sel.end == (if m <= c {
                    c
                } else {
                    m as int
                }) && sel.start <= sel.end
            },
    {
        let c = self.char_index();
        match self.marker {
            None => None,
            Some(m) => {
                if m <= c {
                    Some(ByteRange { start: m, end: c })
                } else {
                    Some(ByteRange { start: c, end: m })
                }
            },
        }
    }

    /// The selection when one is in progress, the whole current line
    /// otherwise: the default range that copy and cut operate on.
    pub fn selection_or_line(&self) -> (r: ByteRange)
        requires
            self.cursor_ok(),
        ensures
            self.marker is None ==> r == self.cur_line(),
            self.marker matches Some(m) ==> {
                let c = self.char_index_spec();
                r.start == (if m <= c {
                    m as int
                } else {
                    c
                }) && r.end == (if m <= c {
                    c
                } else {
                    m as int
                })
            },
    {
        match self.selection() {
            Some(sel) => sel,
            None => self.current_line(),
        }
    }
}

/// The file name inside a path: the bytes after the last slash.
pub open spec fn file_name_of(p: Seq<u8>) -> Seq<u8>
    decreases p.len(),
{
    if p.len() == 0 {
        p
    } else if p[p.len() - 1] == SLASH {
        Seq::empty()
    } else {
        file_name_of(p.drop_last()).push(p.last())
    }
}

/// The title shown for the document: a `*` or blank saved-state mark in
/// front of the path's file name, or `*untitled` when there is no path or
/// the path has an empty file name.
pub open spec fn title_spec(e: Editor) -> Seq<u8> {
    match e.path {
        Some(p) => if file_name_of(p@).len() == 0 {
            untitled_name()
        } else {
            seq![if e.unsaved_changes {
                42u8
            } else {
                32u8
            }] + file_name_of(p@)
        },
        None => untitled_name(),
    }
}

/// The bytes of `*untitled`.
pub open spec fn untitled_name() -> Seq<u8> {
    seq![42u8, 117u8, 110u8, 116u8, 105u8, 116u8, 108u8, 101u8, 100u8]
}

proof fn lemma_file_name_suffix(p: Seq<u8>, k: int)
    requires
        0 <= k <= p.len(),
        forall|j: int| k <= j < p.len() ==> p[j] != SLASH,
        k == 0 || p[k - 1] == SLASH,
    ensures
        file_name_of(p) == p.subrange(k, p.len() as int),
    decreases p.len(),
{
    if p.len() == 0 {
        assert(file_name_of(p) =~= p.subrange(k, p.len() as int));
    } else if k == p.len() {
        assert(p[p.len() - 1] == SLASH);
        assert(file_name_of(p) =~= p.subrange(k, p.len() as int));
    } else {
        assert(p[p.len() - 1] != SLASH);
        lemma_file_name_suffix(p.drop_last(), k);
        assert(p.drop_last().subrange(k, p.drop_last().len() as int) =~= p.subrange(
            k,
            p.len() - 1,
        ));
        assert(p.subrange(k, p.len() - 1).push(p.last()) =~= p.subrange(k, p.len() as int));
    }
}

fn untitled_bytes() -> (r: Vec<u8>)
    ensures
        r@ == untitled_name(),
{
    let mut r: Vec<u8> = Vec::new();
    r.push(42);
    r.push(117);
    r.push(110);
    r.push(116);
    r.push(105);
    r.push(116);
    r.push(108);
    r.push(101);
    r.push(100);
    proof {
        assert(r@ =~= untitled_name());
    }
    r
}

impl Editor {
    /// The title to render for the document: its file name, marked with `*`
    /// while unsaved, or `*untitled` when it has no usable path.
    pub fn title(&self) -> (r: Vec<u8>)
        ensures
            r@ == title_spec(*self),
    {
        match &self.path {
            None => untitled_bytes(),
            Some(p) => {
                let mut k: usize = 0;
                let mut i: usize = 0;
                while i < p.len()
                    invariant
                        k <= i <= p@.len(),
                        k == 0 || p@[k - 1] == SLASH,
                        forall|j: int| k <= j < i ==> p@[j] != SLASH,
                    decreases p@.len() - i,
                {
                    if p[i] == SLASH {
                        k = i + 1;
                    }
                    i = i + 1;
                }
                proof {
                    lemma_file_name_suffix(p@, k as int);
                }
                if k == p.len() {
                    untitled_bytes()
                } else {
                    let mut r: Vec<u8> = Vec::new();
                    if self.unsaved_changes {
                        r.push(42);
                    } else {
                        r.push(32);
                    }
                    let mut j: usize = k;
                    while j < p.len()
                        invariant
                            k <= j <= p@.len(),
                            r@.len() >= 1,
                            r@ == seq![r@[0]] + p@.subrange(k as int, j as int),
                            r@[0] == (if self.unsaved_changes {
                                42u8
                            } else {
                                32u8
                            }),
                        decreases p@.len() - j,
                    {
                        r.push(p[j]);
                        proof {
                            assert(p@.subrange(k as int, j + 1) =~= p@.subrange(
                                k as int,
                                j as int,
                            ).push(p@[j as int]));
                            assert(seq![r@[0]] + p@.subrange(k as int, j + 1) =~= (seq![r@[0]]
                                + p@.subrange(k as int, j as int)).push(p@[j as int]));
                        }
                        j = j + 1;
                    }
                    proof {
                        assert(r@ =~= seq![r@[0]] + file_name_of(p@));
                    }
                    r
                }
            },
        }
    }
}

} // verus!
