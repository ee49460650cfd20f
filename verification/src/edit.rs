use vstd::prelude::*;

verus! {

use vstd::utf8::{valid_utf8, is_char_boundary, encode_scalar, valid_utf8_concat};
use crate::config::Config;
use crate::editor::{Editor, Cursor};
use crate::lines::{lines_wf, range_len, build_lines, lemma_line_edges_are_boundaries, NEWLINE};
use crate::nav::{scroll_clamp, move_left_rel, move_right_rel, move_vertical_rel};
use crate::unicode::{is_next_boundary, is_prev_boundary, prev_boundary_pos, next_boundary_pos,
    encode_char, splice_in, splice_out, copy_range, lemma_insert_char_boundaries,
    lemma_remove_boundaries, lemma_insert_seq_boundaries, lemma_next_boundary_le,
    lemma_prev_boundary_ge, lemma_encode_scalar_shape, lemma_valid_between,
    lemma_valid_ascii_byte, lemma_boundary_after_ascii};

/// The fields no text mutation touches.
pub open spec fn same_doc_admin(pre: Editor, post: Editor) -> bool {
    &&& post.path == pre.path
    &&& post.active == pre.active
    &&& post.message == pre.message
}

/// How `insert_char` changes the editor: the character's UTF-8 encoding is
/// spliced in at the cursor's byte offset, the line index is rebuilt, the
/// cursor ends up just past the inserted character, the selection anchor is
/// dropped, the document counts as unsaved, and the scroll offset follows
/// the cursor.
pub open spec fn insert_char_rel(pre: Editor, post: Editor, c: char, height: int) -> bool {
    let t = pre.text@;
    let ci = pre.char_index_spec();
    let enc = encode_scalar(c as u32);
    &&& post.text@ == t.subrange(0, ci) + enc + t.subrange(ci, t.len() as int)
    &&& lines_wf(post.text@, post.lines@)
    &&& post.char_index_spec() == ci + enc.len()
    &&& post.marker is None
    &&& post.unsaved_changes == true
    &&& same_doc_admin(pre, post)
    &&& post.scroll == scroll_clamp(pre.scroll as int, post.cursor.line as int, height)
}

/// How `backspace` changes the editor: a no-op at the document start;
/// otherwise the character before the cursor is removed, the cursor moves to
/// where that character began, the selection anchor is dropped, and the
/// document counts as unsaved.
pub open spec fn backspace_rel(pre: Editor, post: Editor, height: int) -> bool {
    let t = pre.text@;
    let ci = pre.char_index_spec();
    if ci == 0 {
        post == pre
    } else {
        let p = prev_boundary_pos(t, ci);
        &&& post.text@ == t.subrange(0, p) + t.subrange(ci, t.len() as int)
        &&& lines_wf(post.text@, post.lines@)
        &&& post.char_index_spec() == p
        &&& post.marker is None
        &&& post.unsaved_changes == true
        &&& same_doc_admin(pre, post)
        &&& post.scroll == scroll_clamp(pre.scroll as int, post.cursor.line as int, height)
    }
}

/// How `delete` changes the editor: a no-op at the document end; otherwise
/// the character at the cursor is removed, the cursor stays at the same byte
/// offset, the selection anchor is dropped, and the document counts as
/// unsaved.
pub open spec fn delete_rel(pre: Editor, post: Editor) -> bool {
    let t = pre.text@;
    let ci = pre.char_index_spec();
    if ci == t.len() {
        post == pre
    } else {
        let nb = next_boundary_pos(t, ci);
        &&& post.text@ == t.subrange(0, ci) + t.subrange(nb, t.len() as int)
        &&& lines_wf(post.text@, post.lines@)
        &&& post.char_index_spec() == ci
        &&& post.marker is None
        &&& post.unsaved_changes == true
        &&& same_doc_admin(pre, post)
        &&& post.scroll == pre.scroll
    }
}

/// Start of the byte range copy and cut operate on: the lower end of the
/// normalized selection, or the current line's start without a selection.
pub open spec fn sel_start(e: Editor) -> int {
    match e.marker {
        Some(m) => if m <= e.char_index_spec() {
            m as int
        } else {
            e.char_index_spec()
        },
        None => e.cur_line().start as int,
    }
}

/// End of the byte range copy and cut operate on: the upper end of the
/// normalized selection, or the current line's end without a selection.
pub open spec fn sel_end(e: Editor) -> int {
    match e.marker {
        Some(m) => if m <= e.char_index_spec() {
            e.char_index_spec()
        } else {
            m as int
        },
        None => e.cur_line().end as int,
    }
}

/// What copy and cut hand to the clipboard: the selected bytes, with a
/// newline appended when the range was a whole line rather than an explicit
/// selection.
pub open spec fn copied_text(e: Editor) -> Seq<u8> {
    e.text@.subrange(sel_start(e), sel_end(e)) + if e.marker is None {
        seq![NEWLINE]
    } else {
        Seq::<u8>::empty()
    }
}

/// End of the byte range cut removes from the text: for a whole-line cut it
/// also consumes the line's own newline, clamped to the text length.
pub open spec fn cut_end(e: Editor) -> int {
    if e.marker is None {
        if sel_end(e) + 1 <= e.text@.len() {
            sel_end(e) + 1
        } else {
            e.text@.len() as int
        }
    } else {
        sel_end(e)
    }
}

/// How `cut` changes editor and clipboard: the copied text reaches the
/// clipboard, the removed range leaves the text, the cursor lands at the
/// start of the removed range, and the selection anchor is dropped.
pub open spec fn cut_rel(pre: Editor, post: Editor, cfg0: Config, cfg1: Config) -> bool {
    let t = pre.text@;
    let a = sel_start(pre);
    let b = cut_end(pre);
    &&& cfg1.clipboard@ == copied_text(pre)
    &&& cfg1.line_numbers == cfg0.line_numbers
    &&& post.text@ == t.subrange(0, a) + t.subrange(b, t.len() as int)
    &&& lines_wf(post.text@, post.lines@)
    &&& post.char_index_spec() == a
    &&& post.marker is None
    &&& post.unsaved_changes == pre.unsaved_changes
    &&& post.scroll == pre.scroll
    &&& same_doc_admin(pre, post)
}

/// How `paste` changes the editor: the clipboard bytes are spliced in at
/// the cursor's byte offset, the cursor lands just past them, the selection
/// anchor is dropped, and the document counts as unsaved.
pub open spec fn paste_rel(pre: Editor, post: Editor, cfg: Config) -> bool {
    let t = pre.text@;
    let ci = pre.char_index_spec();
    &&& post.text@ == t.subrange(0, ci) + cfg.clipboard@ + t.subrange(ci, t.len() as int)
    &&& lines_wf(post.text@, post.lines@)
    &&& post.char_index_spec() == ci + cfg.clipboard@.len()
    &&& post.marker is None
    &&& post.unsaved_changes == true
    &&& post.scroll == pre.scroll
    &&& same_doc_admin(pre, post)
}

impl Editor {
    /// The selection's endpoints, or a whole line's, are character
    /// boundaries: what lets copy and cut slice the text there.
    proof fn lemma_sel_range_boundaries(self)
        requires
            self.wf(),
        ensures
            0 <= sel_start(self) <= sel_end(self) <= self.text@.len(),
            is_char_boundary(self.text@, sel_start(self)),
            is_char_boundary(self.text@, sel_end(self)),
    {
        if self.marker is None {
            lemma_line_edges_are_boundaries(self.text@, self.lines@, self.cursor.line as int);
        }
    }

    /// Copies the selection, or the whole current line when there is none,
    /// to the clipboard; a whole-line copy always ends in a newline.
    pub fn copy(&self, config: &mut Config)
        requires
            self.wf(),
        ensures
            final(config).clipboard@ == copied_text(*self),
            final(config).line_numbers == old(config).line_numbers,
    {
        let range = self.selection_or_line();
        proof {
            self.lemma_sel_range_boundaries();
            lemma_valid_between(self.text@, range.start as int, range.end as int);
        }
        let mut text = copy_range(&self.text, range.start, range.end);
        if self.marker.is_none() {
            proof {
                lemma_valid_ascii_byte(NEWLINE);
                valid_utf8_concat(text@, seq![NEWLINE]);
            }
            text.push(NEWLINE);
            proof {
                assert(text@ =~= self.text@.subrange(sel_start(*self), sel_end(*self)) + seq![
                    NEWLINE,
                ]);
            }
        } else {
            proof {
                assert(text@ =~= copied_text(*self));
            }
        }
        config.set_clipboard(text);
    }

    /// Cuts the selection, or the whole current line including its newline
    /// when there is none: copies it to the clipboard, removes it from the
    /// text, and puts the cursor where the removed range began.
    pub fn cut(&mut self, config: &mut Config)
        requires
            old(self).wf(),
        ensures
            final(self).wf(),
            cut_rel(*old(self), *final(self), *old(config), *final(config)),
    {
        let ghost t = self.text@;
        let range = self.selection_or_line();
        let start = range.start;
        let mut end = range.end;
        proof {
            self.lemma_sel_range_boundaries();
            lemma_valid_between(self.text@, start as int, end as int);
        }
        let mut text = copy_range(&self.text, start, end);
        if self.marker.is_none() {
            proof {
                lemma_valid_ascii_byte(NEWLINE);
                valid_utf8_concat(text@, seq![NEWLINE]);
            }
            text.push(NEWLINE);
            proof {
                assert(text@ =~= t.subrange(sel_start(*self), sel_end(*self)) + seq![NEWLINE]);
                if (end as int) < t.len() {
                    if self.cursor.line == self.lines.len() - 1 {
                        assert(self.cur_line().end == t.len());
                        assert(false);
                    }
                    assert(t[end as int] == NEWLINE);
                    lemma_boundary_after_ascii(t, end as int);
                }
            }
            if end < self.text.len() {
                end = end + 1;
            }
        } else {
            proof {
                assert(text@ =~= copied_text(*self));
            }
        }
        config.set_clipboard(text);
        proof {
            lemma_remove_boundaries(t, start as int, end as int);
        }
        splice_out(&mut self.text, start, end);
        self.find_lines();
        self.marker = None;
        self.move_to_byte(start);
    }

    /// Inserts the clipboard text at the cursor's byte offset and puts the
    /// cursor just past it. Repeated pastes of the same clipboard are legal:
    /// the clipboard is read, never consumed.
    pub fn paste(&mut self, config: &Config)
        requires
            old(self).wf(),
            valid_utf8(config.clipboard@),
            old(self).text@.len() + config.clipboard@.len() <= usize::MAX,
        ensures
            final(self).wf(),
            paste_rel(*old(self), *final(self), *config),
    {
        let ghost t = self.text@;
        self.unsaved_changes = true;
        let ci = self.char_index();
        let clip = config.clipboard();
        let end_pos = ci + clip.len();
        proof {
            lemma_insert_seq_boundaries(t, ci as int, config.clipboard@);
        }
        splice_in(&mut self.text, ci, clip);
        self.find_lines();
        self.marker = None;
        self.move_to_byte(end_pos);
    }

    /// Inserts `c` at the cursor's byte offset, rebuilds the line index, and
    /// steps the cursor past the inserted character.
    pub fn insert_char(&mut self, c: char, height: usize)
        requires
            old(self).wf(),
        ensures
            final(self).wf(),
            insert_char_rel(*old(self), *final(self), c, height as int),
    {
        let ghost t = self.text@;
        self.unsaved_changes = true;
        let ci = self.char_index();
        let enc = encode_char(c);
        proof {
            lemma_encode_scalar_shape(c);
            lemma_insert_char_boundaries(t, ci as int, c);
        }
        splice_in(&mut self.text, ci, &enc);
        self.find_lines();
        self.marker = None;
        self.move_to_byte(ci);
        let ghost mid = *self;
        self.move_right(height);
        proof {
            let t2 = mid.text@;
            let k = encode_scalar(c as u32).len() as int;
            let start = mid.cur_line().start as int;
            if (mid.cursor.column as int) < range_len(mid.cur_line()) {
                let r = start + final(self).cursor.column;
                lemma_next_boundary_le(t2, ci as int, r, ci + k);
                lemma_next_boundary_le(t2, ci as int, ci + k, r);
            } else {
                let l2 = mid.cursor.line as int;
                assert(ci == mid.cur_line().end);
                assert(ci < t2.len());
                assert(l2 < mid.lines@.len() - 1);
                assert(t2[ci as int] == encode_scalar(c as u32)[0]);
                assert(t2[mid.lines@[l2].end as int] == crate::lines::NEWLINE);
                assert(k == 1);
                assert(mid.lines@[l2].end + 1 == mid.lines@[l2 + 1].start);
            }
        }
    }

    /// Removes the character before the cursor and moves the cursor to where
    /// it began; a no-op at the document start.
    pub fn backspace(&mut self, height: usize)
        requires
            old(self).wf(),
        ensures
            final(self).wf(),
            backspace_rel(*old(self), *final(self), height as int),
    {
        let ci = self.char_index();
        if ci == 0 {
            return ;
        }
        let ghost t = self.text@;
        self.unsaved_changes = true;
        let p = self.prev_char_index();
        proof {
            assert(is_prev_boundary(t, ci as int, p as int));
            let q = prev_boundary_pos(t, ci as int);
            assert(is_prev_boundary(t, ci as int, q)) by {
                assert(exists|x: int| is_prev_boundary(t, ci as int, x));
            }
            lemma_prev_boundary_ge(t, ci as int, p as int, q);
            lemma_prev_boundary_ge(t, ci as int, q, p as int);
            lemma_remove_boundaries(t, p as int, ci as int);
        }
        splice_out(&mut self.text, p, ci);
        self.find_lines();
        self.marker = None;
        self.move_to_byte(p);
        self.scroll_to_cursor(height);
    }

    /// Removes the character at the cursor without moving it; a no-op at the
    /// document end.
    pub fn delete(&mut self)
        requires
            old(self).wf(),
        ensures
            final(self).wf(),
            delete_rel(*old(self), *final(self)),
    {
        let ci = self.char_index();
        if ci == self.text.len() {
            return ;
        }
        let ghost t = self.text@;
        self.unsaved_changes = true;
        let nb = self.next_char_index();
        proof {
            assert(is_next_boundary(t, ci as int, nb as int));
            let q = next_boundary_pos(t, ci as int);
            assert(is_next_boundary(t, ci as int, q)) by {
                assert(exists|x: int| is_next_boundary(t, ci as int, x));
            }
            lemma_next_boundary_le(t, ci as int, nb as int, q);
            lemma_next_boundary_le(t, ci as int, q, nb as int);
            lemma_remove_boundaries(t, ci as int, nb as int);
        }
        splice_out(&mut self.text, ci, nb);
        self.find_lines();
        self.marker = None;
        self.move_to_byte(ci);
    }
}

/// The bytes of `Saved file as '<path>'`.
pub open spec fn saved_message(p: Seq<u8>) -> Seq<u8> {
    seq![
        83u8,
        97u8,
        118u8,
        101u8,
        100u8,
        32u8,
        102u8,
        105u8,
        108u8,
        101u8,
        32u8,
        97u8,
        115u8,
        32u8,
        39u8,
    ] + p + seq![39u8]
}

/// The bytes of `Could not save file as '<path>': <err>`.
pub open spec fn save_error_message(p: Seq<u8>, err: Seq<u8>) -> Seq<u8> {
    seq![
        67u8,
        111u8,
        117u8,
        108u8,
        100u8,
        32u8,
        110u8,
        111u8,
        116u8,
        32u8,
        115u8,
        97u8,
        118u8,
        101u8,
        32u8,
        102u8,
        105u8,
        108u8,
        101u8,
        32u8,
        97u8,
        115u8,
        32u8,
        39u8,
    ] + p + seq![39u8, 58u8, 32u8] + err
}

/// Appends all of `src` to `dst`.
fn push_bytes(dst: &mut Vec<u8>, src: &Vec<u8>)
    ensures
        final(dst)@ == old(dst)@ + src@,
{
    let mut i: usize = 0;
    while i < src.len()
        invariant
            i <= src@.len(),
            dst@ == old(dst)@ + src@.subrange(0, i as int),
        decreases src@.len() - i,
    {
        dst.push(src[i]);
        proof {
            assert(old(dst)@ + src@.subrange(0, i + 1) =~= (old(dst)@ + src@.subrange(
                0,
                i as int,
            )).push(src@[i as int]));
        }
        i = i + 1;
    }
    proof {
        assert(old(dst)@ + src@.subrange(0, src@.len() as int) =~= old(dst)@ + src@);
    }
}

/// Builds `Saved file as '<path>'`.
fn saved_message_bytes(p: &Vec<u8>) -> (r: Vec<u8>)
    ensures
        r@ == saved_message(p@),
{
    let mut r: Vec<u8> = Vec::new();
    r.push(83);
    r.push(97);
    r.push(118);
    r.push(101);
    r.push(100);
    r.push(32);
    r.push(102);
    r.push(105);
    r.push(108);
    r.push(101);
    r.push(32);
    r.push(97);
    r.push(115);
    r.push(32);
    r.push(39);
    push_bytes(&mut r, p);
    r.push(39);
    proof {
        assert(r@ =~= saved_message(p@));
    }
    r
}

/// Builds `Could not save file as '<path>': <err>`.
fn save_error_message_bytes(p: &Vec<u8>, err: &Vec<u8>) -> (r: Vec<u8>)
    ensures
        r@ == save_error_message(p@, err@),
{
    let mut r: Vec<u8> = Vec::new();
    r.push(67);
    r.push(111);
    r.push(117);
    r.push(108);
    r.push(100);
    r.push(32);
    r.push(110);
    r.push(111);
    r.push(116);
    r.push(32);
    r.push(115);
    r.push(97);
    r.push(118);
    r.push(101);
    r.push(32);
    r.push(102);
    r.push(105);
    r.push(108);
    r.push(101);
    r.push(32);
    r.push(97);
    r.push(115);
    r.push(32);
    r.push(39);
    push_bytes(&mut r, p);
    r.push(39);
    r.push(58);
    r.push(32);
    push_bytes(&mut r, err);
    proof {
        assert(r@ =~= save_error_message(p@, err@));
    }
    r
}

impl Editor {
    /// Records the path a save should write to: what the front end sets from
    /// the path prompt's answer when an untitled document is saved. `None`
    /// (a cancelled prompt) leaves the document untitled.
    pub fn set_path(&mut self, path: Option<Vec<u8>>)
        requires
            old(self).wf(),
        ensures
            final(self).wf(),
            *final(self) == (Editor { path, ..*old(self) }),
    {
        self.path = path;
    }

    /// Records the outcome of writing the document to its path. On success
    /// the unsaved flag clears and the message reports the save; on failure
    /// the message reports the error, the unsaved flag stays, and a path
    /// freshly chosen during this save is dropped again so the next save
    /// re-prompts (a pre-existing path is kept).
    pub fn finish_save(&mut self, ok: bool, err: Vec<u8>, path_was_new: bool)
        requires
            old(self).wf(),
            old(self).path is Some,
        ensures
            final(self).wf(),
            final(self).text == old(self).text,
            final(self).lines == old(self).lines,
            final(self).cursor == old(self).cursor,
            final(self).scroll == old(self).scroll,
            final(self).marker == old(self).marker,
            final(self).active == old(self).active,
            ok ==> {
                &&& final(self).unsaved_changes == false
                &&& final(self).path == old(self).path
                &&& old(self).path matches Some(p) && final(self).message matches Some(m) && m@
                    == saved_message(p@)
            },
            !ok ==> {
                &&& final(self).unsaved_changes == old(self).unsaved_changes
                &&& old(self).path matches Some(p) && final(self).message matches Some(m) && m@
                    == save_error_message(p@, err@)
                &&& final(self).path == (if path_was_new {
                    None
                } else {
                    old(self).path
                })
            },
    {
        let p: Vec<u8> = match &self.path {
            Some(q) => copy_range(q, 0, q.len()),
            None => Vec::new(),
        };
        if ok {
            let m = saved_message_bytes(&p);
            self.message = Some(m);
            self.unsaved_changes = false;
        } else {
            let m = save_error_message_bytes(&p, &err);
            self.message = Some(m);
            if path_was_new {
                self.path = None;
            }
        }
    }
}

/// The decimal digits of `n`.
pub open spec fn dec_rep(n: nat) -> Seq<u8>
    decreases n,
{
    if n < 10 {
        seq![(48 + n) as u8]
    } else {
        dec_rep(n / 10).push((48 + n % 10) as u8)
    }
}

/// Appends the decimal digits of `n` to `out`.
fn push_dec(n: usize, out: &mut Vec<u8>)
    ensures
        final(out)@ == old(out)@ + dec_rep(n as nat),
    decreases n,
{
    if n < 10 {
        out.push(48 + (n as u8));
        proof {
            assert(out@ =~= old(out)@ + dec_rep(n as nat));
        }
    } else {
        push_dec(n / 10, out);
        out.push(48 + ((n % 10) as u8));
        proof {
            assert(out@ =~= old(out)@ + dec_rep(n as nat));
        }
    }
}

/// The status line's text: the message an operation left, or
/// `[<line>, <column>] <title>` with the one-based cursor line, the
/// rendered cursor column, and the document title.
pub open spec fn status_text_spec(e: Editor) -> Seq<u8> {
    match e.message {
        Some(m) => m@,
        None => seq![91u8] + dec_rep((e.cursor.line + 1) as nat) + seq![44u8, 32u8] + dec_rep(
            crate::nav::physical_column_spec(e) as nat,
        ) + seq![93u8, 32u8] + crate::editor::title_spec(e),
    }
}

impl Editor {
    /// The text to render on the status line: a pending message, or the
    /// cursor position and the document title.
    pub fn status_text(&self) -> (r: Vec<u8>)
        requires
            self.wf(),
            self.text@.len() <= usize::MAX / 4,
            self.cursor.line < usize::MAX,
        ensures
            r@ == status_text_spec(*self),
    {
        match &self.message {
            Some(m) => copy_range(m, 0, m.len()),
            None => {
                let mut r: Vec<u8> = Vec::new();
                r.push(91);
                push_dec(self.cursor.line + 1, &mut r);
                r.push(44);
                r.push(32);
                let col = self.physical_column();
                push_dec(col, &mut r);
                r.push(93);
                r.push(32);
                let t = self.title();
                push_bytes(&mut r, &t);
                proof {
                    assert(r@ =~= status_text_spec(*self));
                }
                r
            },
        }
    }
}

/// One key press, as the editor core understands it. The front end
/// translates its input events into these before dispatching them.
#[derive(Clone, Copy, Debug)]
pub enum Key {
    Left,
    Right,
    Up,
    Down,
    PageUp,
    PageDown,
    Home,
    End,
    Backspace,
    Delete,
    Enter,
    Tab,
    Esc,
    Char(char),
    Other,
}

/// The modifier held with a key press.
#[derive(Clone, Copy, Debug)]
pub enum Mods {
    Plain,
    Shift,
    Ctrl,
    OtherMods,
}

/// True for the keys that move the cursor.
pub open spec fn is_move_key(key: Key) -> bool {
    ||| key is Left
    ||| key is Right
    ||| key is Up
    ||| key is Down
    ||| key is PageUp
    ||| key is PageDown
    ||| key is Home
    ||| key is End
}

/// The marker update a movement performs before moving: a shift-qualified
/// movement anchors the selection at the cursor's byte offset unless one is
/// already in progress, and an unqualified movement drops the anchor.
pub open spec fn marker_step(pre: Editor, shift: bool) -> Editor {
    if shift {
        if pre.marker is None {
            Editor { marker: Some(pre.char_index_spec() as usize), ..pre }
        } else {
            pre
        }
    } else {
        Editor { marker: None, ..pre }
    }
}

/// Which movement each key performs, from the state after the marker update.
pub open spec fn movement_rel(pre: Editor, post: Editor, key: Key, height: int) -> bool {
    &&& key is Left ==> move_left_rel(pre, post, height)
    &&& key is Right ==> move_right_rel(pre, post, height)
    &&& key is Up ==> move_vertical_rel(pre, post, 1, height, true)
    &&& key is Down ==> move_vertical_rel(pre, post, 1, height, false)
    &&& key is PageUp ==> move_vertical_rel(pre, post, height, height, true)
    &&& key is PageDown ==> move_vertical_rel(pre, post, height, height, false)
    &&& key is Home ==> post == (Editor {
        cursor: (Cursor { line: pre.cursor.line, column: 0 }),
        ..pre
    })
    &&& key is End ==> post == (Editor {
        cursor: (Cursor { line: pre.cursor.line, column: range_len(pre.cur_line()) as usize }),
        ..pre
    })
}

/// True for control-s, the combination that asks the front end to save.
pub open spec fn is_save_combo(key: Key, mods: Mods) -> bool {
    mods is Ctrl && (key matches Key::Char(c) && c == 's')
}

/// A lower-case ASCII letter raised to upper case; any other character is
/// returned unchanged.
pub open spec fn ascii_upper(c: char) -> char {
    if 'a' <= c && c <= 'z' {
        ((((c as u32) - 32) as u8) as char)
    } else {
        c
    }
}

fn to_upper(c: char) -> (r: char)
    ensures
        r == ascii_upper(c),
{
    if c >= 'a' && c <= 'z' {
        let v = (c as u32) - 32;
        (v as u8) as char
    } else {
        c
    }
}

/// What each non-movement key does to editor and configuration: plain keys
/// edit or deactivate, shifted letters insert their upper-case form, and
/// control combinations drive clipboard, save and the line-number toggle.
/// Keys with no role leave everything unchanged.
pub open spec fn input_edit_rel(
    pre: Editor,
    post: Editor,
    cfg0: Config,
    cfg1: Config,
    key: Key,
    mods: Mods,
    height: int,
) -> bool {
    if mods is Plain {
        match key {
            Key::Esc => post == (Editor { active: false, ..pre }) && cfg1 == cfg0,
            Key::Char(c) => insert_char_rel(pre, post, c, height) && cfg1 == cfg0,
            Key::Enter => insert_char_rel(pre, post, '\n', height) && cfg1 == cfg0,
            Key::Tab => insert_char_rel(pre, post, '\t', height) && cfg1 == cfg0,
            Key::Backspace => backspace_rel(pre, post, height) && cfg1 == cfg0,
            Key::Delete => delete_rel(pre, post) && cfg1 == cfg0,
            _ => post == pre && cfg1 == cfg0,
        }
    } else if mods is Shift {
        match key {
            Key::Char(c) => insert_char_rel(pre, post, ascii_upper(c), height) && cfg1 == cfg0,
            _ => post == pre && cfg1 == cfg0,
        }
    } else if mods is Ctrl {
        match key {
            Key::Char(c) => if c == 's' {
                post == pre && cfg1 == cfg0
            } else if c == 'c' {
                post == pre && cfg1.clipboard@ == copied_text(pre) && cfg1.line_numbers
                    == cfg0.line_numbers
            } else if c == 'x' {
                cut_rel(pre, post, cfg0, cfg1)
            } else if c == 'v' {
                paste_rel(pre, post, cfg0) && cfg1 == cfg0
            } else if c == 'l' {
                post == pre && cfg1 == (Config {
                    line_numbers: !cfg0.line_numbers,
                    ..cfg0
                })
            } else {
                post == pre && cfg1 == cfg0
            },
            _ => post == pre && cfg1 == cfg0,
        }
    } else {
        post == pre && cfg1 == cfg0
    }
}

impl Editor {
    fn step_marker(&mut self, shift: bool)
        requires
            old(self).wf(),
        ensures
            final(self).wf(),
            *final(self) == marker_step(*old(self), shift),
    {
        if shift {
            self.set_marker_if_absent();
        } else {
            self.clear_marker();
        }
    }

    /// Handles a key press if it is a movement key: updates the selection
    /// anchor for the shift state, then moves the cursor. Returns whether
    /// the key was consumed.
    pub fn input_movement(&mut self, key: Key, shift: bool, height: usize) -> (moved: bool)
        requires
            old(self).wf(),
        ensures
            final(self).wf(),
            moved == is_move_key(key),
            !moved ==> *final(self) == *old(self),
            moved ==> movement_rel(
                marker_step(*old(self), shift),
                *final(self),
                key,
                height as int,
            ),
    {
        match key {
            Key::Left => {
                self.step_marker(shift);
                self.move_left(height);
                true
            },
            Key::Right => {
                self.step_marker(shift);
                self.move_right(height);
                true
            },
            Key::Up => {
                self.step_marker(shift);
                self.move_up(1, height);
                true
            },
            Key::Down => {
                self.step_marker(shift);
                self.move_down(1, height);
                true
            },
            Key::PageUp => {
                self.step_marker(shift);
                self.move_up(height, height);
                true
            },
            Key::PageDown => {
                self.step_marker(shift);
                self.move_down(height, height);
                true
            },
            Key::Home => {
                self.step_marker(shift);
                self.move_home();
                true
            },
            Key::End => {
                self.step_marker(shift);
                self.move_end();
                true
            },
            _ => false,
        }
    }

    /// Dispatches one key press: movement keys move the cursor and manage
    /// the selection, plain keys edit the text, Esc deactivates the
    /// document, and control combinations drive clipboard, line numbers and
    /// save. Returns true when the front end should run its save flow
    /// (control-s), the one action that needs the outside world.
    pub fn input(&mut self, config: &mut Config, key: Key, mods: Mods, height: usize) -> (wants_save:
        bool)
        requires
            old(self).wf(),
            valid_utf8(old(config).clipboard@),
            old(self).text@.len() + old(config).clipboard@.len() + 4 <= usize::MAX,
        ensures
            final(self).wf(),
            wants_save == is_save_combo(key, mods),
            is_move_key(key) ==> movement_rel(
                marker_step(*old(self), mods is Shift),
                *final(self),
                key,
                height as int,
            ) && *final(config) == *old(config),
            !is_move_key(key) ==> input_edit_rel(
                *old(self),
                *final(self),
                *old(config),
                *final(config),
                key,
                mods,
                height as int,
            ),
    {
        let moved = self.input_movement(key, matches!(mods, Mods::Shift), height);
        if moved {
            return false;
        }
        match mods {
            Mods::Plain => match key {
                Key::Esc => {
                    self.leave();
                    false
                },
                Key::Char(c) => {
                    self.insert_char(c, height);
                    false
                },
                Key::Enter => {
                    self.insert_char('\n', height);
                    false
                },
                Key::Tab => {
                    self.insert_char('\t', height);
                    false
                },
                Key::Backspace => {
                    self.backspace(height);
                    false
                },
                Key::Delete => {
                    self.delete();
                    false
                },
                _ => false,
            },
            Mods::Shift => match key {
                Key::Char(c) => {
                    self.insert_char(to_upper(c), height);
                    false
                },
                _ => false,
            },
            Mods::Ctrl => match key {
                Key::Char(c) => {
                    if c == 's' {
                        true
                    } else if c == 'c' {
                        self.copy(config);
                        false
                    } else if c == 'x' {
                        self.cut(config);
                        false
                    } else if c == 'v' {
                        self.paste(config);
                        false
                    } else if c == 'l' {
                        config.line_numbers = !config.line_numbers;
                        false
                    } else {
                        false
                    }
                },
                _ => false,
            },
            Mods::OtherMods => false,
        }
    }
}

} // verus!
