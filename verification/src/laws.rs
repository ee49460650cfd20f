use vstd::prelude::*;

verus! {

use crate::config::Config;
use crate::edit::{insert_char_rel, backspace_rel, cut_rel, paste_rel, sel_start, sel_end, cut_end};
use crate::editor::Editor;
use crate::lines::{ByteRange, lines_wf, range_len, pos_on_line, lemma_lines_cover,
    lemma_line_of_pos_unique, lemma_lines_wf_unique, NEWLINE};
use crate::nav::{move_left_rel, move_right_rel};
use crate::unicode::{is_next_boundary, is_prev_boundary, prev_boundary_pos,
    lemma_prev_boundary_ge, lemma_insert_char_boundaries};
use vstd::utf8::encode_scalar;

/// A well-formed line index partitions the positions `0` to `len(text)`:
/// there is at least one line, and every position falls on exactly one
/// line's range (end included).
pub proof fn lemma_line_index_partitions(t: Seq<u8>, ls: Seq<ByteRange>, pos: int)
    requires
        lines_wf(t, ls),
        0 <= pos <= t.len(),
    ensures
        ls.len() >= 1,
        ls[0].start == 0,
        ls[ls.len() - 1].end == t.len(),
        exists|i: int| 0 <= i < ls.len() && pos_on_line(#[trigger] ls[i], pos),
        forall|i: int, j: int|
            #![trigger ls[i], ls[j]]
            (0 <= i < ls.len() && 0 <= j < ls.len() && pos_on_line(ls[i], pos) && pos_on_line(
                ls[j],
                pos,
            )) ==> i == j,
{
    lemma_lines_cover(t, ls, pos);
    assert forall|i: int, j: int|
        #![trigger ls[i], ls[j]]
        (0 <= i < ls.len() && 0 <= j < ls.len() && pos_on_line(ls[i], pos) && pos_on_line(
            ls[j],
            pos,
        )) implies i == j by {
        lemma_line_of_pos_unique(t, ls, pos, i, j);
    }
}

/// Two well-placed cursors at the same byte offset of the same document are
/// the same cursor: the line index and a byte offset determine line and
/// column.
pub proof fn lemma_cursor_determined(a: Editor, b: Editor)
    requires
        a.wf(),
        b.wf(),
        a.text@ == b.text@,
        a.lines@ == b.lines@,
        a.char_index_spec() == b.char_index_spec(),
    ensures
        a.cursor == b.cursor,
{
    assert(pos_on_line(a.lines@[a.cursor.line as int], a.char_index_spec()));
    assert(pos_on_line(b.lines@[b.cursor.line as int], b.char_index_spec()));
    lemma_line_of_pos_unique(
        a.text@,
        a.lines@,
        a.char_index_spec(),
        a.cursor.line as int,
        b.cursor.line as int,
    );
}

/// Stepping right and then left, from any cursor position other than the
/// document end, returns the cursor to exactly where it started, whatever
/// viewport heights the two moves saw.
pub proof fn lemma_move_right_left_round_trip(
    s0: Editor,
    s1: Editor,
    s2: Editor,
    h1: int,
    h2: int,
)
    requires
        s0.wf(),
        s1.wf(),
        s0.char_index_spec() < s0.text@.len(),
        move_right_rel(s0, s1, h1),
        move_left_rel(s1, s2, h2),
    ensures
        s2.cursor == s0.cursor,
{
    let t = s0.text@;
    let ci0 = s0.char_index_spec();
    if s0.cursor.column < range_len(s0.cur_line()) {
        let r = s0.cur_line().start + s1.cursor.column as int;
        assert(is_next_boundary(t, ci0, r));
        assert(s1.cursor.column > 0);
        let p = s1.cur_line().start + s2.cursor.column as int;
        assert(is_prev_boundary(t, r, p));
        assert(is_prev_boundary(t, r, ci0));
        lemma_prev_boundary_ge(t, r, p, ci0);
        lemma_prev_boundary_ge(t, r, ci0, p);
    } else {
        // The cursor sat at the end of its line; since it was not at the
        // document end, that line is not the last one.
        assert(ci0 == s0.cur_line().end);
        if s0.cursor.line as int == s0.lines@.len() - 1 {
            assert(false);
        }
        assert(s1.cursor.line == s0.cursor.line + 1);
        assert(s1.cursor.column == 0);
        assert(s2.cursor.line == s0.cursor.line);
        assert(s2.cursor.column as int == range_len(s1.lines@[s1.cursor.line - 1]));
    }
}

/// Inserting a character and immediately backspacing leaves the text
/// unchanged and the cursor at its pre-insert position.
pub proof fn lemma_insert_backspace_round_trip(
    s0: Editor,
    s1: Editor,
    s2: Editor,
    c: char,
    h1: int,
    h2: int,
)
    requires
        s0.wf(),
        s1.wf(),
        s2.wf(),
        insert_char_rel(s0, s1, c, h1),
        backspace_rel(s1, s2, h2),
    ensures
        s2.text@ == s0.text@,
        s2.cursor == s0.cursor,
{
    let t = s0.text@;
    let ci = s0.char_index_spec();
    let enc = encode_scalar(c as u32);
    let k = enc.len() as int;
    let t1 = s1.text@;
    lemma_insert_char_boundaries(t, ci, c);
    assert(s1.char_index_spec() == ci + k);
    assert(is_prev_boundary(t1, ci + k, ci));
    let q = prev_boundary_pos(t1, ci + k);
    assert(is_prev_boundary(t1, ci + k, q)) by {
        assert(exists|x: int| #[trigger] is_prev_boundary(t1, ci + k, x));
    }
    lemma_prev_boundary_ge(t1, ci + k, q, ci);
    lemma_prev_boundary_ge(t1, ci + k, ci, q);
    assert(q == ci);
    assert(s2.text@ =~= t) by {
        assert(t1.subrange(0, ci) =~= t.subrange(0, ci));
        assert(t1.subrange(ci + k, t1.len() as int) =~= t.subrange(ci, t.len() as int));
    }
    assert(s2.lines@ == s0.lines@) by {
        lemma_lines_wf_unique(t, s2.lines@, s0.lines@);
    }
    lemma_cursor_determined(s2, s0);
}

/// Cutting and immediately pasting at the resulting cursor restores the
/// text exactly. Every explicit selection is covered; a whole-line cut is
/// covered when the cut line has a terminating newline. (Cutting the final
/// line of a document with no trailing newline is the one exception: the
/// clipboard gains a newline the text never had, so pasting appends one.)
pub proof fn lemma_cut_paste_round_trip(
    s0: Editor,
    s1: Editor,
    s2: Editor,
    cfg0: Config,
    cfg1: Config,
)
    requires
        s0.wf(),
        s1.wf(),
        cut_rel(s0, s1, cfg0, cfg1),
        paste_rel(s1, s2, cfg1),
        s0.marker is Some || s0.cur_line().end < s0.text@.len(),
    ensures
        s2.text@ == s0.text@,
{
    let t = s0.text@;
    let a = sel_start(s0);
    let b = sel_end(s0);
    let b2 = cut_end(s0);
    let t1 = s1.text@;
    assert(s2.text@ == t1.subrange(0, a) + cfg1.clipboard@ + t1.subrange(a, t1.len() as int));
    assert(t1.subrange(0, a) =~= t.subrange(0, a));
    assert(t1.subrange(a, t1.len() as int) =~= t.subrange(b2, t.len() as int));
    if s0.marker is Some {
        assert(b2 == b);
        assert(s2.text@ =~= t);
    } else {
        assert(b == s0.cur_line().end);
        assert(b < t.len());
        assert(t[b] == NEWLINE) by {
            if s0.cursor.line as int == s0.lines@.len() - 1 {
                assert(false);
            }
        }
        assert(b2 == b + 1);
        assert(cfg1.clipboard@ =~= t.subrange(a, b) + seq![NEWLINE]);
        assert(s2.text@ =~= t);
    }
}

/// The selection handed out is always normalized: its start never exceeds
/// its end, whichever side of the cursor the marker sits on.
pub proof fn lemma_selection_normalized(e: Editor)
    requires
        e.wf(),
    ensures
        sel_start(e) <= sel_end(e),
{
}

} // verus!
