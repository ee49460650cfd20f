use vstd::prelude::*;

verus! {

use vstd::utf8::{
    valid_utf8, is_char_boundary, is_char_boundary_iff_not_is_continuation_byte,
    is_char_boundary_start_end_of_seq,
};
use crate::unicode::lemma_boundary_after_ascii;

/// The newline byte that separates lines.
pub const NEWLINE: u8 = 10;

/// How many screen columns a tab character occupies.
pub const TAB_SIZE: usize = 4;

/// A half-open byte range `[start, end)` into the text. The line index uses
/// it for one line (whose `end` names the terminating newline byte, or the
/// text length for the final line); selections use it for the selected bytes.
#[derive(Clone, Copy, PartialEq, Eq, Structural, Debug)]
pub struct ByteRange {
    pub start: usize,
    pub end: usize,
}

/// Length in bytes of the range.
pub open spec fn range_len(r: ByteRange) -> int {
    r.end - r.start
}

/// No newline byte inside the range.
pub open spec fn line_clean(t: Seq<u8>, r: ByteRange) -> bool {
    forall|j: int| r.start <= j < r.end ==> t[j] != NEWLINE
}

/// `ls` is the line index of text `t`: at least one line, the first starting
/// at 0, the last ending at the text length, each line followed by the
/// newline byte it excludes, consecutive lines adjacent across that newline,
/// and no newline inside any line. These clauses pin the index down uniquely
/// (`lemma_lines_wf_unique`) and make the ranges `[start, end]` partition
/// `[0, len]` contiguously.
pub open spec fn lines_wf(t: Seq<u8>, ls: Seq<ByteRange>) -> bool {
    &&& ls.len() >= 1
    &&& ls[0].start == 0
    &&& ls[ls.len() - 1].end == t.len()
    &&& forall|i: int| 0 <= i < ls.len() ==> (#[trigger] ls[i]).start <= ls[i].end <= t.len()
    &&& forall|i: int|
        #![trigger ls[i], ls[i + 1]]
        0 <= i < ls.len() - 1 ==> ls[i].end + 1 == ls[i + 1].start
    &&& forall|i: int| 0 <= i < ls.len() - 1 ==> t[(#[trigger] ls[i]).end as int] == NEWLINE
    &&& forall|i: int| 0 <= i < ls.len() ==> line_clean(t, #[trigger] ls[i])
}

/// True when `pos` falls on line `r`: the line's bytes plus the position of
/// its terminating newline (or the end of the text), so that a cursor can sit
/// just past the last byte of the line.
pub open spec fn pos_on_line(r: ByteRange, pos: int) -> bool {
    r.start <= pos <= r.end
}

/// Builds the line index of `text` by splitting at every newline byte. The
/// result satisfies `lines_wf`, so it has at least one line even for empty
/// text, and its ranges partition `[0, len]` with no gaps or overlaps.
pub fn build_lines(text: &Vec<u8>) -> (r: Vec<ByteRange>)
    ensures
        lines_wf(text@, r@),
{
    let mut r: Vec<ByteRange> = Vec::new();
    let mut start: usize = 0;
    let mut i: usize = 0;
    while i < text.len()
        invariant
            start <= i <= text@.len(),
            r@.len() == 0 ==> start == 0,
            r@.len() >= 1 ==> r@[0].start == 0,
            r@.len() >= 1 ==> start == r@[r@.len() - 1].end + 1,
            forall|k: int| 0 <= k < r@.len() ==> (#[trigger] r@[k]).start <= r@[k].end < i,
            forall|k: int|
                #![trigger r@[k], r@[k + 1]]
                0 <= k < r@.len() - 1 ==> r@[k].end + 1 == r@[k + 1].start,
            forall|k: int| 0 <= k < r@.len() ==> text@[(#[trigger] r@[k]).end as int] == NEWLINE,
            forall|k: int| 0 <= k < r@.len() ==> line_clean(text@, #[trigger] r@[k]),
            forall|j: int| start <= j < i ==> text@[j] != NEWLINE,
        decreases text@.len() - i,
    {
        if text[i] == NEWLINE {
            r.push(ByteRange { start, end: i });
            start = i + 1;
        }
        i = i + 1;
    }
    r.push(ByteRange { start, end: text.len() });
    r
}

/// Every position from 0 to the text length falls on some line.
pub proof fn lemma_lines_cover(t: Seq<u8>, ls: Seq<ByteRange>, pos: int)
    requires
        lines_wf(t, ls),
        0 <= pos <= t.len(),
    ensures
        exists|i: int| 0 <= i < ls.len() && pos_on_line(#[trigger] ls[i], pos),
{
    lemma_lines_cover_from(t, ls, pos, 0);
}

proof fn lemma_lines_cover_from(t: Seq<u8>, ls: Seq<ByteRange>, pos: int, i: int)
    requires
        lines_wf(t, ls),
        0 <= i < ls.len(),
        ls[i].start <= pos <= t.len(),
    ensures
        exists|k: int| i <= k < ls.len() && pos_on_line(#[trigger] ls[k], pos),
    decreases ls.len() - i,
{
    if pos <= ls[i].end {
        assert(pos_on_line(ls[i], pos));
    } else {
        assert(i < ls.len() - 1);
        lemma_lines_cover_from(t, ls, pos, i + 1);
    }
}

/// Lines that come earlier in the index end strictly before later lines
/// start, so the ranges `[start, end]` are pairwise disjoint.
pub proof fn lemma_lines_ordered(t: Seq<u8>, ls: Seq<ByteRange>, i: int, j: int)
    requires
        lines_wf(t, ls),
        0 <= i < j < ls.len(),
    ensures
        ls[i].end < ls[j].start,
    decreases j - i,
{
    assert(ls[i].end + 1 == ls[i + 1].start);
    if j == i + 1 {
    } else {
        lemma_lines_ordered(t, ls, i + 1, j);
    }
}

/// A position falls on exactly one line.
pub proof fn lemma_line_of_pos_unique(t: Seq<u8>, ls: Seq<ByteRange>, pos: int, i: int, j: int)
    requires
        lines_wf(t, ls),
        0 <= i < ls.len(),
        0 <= j < ls.len(),
        pos_on_line(ls[i], pos),
        pos_on_line(ls[j], pos),
    ensures
        i == j,
{
    if i < j {
        lemma_lines_ordered(t, ls, i, j);
    } else if j < i {
        lemma_lines_ordered(t, ls, j, i);
    }
}

/// The clauses of `lines_wf` determine the line index: two indices for the
/// same text are equal.
pub proof fn lemma_lines_wf_unique(t: Seq<u8>, l1: Seq<ByteRange>, l2: Seq<ByteRange>)
    requires
        lines_wf(t, l1),
        lines_wf(t, l2),
    ensures
        l1 == l2,
{
    lemma_lines_eq_from(t, l1, l2, 0);
    assert(l1 =~= l2);
}

proof fn lemma_lines_eq_from(t: Seq<u8>, l1: Seq<ByteRange>, l2: Seq<ByteRange>, i: int)
    requires
        lines_wf(t, l1),
        lines_wf(t, l2),
        0 <= i < l1.len(),
        i < l2.len(),
        l1[i].start == l2[i].start,
    ensures
        l1.len() == l2.len(),
        forall|k: int| i <= k < l1.len() ==> l1[k] == l2[k],
    decreases l1.len() - i,
{
    let e1 = l1[i].end as int;
    let e2 = l2[i].end as int;
    // The end of line i is determined: it is the first newline at or after
    // the shared start, or the end of the text if there is none.
    if i < l1.len() - 1 && i < l2.len() - 1 {
        if e1 < e2 {
            assert(line_clean(t, l2[i]));
            assert(t[e1] != NEWLINE);
            assert(false);
        }
        if e2 < e1 {
            assert(line_clean(t, l1[i]));
            assert(t[e2] != NEWLINE);
            assert(false);
        }
        lemma_lines_eq_from(t, l1, l2, i + 1);
    } else if i == l1.len() - 1 && i < l2.len() - 1 {
        // l1 says line i runs to the end of the text, l2 says a newline ends
        // it earlier: that newline would sit inside l1's line.
        assert(e1 == t.len());
        assert(e2 < e1) by {
            assert(l2[i].end + 1 == l2[i + 1].start);
            assert(l2[i + 1].start <= l2[i + 1].end <= t.len());
        }
        assert(line_clean(t, l1[i]));
        assert(t[e2] != NEWLINE);
        assert(false);
    } else if i < l1.len() - 1 && i == l2.len() - 1 {
        assert(e2 == t.len());
        assert(e1 < e2) by {
            assert(l1[i].end + 1 == l1[i + 1].start);
            assert(l1[i + 1].start <= l1[i + 1].end <= t.len());
        }
        assert(line_clean(t, l2[i]));
        assert(t[e1] != NEWLINE);
        assert(false);
    } else {
        assert(e1 == t.len() && e2 == t.len());
        assert(l1.len() == l2.len());
    }
}

/// In well-formed UTF-8 text, every line starts and ends on a character
/// boundary: the start is 0 or just past a newline, the end is a newline
/// byte or the end of the text.
pub proof fn lemma_line_edges_are_boundaries(t: Seq<u8>, ls: Seq<ByteRange>, i: int)
    requires
        valid_utf8(t),
        lines_wf(t, ls),
        0 <= i < ls.len(),
    ensures
        is_char_boundary(t, ls[i].start as int),
        is_char_boundary(t, ls[i].end as int),
{
    is_char_boundary_start_end_of_seq(t);
    if i > 0 {
        let k = i - 1;
        assert(ls[k].end + 1 == ls[k + 1].start);
        assert(t[ls[k].end as int] == NEWLINE);
        lemma_boundary_after_ascii(t, ls[k].end as int);
    }
    if i < ls.len() - 1 {
        assert(ls[i].end + 1 == ls[i + 1].start);
        assert(ls[i].end < t.len());
        assert(t[ls[i].end as int] == NEWLINE);
        is_char_boundary_iff_not_is_continuation_byte(t, ls[i].end as int);
    } else {
        assert(ls[i].end == t.len());
    }
}

} // verus!
