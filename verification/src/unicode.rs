use vstd::prelude::*;

verus! {

use vstd::utf8::{
    valid_utf8, is_char_boundary, is_continuation_byte, encode_scalar,
    is_leading_byte_width_1, has_width_1_encoding, has_width_2_encoding, has_width_3_encoding,
    char_is_scalar, valid_first_scalar, length_of_first_scalar, pop_first_scalar,
    is_char_boundary_iff_not_is_continuation_byte, is_char_boundary_start_end_of_seq,
    valid_utf8_split, valid_utf8_concat, encode_utf8, encode_utf8_valid_utf8,
};

/// True when `r` is the nearest character boundary strictly after `i`.
pub open spec fn is_next_boundary(t: Seq<u8>, i: int, r: int) -> bool {
    &&& i < r <= t.len()
    &&& is_char_boundary(t, r)
    &&& forall|j: int| i < j < r ==> !is_char_boundary(t, j)
}

/// True when `r` is the nearest character boundary strictly before `i`.
pub open spec fn is_prev_boundary(t: Seq<u8>, i: int, r: int) -> bool {
    &&& 0 <= r < i
    &&& is_char_boundary(t, r)
    &&& forall|j: int| r < j < i ==> !is_char_boundary(t, j)
}

/// Number of characters encoded in the byte range `[a, b)`: in well-formed
/// UTF-8 every byte that is not a continuation byte starts a character.
pub open spec fn count_chars(t: Seq<u8>, a: int, b: int) -> int
    decreases b - a,
{
    if a >= b {
        0
    } else {
        count_chars(t, a, b - 1) + if is_continuation_byte(t[b - 1]) {
            0int
        } else {
            1int
        }
    }
}

/// Number of tab bytes in the byte range `[a, b)`.
pub open spec fn count_tabs(t: Seq<u8>, a: int, b: int) -> int
    decreases b - a,
{
    if a >= b {
        0
    } else {
        count_tabs(t, a, b - 1) + if t[b - 1] == 9u8 {
            1int
        } else {
            0int
        }
    }
}

/// True when position `i` of the UTF-8 text is a character boundary.
pub fn boundary_at(t: &Vec<u8>, i: usize) -> (r: bool)
    requires
        valid_utf8(t@),
        i <= t.len(),
    ensures
        r == is_char_boundary(t@, i as int),
{
    if i == t.len() {
        proof {
            is_char_boundary_start_end_of_seq(t@);
        }
        true
    } else {
        let b = t[i];
        proof {
            is_char_boundary_iff_not_is_continuation_byte(t@, i as int);
        }
        !(b >= 0x80 && b <= 0xBF)
    }
}

/// Smallest character boundary strictly after `i`: the byte position just
/// past the character that starts at or covers `i`.
pub fn next_boundary_from(t: &Vec<u8>, i: usize) -> (r: usize)
    requires
        valid_utf8(t@),
        i < t.len(),
    ensures
        is_next_boundary(t@, i as int, r as int),
{
    let mut j: usize = i + 1;
    while j < t.len() && t[j] >= 0x80 && t[j] <= 0xBF
        invariant
            valid_utf8(t@),
            i < j <= t.len(),
            forall|m: int| i < m < j ==> is_continuation_byte(t@[m]),
        decreases t.len() - j,
    {
        j = j + 1;
    }
    proof {
        if j < t.len() {
            is_char_boundary_iff_not_is_continuation_byte(t@, j as int);
        } else {
            is_char_boundary_start_end_of_seq(t@);
        }
        assert forall|m: int| i < m < j implies !is_char_boundary(t@, m) by {
            is_char_boundary_iff_not_is_continuation_byte(t@, m);
        }
    }
    j
}

/// Largest character boundary strictly before `i`: the start of the character
/// that precedes position `i`.
pub fn prev_boundary_from(t: &Vec<u8>, i: usize) -> (r: usize)
    requires
        valid_utf8(t@),
        0 < i <= t.len(),
    ensures
        is_prev_boundary(t@, i as int, r as int),
{
    let mut j: usize = i - 1;
    while j > 0 && t[j] >= 0x80 && t[j] <= 0xBF
        invariant
            valid_utf8(t@),
            0 <= j < i <= t.len(),
            forall|m: int| j < m < i ==> is_continuation_byte(t@[m]),
        decreases j,
    {
        j = j - 1;
    }
    proof {
        if j == 0 {
            is_char_boundary_start_end_of_seq(t@);
            if t@.len() > 0 {
                is_char_boundary_iff_not_is_continuation_byte(t@, 0);
            }
        } else {
            is_char_boundary_iff_not_is_continuation_byte(t@, j as int);
        }
        assert forall|m: int| j < m < i implies !is_char_boundary(t@, m) by {
            is_char_boundary_iff_not_is_continuation_byte(t@, m);
        }
    }
    j
}

/// Number of characters in the byte range `[a, b)` of the text.
pub fn chars_between(t: &Vec<u8>, a: usize, b: usize) -> (r: usize)
    requires
        a <= b <= t.len(),
    ensures
        r == count_chars(t@, a as int, b as int),
        r <= b - a,
{
    let mut n: usize = 0;
    let mut i: usize = a;
    while i < b
        invariant
            a <= i <= b <= t.len(),
            n == count_chars(t@, a as int, i as int),
            n <= i - a,
        decreases b - i,
    {
        let byte = t[i];
        if !(byte >= 0x80 && byte <= 0xBF) {
            n = n + 1;
        }
        i = i + 1;
    }
    n
}

/// Number of tab bytes in the byte range `[a, b)` of the text.
pub fn tabs_between(t: &Vec<u8>, a: usize, b: usize) -> (r: usize)
    requires
        a <= b <= t.len(),
    ensures
        r == count_tabs(t@, a as int, b as int),
        r <= b - a,
{
    let mut n: usize = 0;
    let mut i: usize = a;
    while i < b
        invariant
            a <= i <= b <= t.len(),
            n == count_tabs(t@, a as int, i as int),
            n <= i - a,
        decreases b - i,
    {
        if t[i] == 9 {
            n = n + 1;
        }
        i = i + 1;
    }
    n
}

/// Copy of the byte range `[a, b)` of the text.
pub fn copy_range(t: &Vec<u8>, a: usize, b: usize) -> (r: Vec<u8>)
    requires
        a <= b <= t.len(),
    ensures
        r@ == t@.subrange(a as int, b as int),
{
    let mut r: Vec<u8> = Vec::new();
    let mut i: usize = a;
    while i < b
        invariant
            a <= i <= b <= t.len(),
            r@ == t@.subrange(a as int, i as int),
        decreases b - i,
    {
        r.push(t[i]);
        proof {
            assert(t@.subrange(a as int, i + 1) =~= t@.subrange(a as int, i as int).push(
                t@[i as int],
            ));
        }
        i = i + 1;
    }
    r
}

/// Removes the byte range `[a, b)` from the text.
pub fn splice_out(t: &mut Vec<u8>, a: usize, b: usize)
    requires
        a <= b <= old(t).len(),
    ensures
        final(t)@ == old(t)@.subrange(0, a as int) + old(t)@.subrange(
            b as int,
            old(t)@.len() as int,
        ),
{
    let ghost t0 = t@;
    let mut r: Vec<u8> = Vec::new();
    let mut i: usize = 0;
    while i < a
        invariant
            i <= a <= b <= t@.len(),
            t@ == t0,
            r@ == t0.subrange(0, i as int),
        decreases a - i,
    {
        r.push(t[i]);
        proof {
            assert(t0.subrange(0, i + 1) =~= t0.subrange(0, i as int).push(t0[i as int]));
        }
        i = i + 1;
    }
    let mut j: usize = b;
    while j < t.len()
        invariant
            a <= b <= j <= t@.len(),
            t@ == t0,
            r@ == t0.subrange(0, a as int) + t0.subrange(b as int, j as int),
        decreases t@.len() - j,
    {
        r.push(t[j]);
        proof {
            assert(t0.subrange(b as int, j + 1) =~= t0.subrange(b as int, j as int).push(
                t0[j as int],
            ));
            assert(t0.subrange(0, a as int) + t0.subrange(b as int, j + 1) =~= (t0.subrange(
                0,
                a as int,
            ) + t0.subrange(b as int, j as int)).push(t0[j as int]));
        }
        j = j + 1;
    }
    proof {
        assert(r@ =~= t0.subrange(0, a as int) + t0.subrange(b as int, t0.len() as int));
    }
    *t = r;
}

/// Inserts the bytes `ins` at position `a` of the text.
pub fn splice_in(t: &mut Vec<u8>, a: usize, ins: &Vec<u8>)
    requires
        a <= old(t).len(),
    ensures
        final(t)@ == old(t)@.subrange(0, a as int) + ins@ + old(t)@.subrange(
            a as int,
            old(t)@.len() as int,
        ),
{
    let ghost t0 = t@;
    let mut r: Vec<u8> = Vec::new();
    let mut i: usize = 0;
    while i < a
        invariant
            i <= a <= t@.len(),
            t@ == t0,
            r@ == t0.subrange(0, i as int),
        decreases a - i,
    {
        r.push(t[i]);
        proof {
            assert(t0.subrange(0, i + 1) =~= t0.subrange(0, i as int).push(t0[i as int]));
        }
        i = i + 1;
    }
    let mut k: usize = 0;
    while k < ins.len()
        invariant
            a <= t@.len(),
            t@ == t0,
            k <= ins@.len(),
            r@ == t0.subrange(0, a as int) + ins@.subrange(0, k as int),
        decreases ins@.len() - k,
    {
        r.push(ins[k]);
        proof {
            assert(ins@.subrange(0, k + 1) =~= ins@.subrange(0, k as int).push(ins@[k as int]));
            assert(t0.subrange(0, a as int) + ins@.subrange(0, k + 1) =~= (t0.subrange(0, a as int)
                + ins@.subrange(0, k as int)).push(ins@[k as int]));
        }
        k = k + 1;
    }
    let mut j: usize = a;
    while j < t.len()
        invariant
            a <= j <= t@.len(),
            t@ == t0,
            r@ == t0.subrange(0, a as int) + ins@ + t0.subrange(a as int, j as int),
        decreases t@.len() - j,
    {
        r.push(t[j]);
        proof {
            assert(ins@.subrange(0, ins@.len() as int) =~= ins@);
            assert(t0.subrange(a as int, j + 1) =~= t0.subrange(a as int, j as int).push(
                t0[j as int],
            ));
            assert(t0.subrange(0, a as int) + ins@ + t0.subrange(a as int, j + 1) =~= (t0.subrange(
                0,
                a as int,
            ) + ins@ + t0.subrange(a as int, j as int)).push(t0[j as int]));
        }
        j = j + 1;
    }
    proof {
        assert(ins@.subrange(0, ins@.len() as int) =~= ins@);
        assert(r@ =~= t0.subrange(0, a as int) + ins@ + t0.subrange(a as int, t0.len() as int));
    }
    *t = r;
}

/// The UTF-8 encoding of a single character, byte for byte what
/// `encode_scalar` describes.
pub fn encode_char(c: char) -> (r: Vec<u8>)
    ensures
        r@ == encode_scalar(c as u32),
        1 <= r@.len() <= 4,
{
    proof {
        char_is_scalar(c);
    }
    let v = c as u32;
    let mut r: Vec<u8> = Vec::new();
    if v <= 0x7F {
        r.push((v & 0x7F) as u8);
        proof {
            assert(r@ =~= encode_scalar(v));
        }
    } else if v <= 0x7FF {
        r.push(0xC0 | (((v >> 6) & 0x1F) as u8));
        r.push(0x80 | ((v & 0x3F) as u8));
        proof {
            assert(r@ =~= encode_scalar(v));
        }
    } else if v <= 0xFFFF {
        r.push(0xE0 | (((v >> 12) & 0x0F) as u8));
        r.push(0x80 | (((v >> 6) & 0x3F) as u8));
        r.push(0x80 | ((v & 0x3F) as u8));
        proof {
            assert(r@ =~= encode_scalar(v));
        }
    } else {
        r.push(0xF0 | (((v >> 18) & 0x7) as u8));
        r.push(0x80 | (((v >> 12) & 0x3F) as u8));
        r.push(0x80 | (((v >> 6) & 0x3F) as u8));
        r.push(0x80 | ((v & 0x3F) as u8));
        proof {
            assert(r@ =~= encode_scalar(v));
        }
    }
    r
}

proof fn bits_width_1(v: u32)
    by (bit_vector)
    requires
        v <= 0x7F,
    ensures
        ((v & 0x7F) as u8) < 0x80,
{
}

proof fn bits_width_2(v: u32)
    by (bit_vector)
    requires
        0x80 <= v <= 0x7FF,
    ensures
        (0xC0 | (((v >> 6) & 0x1F) as u8)) >= 0xC0,
        0x80 <= (0x80 | ((v & 0x3F) as u8)) <= 0xbf,
{
}

proof fn bits_width_3(v: u32)
    by (bit_vector)
    requires
        0x800 <= v <= 0xFFFF,
    ensures
        (0xE0 | (((v >> 12) & 0x0F) as u8)) >= 0xC0,
        0x80 <= (0x80 | (((v >> 6) & 0x3F) as u8)) <= 0xbf,
        0x80 <= (0x80 | ((v & 0x3F) as u8)) <= 0xbf,
{
}

proof fn bits_width_4(v: u32)
    by (bit_vector)
    requires
        0x10000 <= v <= 0x10FFFF,
    ensures
        (0xF0 | (((v >> 18) & 0x7) as u8)) >= 0xC0,
        0x80 <= (0x80 | (((v >> 12) & 0x3F) as u8)) <= 0xbf,
        0x80 <= (0x80 | (((v >> 6) & 0x3F) as u8)) <= 0xbf,
        0x80 <= (0x80 | ((v & 0x3F) as u8)) <= 0xbf,
{
}

/// A character's encoding is itself well-formed UTF-8: one leading byte that
/// is not a continuation byte, followed only by continuation bytes.
pub proof fn lemma_encode_scalar_shape(c: char)
    ensures
        1 <= encode_scalar(c as u32).len() <= 4,
        valid_utf8(encode_scalar(c as u32)),
        !is_continuation_byte(encode_scalar(c as u32)[0]),
        forall|j: int|
            0 < j < encode_scalar(c as u32).len() ==> is_continuation_byte(
                #[trigger] encode_scalar(c as u32)[j],
            ),
        encode_scalar(c as u32).len() >= 2 ==> encode_scalar(c as u32)[0] >= 0xC0,
        encode_scalar(c as u32).len() == 1 ==> encode_scalar(c as u32)[0] < 0x80,
{
    char_is_scalar(c);
    let v = c as u32;
    encode_utf8_valid_utf8(seq![c]);
    reveal_with_fuel(encode_utf8, 2);
    assert(encode_utf8(seq![c]) =~= encode_scalar(v));
    if has_width_1_encoding(v) {
        bits_width_1(v);
    } else if has_width_2_encoding(v) {
        bits_width_2(v);
    } else if has_width_3_encoding(v) {
        bits_width_3(v);
    } else {
        bits_width_4(v);
    }
}

/// The position the cursor reaches when it steps back one character from
/// `i`: the nearest boundary strictly before `i`.
pub open spec fn prev_boundary_pos(t: Seq<u8>, i: int) -> int {
    choose|p: int| is_prev_boundary(t, i, p)
}

/// The position the cursor reaches when it steps forward one character from
/// `i`: the nearest boundary strictly after `i`.
pub open spec fn next_boundary_pos(t: Seq<u8>, i: int) -> int {
    choose|r: int| is_next_boundary(t, i, r)
}

/// In well-formed UTF-8 a position is a boundary exactly when it is the end
/// of the text or its byte is not a continuation byte.
pub proof fn lemma_boundary_by_byte(t: Seq<u8>, i: int)
    requires
        valid_utf8(t),
        0 <= i <= t.len(),
    ensures
        is_char_boundary(t, i) <==> (i == t.len() || !is_continuation_byte(t[i])),
{
    if i < t.len() {
        is_char_boundary_iff_not_is_continuation_byte(t, i);
    } else {
        is_char_boundary_start_end_of_seq(t);
    }
}

/// The next boundary after `i` comes no later than any other boundary
/// beyond `i`.
pub proof fn lemma_next_boundary_le(t: Seq<u8>, i: int, r: int, e: int)
    requires
        is_next_boundary(t, i, r),
        is_char_boundary(t, e),
        i < e,
    ensures
        r <= e,
{
    if e < r {
        assert(!is_char_boundary(t, e));
    }
}

/// The previous boundary before `i` comes no earlier than any other
/// boundary short of `i`.
pub proof fn lemma_prev_boundary_ge(t: Seq<u8>, i: int, r: int, e: int)
    requires
        is_prev_boundary(t, i, r),
        is_char_boundary(t, e),
        e < i,
    ensures
        e <= r,
{
    if r < e {
        assert(!is_char_boundary(t, e));
    }
}

/// In well-formed UTF-8, the position just past an ASCII byte (such as a
/// newline) is a character boundary.
pub proof fn lemma_boundary_after_ascii(t: Seq<u8>, p: int)
    requires
        valid_utf8(t),
        0 <= p < t.len(),
        t[p] < 0x80,
    ensures
        is_char_boundary(t, p + 1),
{
    is_char_boundary_iff_not_is_continuation_byte(t, p);
    if p + 1 == t.len() {
        is_char_boundary_start_end_of_seq(t);
    } else {
        valid_utf8_split(t, p);
        let tail = t.subrange(p, t.len() as int);
        assert(valid_utf8(tail));
        assert(tail.len() > 0);
        assert(valid_first_scalar(tail));
        assert(is_leading_byte_width_1(tail[0]));
        assert(length_of_first_scalar(tail) == 1);
        assert(is_char_boundary(tail, 1)) by {
            assert(is_char_boundary(pop_first_scalar(tail), 0));
        }
        is_char_boundary_iff_not_is_continuation_byte(tail, 1);
        assert(!is_continuation_byte(t[p + 1]));
        is_char_boundary_iff_not_is_continuation_byte(t, p + 1);
    }
}

/// Removing the byte range between two character boundaries leaves
/// well-formed UTF-8 behind.
pub proof fn lemma_valid_remove(t: Seq<u8>, a: int, b: int)
    requires
        valid_utf8(t),
        0 <= a <= b <= t.len(),
        is_char_boundary(t, a),
        is_char_boundary(t, b),
    ensures
        valid_utf8(t.subrange(0, a) + t.subrange(b, t.len() as int)),
{
    valid_utf8_split(t, a);
    valid_utf8_split(t, b);
    valid_utf8_concat(t.subrange(0, a), t.subrange(b, t.len() as int));
}

/// A single ASCII byte is well-formed UTF-8 on its own.
pub proof fn lemma_valid_ascii_byte(b: u8)
    requires
        b < 0x80,
    ensures
        valid_utf8(seq![b]),
{
    reveal_with_fuel(valid_utf8, 3);
    let s = seq![b];
    assert(is_leading_byte_width_1(s[0]));
    assert(length_of_first_scalar(s) == 1);
    assert(pop_first_scalar(s) =~= Seq::<u8>::empty());
}

/// The byte range between two character boundaries is well-formed UTF-8 on
/// its own: what copy and cut hand to the clipboard.
pub proof fn lemma_valid_between(t: Seq<u8>, a: int, b: int)
    requires
        valid_utf8(t),
        0 <= a <= b <= t.len(),
        is_char_boundary(t, a),
        is_char_boundary(t, b),
    ensures
        valid_utf8(t.subrange(a, b)),
{
    valid_utf8_split(t, a);
    let tail = t.subrange(a, t.len() as int);
    assert(is_char_boundary(tail, b - a)) by {
        lemma_boundary_by_byte(t, b);
        lemma_boundary_by_byte(tail, b - a);
    }
    valid_utf8_split(tail, b - a);
    assert(tail.subrange(0, b - a) =~= t.subrange(a, b));
}

/// Inserting well-formed UTF-8 at a character boundary leaves well-formed
/// UTF-8 behind.
pub proof fn lemma_valid_insert(t: Seq<u8>, a: int, ins: Seq<u8>)
    requires
        valid_utf8(t),
        0 <= a <= t.len(),
        is_char_boundary(t, a),
        valid_utf8(ins),
    ensures
        valid_utf8(t.subrange(0, a) + ins + t.subrange(a, t.len() as int)),
{
    valid_utf8_split(t, a);
    valid_utf8_concat(t.subrange(0, a), ins);
    valid_utf8_concat(t.subrange(0, a) + ins, t.subrange(a, t.len() as int));
    assert((t.subrange(0, a) + ins) + t.subrange(a, t.len() as int) =~= t.subrange(0, a) + ins
        + t.subrange(a, t.len() as int));
}

/// Inserting one character's encoding at a boundary `p` keeps the text
/// well formed, keeps `p` a boundary, and puts the next boundary after `p`
/// exactly at the end of the encoding: stepping right after an insertion
/// lands just past the inserted character.
pub proof fn lemma_insert_char_boundaries(t: Seq<u8>, p: int, c: char)
    requires
        valid_utf8(t),
        0 <= p <= t.len(),
        is_char_boundary(t, p),
    ensures
        ({
            let enc = encode_scalar(c as u32);
            let t2 = t.subrange(0, p) + enc + t.subrange(p, t.len() as int);
            &&& valid_utf8(t2)
            &&& is_char_boundary(t2, p)
            &&& is_next_boundary(t2, p, p + enc.len())
        }),
{
    lemma_encode_scalar_shape(c);
    let enc = encode_scalar(c as u32);
    let k = enc.len() as int;
    lemma_valid_insert(t, p, enc);
    let t2 = t.subrange(0, p) + enc + t.subrange(p, t.len() as int);
    assert(t2.len() == t.len() + k);
    assert forall|j: int| 0 <= j < k implies t2[p + j] == enc[j] by {}
    lemma_boundary_by_byte(t2, p);
    assert(is_char_boundary(t2, p));
    assert forall|j: int| p < j < p + k implies !is_char_boundary(t2, j) by {
        assert(is_continuation_byte(enc[j - p]));
        lemma_boundary_by_byte(t2, j);
    }
    if p == t.len() {
        lemma_boundary_by_byte(t2, p + k);
    } else {
        assert(t2[p + k] == t[p]);
        lemma_boundary_by_byte(t, p);
        lemma_boundary_by_byte(t2, p + k);
    }
}

/// Removing the bytes between two boundaries keeps the text well formed and
/// keeps the splice point a boundary: the cursor can be relocated there.
pub proof fn lemma_remove_boundaries(t: Seq<u8>, a: int, b: int)
    requires
        valid_utf8(t),
        0 <= a <= b <= t.len(),
        is_char_boundary(t, a),
        is_char_boundary(t, b),
    ensures
        ({
            let t2 = t.subrange(0, a) + t.subrange(b, t.len() as int);
            &&& valid_utf8(t2)
            &&& is_char_boundary(t2, a)
        }),
{
    lemma_valid_remove(t, a, b);
    let t2 = t.subrange(0, a) + t.subrange(b, t.len() as int);
    if b == t.len() {
        lemma_boundary_by_byte(t2, a);
    } else {
        assert(t2[a] == t[b]);
        lemma_boundary_by_byte(t, b);
        lemma_boundary_by_byte(t2, a);
    }
}

/// Inserting a well-formed byte sequence at a boundary keeps the text well
/// formed and makes the end of the insertion a boundary: where paste leaves
/// the cursor.
pub proof fn lemma_insert_seq_boundaries(t: Seq<u8>, p: int, ins: Seq<u8>)
    requires
        valid_utf8(t),
        0 <= p <= t.len(),
        is_char_boundary(t, p),
        valid_utf8(ins),
    ensures
        ({
            let t2 = t.subrange(0, p) + ins + t.subrange(p, t.len() as int);
            &&& valid_utf8(t2)
            &&& is_char_boundary(t2, p + ins.len())
        }),
{
    lemma_valid_insert(t, p, ins);
    let t2 = t.subrange(0, p) + ins + t.subrange(p, t.len() as int);
    let e = p + ins.len();
    if p == t.len() {
        lemma_boundary_by_byte(t2, e);
    } else {
        assert(t2[e] == t[p]);
        lemma_boundary_by_byte(t, p);
        lemma_boundary_by_byte(t2, e);
    }
}

} // verus!
