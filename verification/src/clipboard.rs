use vstd::prelude::*;

verus! {

use vstd::utf8::valid_utf8;

/// A single clipboard slot shared by every open document. It holds the most
/// recent cut or copied text as UTF-8 bytes, is replaced wholesale by `set`,
/// and is read without being consumed by `get`.
pub struct Clipboard {
    pub contents: Vec<u8>,
}

impl Clipboard {
    /// Creates an empty clipboard.
    pub fn new() -> (r: Clipboard)
        ensures
            r.contents@ == Seq::<u8>::empty(),
    {
        Clipboard { contents: Vec::new() }
    }

    /// Returns a copy of the clipboard contents, leaving the slot unchanged.
    pub fn get(&self) -> (r: Vec<u8>)
        ensures
            r@ == self.contents@,
    {
        crate::unicode::copy_range(&self.contents, 0, self.contents.len())
    }

    /// Replaces the clipboard contents with `text`.
    pub fn set(&mut self, text: Vec<u8>)
        requires
            valid_utf8(text@),
        ensures
            final(self).contents == text,
    {
        self.contents = text;
    }
}

} // verus!
