use vstd::prelude::*;

verus! {

use vstd::utf8::valid_utf8;

/// Session-wide state shared by every open document: the clipboard slot and
/// the line-number display toggle.
pub struct Config {
    pub clipboard: Vec<u8>,
    pub line_numbers: bool,
}

impl Config {
    /// Creates a configuration with an empty clipboard and line numbers on.
    pub fn new() -> (r: Config)
        ensures
            r.clipboard@ == Seq::<u8>::empty(),
            r.line_numbers == true,
    {
        Config { clipboard: Vec::new(), line_numbers: true }
    }

    /// Returns the clipboard contents without consuming them.
    pub fn clipboard(&self) -> (r: &Vec<u8>)
        ensures
            r@ == self.clipboard@,
    {
        &self.clipboard
    }

    /// Replaces the clipboard contents with `text`.
    pub fn set_clipboard(&mut self, text: Vec<u8>)
        requires
            valid_utf8(text@),
        ensures
            final(self).clipboard == text,
            final(self).line_numbers == old(self).line_numbers,
    {
        self.clipboard = text;
    }
}

} // verus!
