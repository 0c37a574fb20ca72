use vstd::prelude::*;

verus! {

/// A position in a buffer, counted in chars from the start of the text.
#[derive(Copy, Clone, Debug)]
pub struct Point {
    pub char_idx: usize,
}

impl Point {
    /// A point at the start of the text.
    pub fn new() -> (p: Self)
        ensures
            p.char_idx == 0,
    {
        Self { char_idx: 0 }
    }

    /// A point at `char_idx`.
    pub fn at_idx(char_idx: usize) -> (p: Self)
        ensures
            p.char_idx == char_idx,
    {
        Self { char_idx }
    }

    /// Moves the point to `char_idx`.
    pub fn set_char_idx(&mut self, char_idx: usize)
        ensures
            final(self).char_idx == char_idx,
    {
        self.char_idx = char_idx;
    }
}

impl Default for Point {
    fn default() -> (p: Self)
        ensures
            p.char_idx == 0,
    {
        Self::new()
    }
}

} // verus!
