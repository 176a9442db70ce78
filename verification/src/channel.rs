//! The receiving side of the channel between a guest program and its host.
//!
//! The host answers every request by appending a record to a region of
//! words that the guest reads in order: a header word that holds the length
//! of the payload in bytes, then the payload, padded to whole words.  A
//! [`ReadCursor`] is the guest's position in that region.  It belongs to one
//! execution context and is not meant to be shared.

use vstd::prelude::*;
use vstd::slice::slice_subrange;

verus! {

/// The size of a word of the region, in bytes.
pub const WORD_SIZE: usize = 4;

/// The number of words that a payload of `nbytes` bytes occupies.
pub open spec fn words_for(nbytes: int) -> int {
    (nbytes + WORD_SIZE - 1) / (WORD_SIZE as int)
}

/// The number of words that a payload of `nbytes` bytes occupies.
pub fn payload_words(nbytes: u32) -> (n: usize)
    ensures
        n == words_for(nbytes as int),
{
    let whole: u32 = nbytes / 4;
    if nbytes % 4 == 0 {
        whole as usize
    } else {
        (whole + 1) as usize
    }
}

/// The offset, in words, of the next record in the input region.
pub struct ReadCursor {
    pos: usize,
}

impl ReadCursor {
    /// The offset of the next header word.
    pub closed spec fn view(&self) -> int {
        self.pos as int
    }

    /// The record at the cursor, header and payload, lies within `input`:
    /// reading it does not move the cursor past the end of the region.  A
    /// record may end exactly where the region ends.
    pub open spec fn fits(&self, input: Seq<u32>) -> bool {
        &&& 0 <= self@ < input.len()
        &&& self@ + 1 + words_for(input[self@] as int) <= input.len()
    }

    /// A cursor at the start of the region.
    pub fn new() -> (r: ReadCursor)
        ensures
            r@ == 0,
    {
        ReadCursor { pos: 0 }
    }

    /// The offset of the next header word.
    pub fn position(&self) -> (r: usize)
        ensures
            r == self@,
    {
        self.pos
    }

    /// Tells whether [`ReadCursor::receive`] may be called on `input`.
    pub fn can_receive(&self, input: &[u32]) -> (ok: bool)
        ensures
            ok == self.fits(input@),
    {
        let len: usize = input.len();
        if self.pos >= len {
            return false;
        }
        let nwords: usize = payload_words(input[self.pos]);
        nwords <= len - self.pos - 1
    }

    /// Reads the record at the cursor and moves past it.  Returns the words
    /// of the payload and its length in bytes, which may fall short of the
    /// last word's end.
    pub fn receive<'a>(&mut self, input: &'a [u32]) -> (r: (&'a [u32], usize))
        requires
            old(self).fits(input@),
        ensures
            r.1 == input@[old(self)@],
            r.0@ == input@.subrange(old(self)@ + 1, old(self)@ + 1 + words_for(r.1 as int)),
            final(self)@ == old(self)@ + 1 + words_for(r.1 as int),
    {
        let header: u32 = input[self.pos];
        let nwords: usize = payload_words(header);
        let start: usize = self.pos + 1;
        let data = slice_subrange(input, start, start + nwords);
        self.pos = start + nwords;
        (data, header as usize)
    }
}

} // verus!
