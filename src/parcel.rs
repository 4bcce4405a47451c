//! Transaction payloads.
//!
//! Encoding application values is the codec's business; this crate only needs
//! a payload it can create empty, append words to, and compare.
use vstd::prelude::*;
use crate::status::{EX_NULL_POINTER, NO_MESSAGE};

verus! {

/// A transaction payload: a sequence of 32-bit words.
#[derive(Debug)]
pub struct Parcel {
    words: Vec<i32>,
}

impl View for Parcel {
    type V = Seq<i32>;

    closed spec fn view(&self) -> Seq<i32> {
        self.words@
    }
}

/// The words that report an exception with no message.
pub open spec fn exception_payload(code: i32) -> Seq<i32> {
    seq![code, NO_MESSAGE]
}

/// The words that report the null-pointer exception.
pub open spec fn null_pointer_payload() -> Seq<i32> {
    exception_payload(EX_NULL_POINTER)
}

impl Parcel {
    /// An empty payload.
    pub fn new() -> (r: Parcel)
        ensures
            r@ == Seq::<i32>::empty(),
    {
        Parcel { words: Vec::new() }
    }

    /// Number of words held.
    pub fn len(&self) -> (r: usize)
        ensures
            r == self@.len(),
    {
        self.words.len()
    }

    /// Whether no word is held.
    pub fn is_empty(&self) -> (r: bool)
        ensures
            r == (self@.len() == 0),
    {
        self.words.len() == 0
    }

    /// The word at `index`, if there is one.
    pub fn read_i32(&self, index: usize) -> (r: Option<i32>)
        ensures
            r == (if index < self@.len() { Some(self@[index as int]) } else { None::<i32> }),
    {
        if index < self.words.len() {
            Some(self.words[index])
        } else {
            None
        }
    }

    /// Appends one word.
    pub fn write_i32(&mut self, value: i32)
        ensures
            final(self)@ == old(self)@.push(value),
    {
        self.words.push(value);
    }

    /// Appends the report of an exception with no message.
    pub fn write_exception(&mut self, code: i32)
        ensures
            final(self)@ == old(self)@ + exception_payload(code),
    {
        self.words.push(code);
        self.words.push(NO_MESSAGE);
        assert(self@ =~= old(self)@ + exception_payload(code));
    }
}

} // verus!
