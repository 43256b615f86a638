//! Writing a text piece by piece into a buffer of fixed capacity.

use crate::fixed::FixedString;
use crate::text;
use vstd::prelude::*;

verus! {

/// Collects a text of any length and keeps the longest prefix of it that fits into `N` bytes.
pub(crate) struct BodyWriter<const N: usize> {
    body: FixedString<N>,
    full: bool,
    written: Ghost<Seq<char>>,
}

impl<const N: usize> BodyWriter<N> {
    /// Everything written so far, whether it fitted or not.
    pub(crate) closed spec fn written(&self) -> Seq<char> {
        self.written@
    }

    /// The body is what is left of the text written, and `full` says that something was lost.
    pub(crate) closed spec fn wf(&self) -> bool {
        &&& self.body@ == text::clip(self.written@, N as nat)
        &&& self.full <==> text::utf8_len(self.written@) > N
    }

    /// Start with no text.
    pub(crate) fn new() -> (r: Self)
        ensures
            r.wf(),
            r.written() == Seq::<char>::empty(),
    {
        BodyWriter { body: FixedString::new(), full: false, written: Ghost(Seq::empty()) }
    }

    /// Write a piece of text.
    pub(crate) fn put(&mut self, piece: &str)
        requires
            old(self).wf(),
        ensures
            final(self).wf(),
            final(self).written() == old(self).written() + piece@,
    {
        proof {
            text::lemma_utf8_len_concat(self.written@, piece@);
            if self.full {
                text::lemma_clip_overflow(self.written@, piece@, N as nat);
            }
        }
        if !self.full {
            let complete = self.body.push_str(piece);
            self.full = !complete;
        }
        proof {
            self.written@ = self.written@ + piece@;
        }
    }

    /// Write one character.
    pub(crate) fn put_char(&mut self, c: char)
        requires
            old(self).wf(),
        ensures
            final(self).wf(),
            final(self).written() == old(self).written().push(c),
    {
        proof {
            text::lemma_utf8_len_concat(self.written@, seq![c]);
            assert(self.written@ + seq![c] =~= self.written@.push(c));
            if self.full {
                text::lemma_clip_overflow(self.written@, seq![c], N as nat);
            } else {
                assert(self.written@.push(c).drop_last() =~= self.written@);
                text::lemma_clip_fits(self.written@, N as nat);
            }
        }
        if !self.full {
            let complete = self.body.push(c);
            self.full = !complete;
        }
        proof {
            self.written@ = self.written@.push(c);
        }
    }

    /// Write a number in decimal.
    pub(crate) fn put_decimal(&mut self, value: u64)
        requires
            old(self).wf(),
        ensures
            final(self).wf(),
            final(self).written() == old(self).written() + text::decimal(value as nat),
        decreases value,
    {
        let ghost start = self.written();
        if value >= 10 {
            self.put_decimal(value / 10);
        }
        self.put_char(text::digit_char(value % 10));
        assert(self.written() =~= start + text::decimal(value as nat));
    }

    /// Write a number in decimal, with its sign if it is negative.
    pub(crate) fn put_signed(&mut self, value: i32)
        requires
            old(self).wf(),
        ensures
            final(self).wf(),
            final(self).written() == old(self).written() + text::signed_decimal(value as int),
    {
        let ghost start = self.written();
        if value < 0 {
            self.put_char('-');
            self.put_decimal((-(value as i64)) as u64);
            assert(self.written() =~= start + text::signed_decimal(value as int));
        } else {
            self.put_decimal(value as u64);
        }
    }

    /// Write a number in lowercase hexadecimal.
    pub(crate) fn put_hexadecimal(&mut self, value: u64)
        requires
            old(self).wf(),
        ensures
            final(self).wf(),
            final(self).written() == old(self).written() + text::hexadecimal(value as nat),
        decreases value,
    {
        let ghost start = self.written();
        if value >= 16 {
            self.put_hexadecimal(value / 16);
        }
        self.put_char(text::digit_char(value % 16));
        assert(self.written() =~= start + text::hexadecimal(value as nat));
    }

    /// Write a number below one hundred with exactly two digits.
    pub(crate) fn put_two_digits(&mut self, value: u64)
        requires
            old(self).wf(),
            value < 100,
        ensures
            final(self).wf(),
            final(self).written() == old(self).written() + text::two_digits(value as nat),
    {
        let ghost start = self.written();
        self.put_char(text::digit_char(value / 10));
        self.put_char(text::digit_char(value % 10));
        assert(self.written() =~= start + text::two_digits(value as nat));
    }

    /// The text written, clipped to the capacity.
    pub(crate) fn finish(self) -> (r: FixedString<N>)
        requires
            self.wf(),
        ensures
            r@ == text::clip(self.written(), N as nat),
    {
        self.body
    }
}

} // verus!
