//! Strings and lists of fixed capacity, held in `heapless` buffers.
//!
//! No heap is needed. A string that is asked to hold more than its capacity keeps the longest
//! prefix that fits (see [`crate::text::clip`]), or leaves out a piece that is to be held whole
//! (see [`with_whole`]); a list that is full ignores further items.

use crate::text;
use vstd::prelude::*;

verus! {

/// The fixed-capacity string of the `heapless` crate.
#[verifier::external_type_specification]
#[verifier::external_body]
pub struct ExHeaplessString<const N: usize>(heapless::String<N>);

/// The fixed-capacity vector of the `heapless` crate.
#[verifier::external_type_specification]
#[verifier::external_body]
#[verifier::reject_recursive_types(T)]
pub struct ExHeaplessVec<T, const N: usize>(heapless::Vec<T, N>);

/// A text with a piece behind it, or without the piece if both take more than `cap` bytes.
pub open spec fn with_whole(held: Seq<char>, piece: Seq<char>, cap: nat) -> Seq<char> {
    if text::utf8_len(held) + text::utf8_len(piece) <= cap {
        held + piece
    } else {
        held
    }
}

/// A string of at most `N` bytes.
///
/// The view is the text that the buffer holds. The buffer is changed only by the functions below
/// that call `heapless`, and each of them says what the call does to that text.
pub struct FixedString<const N: usize> {
    buffer: heapless::String<N>,
    contents: Ghost<Seq<char>>,
}

impl<const N: usize> View for FixedString<N> {
    type V = Seq<char>;

    closed spec fn view(&self) -> Seq<char> {
        self.contents@
    }
}

impl<const N: usize> FixedString<N> {
    /// Calls `heapless::String::new`: a new string holds no text.
    #[verifier::external_body]
    fn heapless_new() -> (r: Self)
        ensures
            r@ == Seq::<char>::empty(),
    {
        FixedString { buffer: heapless::String::new(), contents: Ghost(Seq::empty()) }
    }

    /// Calls `heapless::String::push_str`: the text is appended whole if its bytes fit behind
    /// those already held, and nothing changes if they do not.
    #[verifier::external_body]
    fn heapless_push_str(&mut self, text: &str) -> (r: Result<(), ()>)
        ensures
            r is Ok <==> text::utf8_len(old(self)@) + text::utf8_len(text@) <= N,
            r is Ok ==> final(self)@ == old(self)@ + text@,
            r is Err ==> final(self)@ == old(self)@,
    {
        self.buffer.push_str(text)
    }

    /// Calls `heapless::String::push`: the character is appended if its one to four bytes fit
    /// behind those already held, and nothing changes if they do not.
    #[verifier::external_body]
    fn heapless_push(&mut self, c: char) -> (r: Result<(), ()>)
        ensures
            r is Ok <==> text::utf8_len(old(self)@) + text::utf8_len(seq![c]) <= N,
            r is Ok ==> final(self)@ == old(self)@.push(c),
            r is Err ==> final(self)@ == old(self)@,
    {
        self.buffer.push(c)
    }

    /// Calls `heapless::String::clear`: afterwards the string holds no text.
    #[verifier::external_body]
    fn heapless_clear(&mut self)
        ensures
            final(self)@ == Seq::<char>::empty(),
    {
        self.buffer.clear()
    }

    /// Calls `heapless::String::as_str`: the result is the text held, which never takes more
    /// than `N` bytes.
    #[verifier::external_body]
    fn heapless_as_str(&self) -> (r: &str)
        ensures
            r@ == self@,
            text::utf8_len(r@) <= N,
    {
        self.buffer.as_str()
    }

    /// An empty string.
    pub fn new() -> (r: Self)
        ensures
            r@ == Seq::<char>::empty(),
    {
        Self::heapless_new()
    }

    /// The text held.
    pub fn as_str(&self) -> (r: &str)
        ensures
            r@ == self@,
            text::utf8_len(r@) <= N,
    {
        self.heapless_as_str()
    }

    /// Drop the text held.
    pub fn clear(&mut self)
        ensures
            final(self)@ == Seq::<char>::empty(),
    {
        self.heapless_clear()
    }

    /// Append `text`, as much of it as the buffer can still hold.
    ///
    /// Returns whether all of it was appended.
    pub fn push_str(&mut self, text: &str) -> (complete: bool)
        ensures
            final(self)@ == text::clip(old(self)@ + text@, N as nat),
            complete <==> text::utf8_len(old(self)@ + text@) <= N,
    {
        let ghost start = self@;
        // What is held already fits.
        let _held = self.heapless_as_str();
        proof {
            text::lemma_utf8_len_concat(start, text@);
        }
        if self.heapless_push_str(text).is_ok() {
            return true;
        }
        let mut fits: bool = true;
        for c in iter: text.chars()
            invariant
                iter.seq() == text@,
                text::utf8_len(start) <= N,
                text::utf8_len(self@) <= N,
                fits ==> self@ == start + text@.take(iter.index()),
                !fits ==> self@ == text::clip(start + text@.take(iter.index()), N as nat) && text::utf8_len(
                    start + text@.take(iter.index()),
                ) > N,
        {
            let ghost before = start + text@.take(iter.index());
            let ghost after = start + text@.take(iter.index() + 1);
            proof {
                assert(after =~= before.push(c));
                assert(after =~= before + seq![c]);
                text::lemma_utf8_len_concat(before, seq![c]);
                if !fits {
                    text::lemma_clip_overflow(before, seq![c], N as nat);
                } else {
                    assert(after.drop_last() =~= before);
                    text::lemma_clip_fits(before, N as nat);
                }
            }
            if fits {
                fits = self.heapless_push(c).is_ok();
            }
        }
        proof {
            assert(text@.take(text@.len() as int) =~= text@);
        }
        false
    }

    /// Append `text` if the buffer can still hold all of it, and nothing otherwise.
    ///
    /// Returns whether it was appended.
    pub fn push_whole(&mut self, text: &str) -> (complete: bool)
        ensures
            final(self)@ == with_whole(old(self)@, text@, N as nat),
            complete <==> text::utf8_len(old(self)@) + text::utf8_len(text@) <= N,
    {
        self.heapless_push_str(text).is_ok()
    }

    /// Append a character, if the buffer can still hold it.
    ///
    /// Returns whether it was appended.
    pub fn push(&mut self, c: char) -> (complete: bool)
        ensures
            complete <==> text::utf8_len(old(self)@.push(c)) <= N,
            complete ==> final(self)@ == old(self)@.push(c),
            !complete ==> final(self)@ == old(self)@,
    {
        proof {
            text::lemma_utf8_len_concat(self@, seq![c]);
            assert(self@ + seq![c] =~= self@.push(c));
        }
        self.heapless_push(c).is_ok()
    }

    /// A string that holds `text`, or the longest prefix of it that fits.
    pub fn clipped(text: &str) -> (r: Self)
        ensures
            r@ == text::clip(text@, N as nat),
    {
        let mut r = Self::new();
        r.push_str(text);
        assert(Seq::<char>::empty() + text@ =~= text@);
        r
    }
}

impl<const N: usize> Clone for FixedString<N> {
    fn clone(&self) -> (r: Self)
        ensures
            r@ == self@,
    {
        Self::clipped(self.as_str())
    }
}

/// What a list of at most `cap` items keeps of a longer one.
pub open spec fn first_items<T>(items: Seq<T>, cap: nat) -> Seq<T> {
    if items.len() <= cap {
        items
    } else {
        items.take(cap as int)
    }
}

/// A list of at most `N` items.
///
/// The view is the sequence of items that the buffer holds. The buffer is changed only by the
/// functions below that call `heapless`, and each of them says what the call does to that
/// sequence.
#[verifier::reject_recursive_types(T)]
pub struct FixedVec<T, const N: usize> {
    buffer: heapless::Vec<T, N>,
    contents: Ghost<Seq<T>>,
}

impl<T, const N: usize> View for FixedVec<T, N> {
    type V = Seq<T>;

    closed spec fn view(&self) -> Seq<T> {
        self.contents@
    }
}

impl<T, const N: usize> FixedVec<T, N> {
    /// Calls `heapless::Vec::new`: a new list holds no items.
    #[verifier::external_body]
    fn heapless_new() -> (r: Self)
        ensures
            r@ == Seq::<T>::empty(),
    {
        FixedVec { buffer: heapless::Vec::new(), contents: Ghost(Seq::empty()) }
    }

    /// Calls `heapless::Vec::push`: the item is appended if there are fewer than `N`, and handed
    /// back, with nothing changed, if there are not.
    #[verifier::external_body]
    fn heapless_push(&mut self, item: T) -> (r: Result<(), T>)
        ensures
            r is Ok <==> old(self)@.len() < N,
            r is Ok ==> final(self)@ == old(self)@.push(item),
            r is Err ==> r->Err_0 == item && final(self)@ == old(self)@,
    {
        self.buffer.push(item)
    }

    /// Calls `heapless::Vec::clear`: afterwards the list holds no items.
    #[verifier::external_body]
    fn heapless_clear(&mut self)
        ensures
            final(self)@ == Seq::<T>::empty(),
    {
        self.buffer.clear()
    }

    /// Calls `heapless::Vec::as_slice`: the result is the items held, never more than `N`.
    #[verifier::external_body]
    fn heapless_as_slice(&self) -> (r: &[T])
        ensures
            r@ == self@,
            r@.len() <= N,
    {
        self.buffer.as_slice()
    }

    /// An empty list.
    pub fn new() -> (r: Self)
        ensures
            r@ == Seq::<T>::empty(),
    {
        Self::heapless_new()
    }

    /// Append `item` if there is room for it, or hand it back.
    pub fn push(&mut self, item: T) -> (r: Result<(), T>)
        ensures
            old(self)@.len() < N ==> r is Ok && final(self)@ == old(self)@.push(item),
            old(self)@.len() >= N ==> r == Err::<(), T>(item) && final(self)@ == old(self)@,
    {
        self.heapless_push(item)
    }

    /// Drop every item.
    pub fn clear(&mut self)
        ensures
            final(self)@ == Seq::<T>::empty(),
    {
        self.heapless_clear()
    }

    /// The items held.
    pub fn as_slice(&self) -> (r: &[T])
        ensures
            r@ == self@,
            r@.len() <= N,
    {
        self.heapless_as_slice()
    }

    /// Number of items held.
    pub fn len(&self) -> (r: usize)
        ensures
            r == self@.len(),
            r <= N,
    {
        self.as_slice().len()
    }

    /// Whether no item is held.
    pub fn is_empty(&self) -> (r: bool)
        ensures
            r == (self@.len() == 0),
    {
        self.len() == 0
    }
}

impl<T: Copy, const N: usize> Clone for FixedVec<T, N> {
    fn clone(&self) -> (r: Self)
        ensures
            r@ == self@,
    {
        let mut r = Self::new();
        let items = self.as_slice();
        for index in 0..items.len()
            invariant
                items@ == self@,
                items@.len() <= N,
                r@ == self@.take(index as int),
        {
            let _ = r.push(items[index]);
            assert(self@.take(index + 1) =~= self@.take(index as int).push(self@[index as int]));
        }
        assert(self@.take(items@.len() as int) =~= self@);
        r
    }
}

} // verus!
