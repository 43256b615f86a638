//! What texts and lists of fixed capacity keep, and how bytes and characters are told apart.

use crate::fixed::{FixedString, FixedVec};
use crate::http;
use crate::laws::requests;
use crate::laws::texts;
use crate::text;
use vstd::prelude::*;
use vstd::utf8::*;

verus! {

/// A new string is empty, and so is one that was cleared. A copy holds the same text, and what is
/// held is handed out as it is and never takes more bytes than there are.
pub proof fn strings_hold_their_text<const N: usize>(
    fresh: FixedString<N>,
    cleared: &mut FixedString<N>,
    string: &FixedString<N>,
    copy: FixedString<N>,
    shown: &str,
)
    requires
        call_ensures(FixedString::<N>::new, (), fresh),
        call_ensures(FixedString::<N>::clear, (cleared,), ()),
        call_ensures(FixedString::<N>::clone, (string,), copy),
        call_ensures(FixedString::<N>::as_str, (string,), shown),
    ensures
        fresh@.len() == 0,
        final(cleared)@.len() == 0,
        copy@ == string@,
        shown@ == string@,
        text::utf8_len(string@) <= N,
{
}

/// A text that is pushed whole is appended if all of it fits, and left out otherwise. So is a
/// character.
pub proof fn whole_texts_are_appended_or_left_out<const N: usize>(
    string: &mut FixedString<N>,
    more: &str,
    complete: bool,
    other: &mut FixedString<N>,
    c: char,
    kept: bool,
)
    requires
        call_ensures(FixedString::<N>::push_whole, (string, more), complete),
        call_ensures(FixedString::<N>::push, (other, c), kept),
    ensures
        complete <==> text::utf8_len(old(string)@ + more@) <= N,
        complete ==> final(string)@ == old(string)@ + more@,
        !complete ==> final(string)@ == old(string)@,
        kept <==> text::utf8_len(old(other)@.push(c)) <= N,
        kept ==> final(other)@ == old(other)@.push(c),
        !kept ==> final(other)@ == old(other)@,
{
    text::lemma_utf8_len_concat(old(string)@, more@);
}

/// A new list is empty, and so is one that was cleared. A copy holds the same items, and what is
/// held is handed out as it is.
pub proof fn lists_hold_their_items<T: Copy, const N: usize>(
    fresh: FixedVec<T, N>,
    cleared: &mut FixedVec<T, N>,
    list: &FixedVec<T, N>,
    copy: FixedVec<T, N>,
    items: &[T],
    length: usize,
    empty: bool,
)
    requires
        call_ensures(FixedVec::<T, N>::new, (), fresh),
        call_ensures(FixedVec::<T, N>::clear, (cleared,), ()),
        call_ensures(FixedVec::<T, N>::clone, (list,), copy),
        call_ensures(FixedVec::<T, N>::as_slice, (list,), items),
        call_ensures(FixedVec::<T, N>::len, (list,), length),
        call_ensures(FixedVec::<T, N>::is_empty, (list,), empty),
    ensures
        fresh@.len() == 0,
        final(cleared)@.len() == 0,
        copy@ == list@,
        items@ == list@,
        length == list@.len() <= N,
        empty <==> list@.len() == 0,
{
}

/// An item is appended behind the others while there is room, and handed back otherwise.
pub proof fn items_are_appended_while_there_is_room<T, const N: usize>(
    list: &mut FixedVec<T, N>,
    item: T,
    r: Result<(), T>,
)
    requires
        call_ensures(FixedVec::<T, N>::push, (list, item), r),
    ensures
        old(list)@.len() < N ==> {
            &&& r is Ok
            &&& final(list)@.len() == old(list)@.len() + 1
            &&& final(list)@.drop_last() == old(list)@
            &&& final(list)@.last() == item
        },
        old(list)@.len() >= N ==> r == Err::<(), T>(item) && final(list)@ == old(list)@,
{
    if old(list)@.len() < N {
        assert(final(list)@.drop_last() =~= old(list)@);
    }
}

/// Two texts are the same if they have the same characters.
pub proof fn same_texts_have_the_same_characters(one: &str, other: &str, r: bool)
    requires
        call_ensures(text::same_text, (one, other), r),
    ensures
        r <==> one@.len() == other@.len() && forall|i: int|
            0 <= i < one@.len() ==> one@[i] == other@[i],
{
    if one@.len() == other@.len() && forall|i: int| 0 <= i < one@.len() ==> one@[i] == other@[i] {
        assert(one@ =~= other@);
    }
}

/// A number below sixteen is shown by the digit that stands for it.
pub proof fn digits_stand_for_their_numbers(value: u64, r: char)
    requires
        value < 16,
        call_ensures(text::digit_char, (value,), r),
    ensures
        texts::is_digit(r, 16),
        texts::digit_number(r) == value,
{
}

/// A request line is whole if a line break stands somewhere.
pub proof fn whole_lines_have_a_break(request: &str, r: bool)
    requires
        call_ensures(http::line_is_whole, (request,), r),
    ensures
        r <==> exists|at: int| #[trigger] requests::breaks_at(request@, at),
{
    http::lemma_line_end_from(request@, 0);
    let end = http::line_end(request@);
    if r {
        assert(requests::breaks_at(request@, end));
    }
    if exists|at: int| #[trigger] requests::breaks_at(request@, at) {
        let at = choose|at: int| #[trigger] requests::breaks_at(request@, at);
        assert(request@[at] == '\r' && request@[at + 1] == '\n');
    }
}

/// Bytes that end within a character lose the bytes of that character, and bytes that do not are
/// left as they are.
pub proof fn unfinished_characters_are_dropped(bytes: &[u8], whole: Seq<u8>, cut: Seq<u8>, r: &[u8])
    requires
        call_ensures(text::drop_unfinished, (bytes,), r),
    ensures
        bytes@ == whole + cut && requests::is_cut_character(cut) ==> r@ == whole,
        valid_utf8(bytes@) ==> r@ == bytes@,
        r@.len() <= bytes@.len(),
        r@ == bytes@.take(r@.len() as int),
        r@ != bytes@ ==> requests::is_cut_character(bytes@.skip(r@.len() as int)),
{
    requests::lemma_unfinished_is_cut(bytes@.skip(r@.len() as int));
    if bytes@ == whole + cut && requests::is_cut_character(cut) {
        requests::lemma_unfinished_is_cut(cut);
        text::unfinished_character_is_dropped(whole, cut);
    }
    if valid_utf8(bytes@) {
        text::whole_text_is_kept(bytes@);
    }
    assert(bytes@.take(bytes@.len() as int) =~= bytes@);
}

/// What is kept of some pieces, put behind each other, if each has to fit whole.
pub open spec fn pieces_kept(pieces: Seq<Seq<char>>, cap: nat) -> Seq<char>
    decreases pieces.len(),
{
    if pieces.len() == 0 {
        Seq::empty()
    } else {
        let before = pieces_kept(pieces.drop_last(), cap);
        if text::utf8_len(before + pieces.last()) <= cap {
            before + pieces.last()
        } else {
            before
        }
    }
}

/// A header is put together of its pieces, and a piece that does not fit whole is left out.
pub proof fn headers_keep_whole_pieces(
    status: &str,
    content_type: &str,
    content_length: usize,
    r: FixedString<160>,
)
    requires
        call_ensures(http::response_header, (status, content_type, content_length), r),
    ensures
        exists|digits: Seq<char>|
            {
                &&& #[trigger] texts::is_number(digits, 10, content_length as int)
                &&& r@ == pieces_kept(
                    Seq::<Seq<char>>::empty().push("HTTP/1.1 "@).push(status@).push(
                        "\r\nContent-Type: "@,
                    ).push(content_type@).push("\r\nContent-Length: "@).push(digits).push(
                        "\r\nConnection: close\r\n\r\n"@,
                    ),
                    160,
                )
            },
{
    broadcast use text::lemma_utf8_len_concat;

    let digits = text::decimal(content_length as nat);
    texts::decimal_digits_are_the_number(content_length as nat);
    let none = Seq::<Seq<char>>::empty();
    let a = none.push("HTTP/1.1 "@);
    let b = a.push(status@);
    let c = b.push("\r\nContent-Type: "@);
    let d = c.push(content_type@);
    let e = d.push("\r\nContent-Length: "@);
    let f = e.push(digits);
    let g = f.push("\r\nConnection: close\r\n\r\n"@);
    assert(a.drop_last() =~= none);
    assert(b.drop_last() =~= a);
    assert(c.drop_last() =~= b);
    assert(d.drop_last() =~= c);
    assert(e.drop_last() =~= d);
    assert(f.drop_last() =~= e);
    assert(g.drop_last() =~= f);
    reveal_with_fuel(pieces_kept, 8);
    assert(texts::is_number(digits, 10, content_length as int));
}

} // verus!
