//! The mathematical side of every string the library emits: how many bytes a text takes, what is
//! left of it in a buffer of limited size, and how numbers are written.

use vstd::prelude::*;
use vstd::utf8::*;

verus! {

/// Number of bytes `text` takes in UTF-8.
pub open spec fn utf8_len(text: Seq<char>) -> nat {
    encode_utf8(text).len()
}

/// What is left of `text` in a buffer of `cap` bytes: characters are dropped from the end until
/// the rest fits.
pub open spec fn clip(text: Seq<char>, cap: nat) -> Seq<char>
    decreases text.len(),
{
    if utf8_len(text) <= cap || text.len() == 0 {
        text
    } else {
        clip(text.drop_last(), cap)
    }
}

/// The character for one digit, decimal or lowercase hexadecimal.
pub open spec fn digit(value: nat) -> char {
    if value == 0 {
        '0'
    } else if value == 1 {
        '1'
    } else if value == 2 {
        '2'
    } else if value == 3 {
        '3'
    } else if value == 4 {
        '4'
    } else if value == 5 {
        '5'
    } else if value == 6 {
        '6'
    } else if value == 7 {
        '7'
    } else if value == 8 {
        '8'
    } else if value == 9 {
        '9'
    } else if value == 10 {
        'a'
    } else if value == 11 {
        'b'
    } else if value == 12 {
        'c'
    } else if value == 13 {
        'd'
    } else if value == 14 {
        'e'
    } else {
        'f'
    }
}

/// `value` in decimal, without sign or leading zeros.
pub open spec fn decimal(value: nat) -> Seq<char>
    decreases value,
{
    if value < 10 {
        seq![digit(value)]
    } else {
        decimal(value / 10).push(digit(value % 10))
    }
}

/// `value` in decimal, with a leading `-` if it is negative.
pub open spec fn signed_decimal(value: int) -> Seq<char> {
    if value < 0 {
        seq!['-'] + decimal((-value) as nat)
    } else {
        decimal(value as nat)
    }
}

/// `value` in lowercase hexadecimal, without prefix or leading zeros.
pub open spec fn hexadecimal(value: nat) -> Seq<char>
    decreases value,
{
    if value < 16 {
        seq![digit(value)]
    } else {
        hexadecimal(value / 16).push(digit(value % 16))
    }
}

/// `value` as exactly two decimal digits.
pub open spec fn two_digits(value: nat) -> Seq<char> {
    seq![digit(value / 10 % 10), digit(value % 10)]
}

/// The items in order, with `separator` between each two of them.
pub open spec fn joined(items: Seq<Seq<char>>, separator: Seq<char>) -> Seq<char>
    decreases items.len(),
{
    if items.len() == 0 {
        Seq::empty()
    } else if items.len() == 1 {
        items[0]
    } else {
        joined(items.drop_last(), separator) + separator + items.last()
    }
}

/// The number a decimal digit stands for.
pub open spec fn digit_value(c: char) -> nat {
    ((c as u32) - ('0' as u32)) as nat
}

/// The number that a string of decimal digits stands for.
pub open spec fn decimal_value(text: Seq<char>) -> nat
    decreases text.len(),
{
    if text.len() == 0 {
        0
    } else {
        decimal_value(text.drop_last()) * 10 + digit_value(text.last())
    }
}

/// Encoding works character by character, so the encodings of two texts follow each other.
pub proof fn lemma_encode_concat(a: Seq<char>, b: Seq<char>)
    ensures
        encode_utf8(a + b) == encode_utf8(a) + encode_utf8(b),
    decreases a.len(),
{
    if a.len() == 0 {
        assert(a + b =~= b);
    } else {
        assert((a + b).drop_first() =~= a.drop_first() + b);
        lemma_encode_concat(a.drop_first(), b);
        assert(encode_utf8(a + b) =~= encode_utf8(a) + encode_utf8(b));
    }
}

/// The length in bytes adds up.
pub broadcast proof fn lemma_utf8_len_concat(a: Seq<char>, b: Seq<char>)
    ensures
        #[trigger] utf8_len(a + b) == utf8_len(a) + utf8_len(b),
{
    lemma_encode_concat(a, b);
}

/// A text of ASCII characters takes one byte for each.
pub proof fn lemma_utf8_len_ascii(text: Seq<char>)
    requires
        is_ascii_chars(text),
    ensures
        utf8_len(text) == text.len(),
{
    is_ascii_chars_encode_utf8(text);
}

/// A text that fits is left as it is.
pub proof fn lemma_clip_fits(text: Seq<char>, cap: nat)
    requires
        utf8_len(text) <= cap,
    ensures
        clip(text, cap) == text,
{
}

/// Once a text is too long, what is appended to it is lost entirely.
pub proof fn lemma_clip_overflow(text: Seq<char>, more: Seq<char>, cap: nat)
    requires
        utf8_len(text) > cap,
    ensures
        clip(text + more, cap) == clip(text, cap),
    decreases more.len(),
{
    if more.len() == 0 {
        assert(text + more =~= text);
    } else {
        lemma_utf8_len_concat(text, more);
        assert((text + more).drop_last() =~= text + more.drop_last());
        lemma_clip_overflow(text, more.drop_last(), cap);
    }
}

/// What is left of a text is the longest of its prefixes that the buffer can hold.
pub proof fn clip_is_longest_fitting_prefix(text: Seq<char>, cap: nat)
    ensures
        clip(text, cap).len() <= text.len(),
        clip(text, cap) == text.take(clip(text, cap).len() as int),
        utf8_len(clip(text, cap)) <= cap,
        forall|n: int|
            clip(text, cap).len() < n <= text.len() ==> utf8_len(#[trigger] text.take(n)) > cap,
    decreases text.len(),
{
    if utf8_len(text) <= cap || text.len() == 0 {
        assert(text.take(text.len() as int) =~= text);
        assert(text.len() == 0 ==> utf8_len(text) == 0);
    } else {
        let shorter = text.drop_last();
        clip_is_longest_fitting_prefix(shorter, cap);
        let kept = clip(text, cap);
        assert(shorter.take(kept.len() as int) =~= text.take(kept.len() as int));
        assert forall|n: int| kept.len() < n <= text.len() implies utf8_len(
            #[trigger] text.take(n),
        ) > cap by {
            if n == text.len() {
                assert(text.take(n) =~= text);
            } else {
                assert(shorter.take(n) =~= text.take(n));
            }
        }
    }
}

/// Clipping twice with the same capacity changes nothing more.
pub proof fn clip_is_idempotent(text: Seq<char>, cap: nat)
    ensures
        clip(clip(text, cap), cap) == clip(text, cap),
{
    clip_is_longest_fitting_prefix(text, cap);
}

/// Reading back the decimal digits of a number gives the number.
pub proof fn decimal_reads_back(value: nat)
    ensures
        decimal_value(decimal(value)) == value,
    decreases value,
{
    if value < 10 {
        let text = decimal(value);
        assert(text.drop_last() =~= Seq::<char>::empty());
        assert(decimal_value(text.drop_last()) == 0);
    } else {
        decimal_reads_back(value / 10);
        assert(decimal(value).drop_last() =~= decimal(value / 10));
    }
}

/// The power of ten with `digits` zeros.
pub open spec fn power_of_ten(digits: nat) -> nat
    decreases digits,
{
    if digits == 0 {
        1
    } else {
        10 * power_of_ten((digits - 1) as nat)
    }
}

/// A number below a power of ten has at most that many digits, of one byte each.
pub proof fn lemma_decimal_len(value: nat, digits: nat)
    requires
        digits >= 1,
        value < power_of_ten(digits),
    ensures
        decimal(value).len() <= digits,
        utf8_len(decimal(value)) <= digits,
    decreases digits,
{
    lemma_decimal_ascii(value);
    lemma_utf8_len_ascii(decimal(value));
    if value >= 10 {
        if digits == 1 {
            assert(power_of_ten(0) == 1);
        } else {
            lemma_decimal_len(value / 10, (digits - 1) as nat);
        }
    }
}

/// Decimal digits are ASCII.
pub proof fn lemma_decimal_ascii(value: nat)
    ensures
        is_ascii_chars(decimal(value)),
        decimal(value).len() >= 1,
    decreases value,
{
    if value >= 10 {
        lemma_decimal_ascii(value / 10);
    }
}

/// Hexadecimal digits are ASCII.
pub proof fn lemma_hexadecimal_ascii(value: nat)
    ensures
        is_ascii_chars(hexadecimal(value)),
        hexadecimal(value).len() >= 1,
    decreases value,
{
    if value >= 16 {
        lemma_hexadecimal_ascii(value / 16);
    }
}

/// It does not matter in which order texts are put together.
pub broadcast proof fn lemma_concat_associative(a: Seq<char>, b: Seq<char>, c: Seq<char>)
    ensures
        #[trigger] (a + b + c) == a + (b + c),
{
    assert(a + b + c =~= a + (b + c));
}

/// Joining one more item appends it, behind a separator unless it is the first.
pub proof fn lemma_joined_push(items: Seq<Seq<char>>, item: Seq<char>, separator: Seq<char>)
    ensures
        items.len() == 0 ==> joined(items.push(item), separator) == item,
        items.len() > 0 ==> joined(items.push(item), separator) == joined(items, separator)
            + separator + item,
{
    assert(items.push(item).drop_last() =~= items);
}

/// Joined items take no more bytes than their number times the longest item and a separator.
pub proof fn lemma_joined_len(items: Seq<Seq<char>>, separator: Seq<char>, longest: nat)
    requires
        forall|i: int| 0 <= i < items.len() ==> utf8_len(#[trigger] items[i]) <= longest,
    ensures
        utf8_len(joined(items, separator)) <= items.len() * (longest + utf8_len(separator)),
    decreases items.len(),
{
    let each = longest + utf8_len(separator);
    if items.len() == 0 {
        assert(utf8_len(Seq::empty()) == 0);
    } else if items.len() == 1 {
    } else {
        let others = items.drop_last();
        assert forall|i: int| 0 <= i < others.len() implies utf8_len(#[trigger] others[i])
            <= longest by {
            assert(others[i] == items[i]);
        }
        lemma_joined_len(others, separator, longest);
        lemma_utf8_len_concat(joined(others, separator), separator);
        lemma_utf8_len_concat(joined(others, separator) + separator, items.last());
        assert(items.len() * each == (items.len() - 1) * each + each) by (nonlinear_arith);
    }
}

/// How many bytes the decimal digits of bytes, words and long words take.
pub proof fn lemma_decimal_sizes(value: nat)
    ensures
        value < 1000 ==> utf8_len(decimal(value)) <= 3,
        value <= 0x0fff_ffff ==> utf8_len(decimal(value)) <= 9,
        value <= u32::MAX ==> utf8_len(decimal(value)) <= 10,
        value <= u64::MAX ==> utf8_len(decimal(value)) <= 20,
{
    reveal_with_fuel(power_of_ten, 21);
    if value < 1000 {
        lemma_decimal_len(value, 3);
    }
    if value <= 0x0fff_ffff {
        lemma_decimal_len(value, 9);
    }
    if value <= u32::MAX {
        lemma_decimal_len(value, 10);
    }
    if value <= u64::MAX {
        lemma_decimal_len(value, 20);
    }
}

/// The hexadecimal digits of a word take at most eight bytes.
pub proof fn lemma_hexadecimal_size(value: u32)
    ensures
        utf8_len(hexadecimal(value as nat)) <= 8,
{
    lemma_hexadecimal_ascii(value as nat);
    lemma_utf8_len_ascii(hexadecimal(value as nat));
    lemma_hexadecimal_digits(value as nat, 8);
}

/// A number below a power of sixteen has at most that many hexadecimal digits.
proof fn lemma_hexadecimal_digits(value: nat, digits: nat)
    requires
        1 <= digits <= 8,
        value < (if digits == 1 {
            0x10int
        } else if digits == 2 {
            0x100
        } else if digits == 3 {
            0x1000
        } else if digits == 4 {
            0x1_0000
        } else if digits == 5 {
            0x10_0000
        } else if digits == 6 {
            0x100_0000
        } else if digits == 7 {
            0x1000_0000
        } else {
            0x1_0000_0000
        }),
    ensures
        hexadecimal(value).len() <= digits,
    decreases digits,
{
    if value >= 16 {
        lemma_hexadecimal_digits(value / 16, (digits - 1) as nat);
    }
}

/// The digit character of a value below sixteen.
pub fn digit_char(value: u64) -> (r: char)
    requires
        value < 16,
    ensures
        r == digit(value as nat),
{
    match value {
        0 => '0',
        1 => '1',
        2 => '2',
        3 => '3',
        4 => '4',
        5 => '5',
        6 => '6',
        7 => '7',
        8 => '8',
        9 => '9',
        10 => 'a',
        11 => 'b',
        12 => 'c',
        13 => 'd',
        14 => 'e',
        _ => 'f',
    }
}

/// Whether two texts are the same.
pub fn same_text(a: &str, b: &str) -> (r: bool)
    ensures
        r == (a@ == b@),
{
    let left = a.as_bytes();
    let right = b.as_bytes();
    proof {
        encode_utf8_decode_utf8(a@);
        encode_utf8_decode_utf8(b@);
    }
    if left.len() != right.len() {
        return false;
    }
    for index in 0..left.len()
        invariant
            left@ == encode_utf8(a@),
            right@ == encode_utf8(b@),
            left@.len() == right@.len(),
            forall|i: int| 0 <= i < index ==> left@[i] == right@[i],
    {
        if left[index] != right[index] {
            return false;
        }
    }
    assert(left@ =~= right@);
    true
}

/// Whether bytes are the beginning of one character in UTF-8, of which some are still missing.
pub open spec fn is_unfinished(tail: Seq<u8>) -> bool {
    &&& tail.len() > 0
    &&& exists|missing: Seq<u8>|
        {
            &&& missing.len() > 0
            &&& valid_first_scalar(#[trigger] (tail + missing))
            &&& length_of_first_scalar(tail + missing) == tail.len() + missing.len()
        }
}

/// The bytes without the unfinished character at their end, if there is one.
pub open spec fn without_unfinished(bytes: Seq<u8>) -> Seq<u8> {
    let len = bytes.len() as int;
    if len >= 1 && is_unfinished(bytes.skip(len - 1)) {
        bytes.take(len - 1)
    } else if len >= 2 && is_unfinished(bytes.skip(len - 2)) {
        bytes.take(len - 2)
    } else if len >= 3 && is_unfinished(bytes.skip(len - 3)) {
        bytes.take(len - 3)
    } else {
        bytes
    }
}

/// Whether `second` can be the second byte of a character of three or four bytes that begins
/// with `first`.
spec fn can_follow(first: u8, second: u8) -> bool {
    if first == 0xE0 {
        0xA0 <= second <= 0xBF
    } else if first == 0xED {
        0x80 <= second <= 0x9F
    } else if first == 0xF0 {
        0x90 <= second <= 0xBF
    } else if first == 0xF4 {
        0x80 <= second <= 0x8F
    } else {
        0x80 <= second <= 0xBF
    }
}

/// The bytes with which one to three bytes of an unfinished character begin.
spec fn begins_character(tail: Seq<u8>) -> bool {
    if tail.len() == 1 {
        0xC2 <= tail[0] <= 0xF4
    } else if tail.len() == 2 {
        0xE0 <= tail[0] <= 0xF4 && can_follow(tail[0], tail[1])
    } else {
        0xF0 <= tail[0] <= 0xF4 && can_follow(tail[0], tail[1]) && is_continuation_byte(tail[2])
    }
}

/// Which first bytes a character of two bytes can have.
proof fn lemma_two_bytes(b1: u8, b2: u8)
    by (bit_vector)
    requires
        0xC0 <= b1 <= 0xDF,
        0x80 <= b2 <= 0xBF,
    ensures
        codepoint_width_2(b1, b2) >= 0x80 <==> b1 >= 0xC2,
        codepoint_width_2(b1, b2) < 0xD800,
{
}

/// Which first two bytes a character of three bytes can have.
proof fn lemma_three_bytes(b1: u8, b2: u8, b3: u8)
    by (bit_vector)
    requires
        0xE0 <= b1 <= 0xEF,
        0x80 <= b2 <= 0xBF,
        0x80 <= b3 <= 0xBF,
    ensures
        codepoint_width_3(b1, b2, b3) >= 0x800 && !(0xD800 <= codepoint_width_3(b1, b2, b3)
            && codepoint_width_3(b1, b2, b3) <= 0xDFFF) <==> can_follow(b1, b2),
{
}

/// Which first two bytes a character of four bytes can have.
proof fn lemma_four_bytes(b1: u8, b2: u8, b3: u8, b4: u8)
    by (bit_vector)
    requires
        0xF0 <= b1 <= 0xF7,
        0x80 <= b2 <= 0xBF,
        0x80 <= b3 <= 0xBF,
        0x80 <= b4 <= 0xBF,
    ensures
        0x10000 <= codepoint_width_4(b1, b2, b3, b4) && codepoint_width_4(b1, b2, b3, b4)
            <= 0x10FFFF <==> b1 <= 0xF4 && can_follow(b1, b2),
{
}

/// A sequence of bytes is one character if it has the right first bytes and goes on as it should.
proof fn lemma_one_character(bytes: Seq<u8>)
    requires
        bytes.len() >= 1,
    ensures
        bytes.len() == 2 ==> (valid_first_scalar(bytes) && length_of_first_scalar(bytes) == 2 <==>
            0xC2 <= bytes[0] <= 0xDF && is_continuation_byte(bytes[1])),
        bytes.len() == 3 ==> (valid_first_scalar(bytes) && length_of_first_scalar(bytes) == 3 <==>
            0xE0 <= bytes[0] <= 0xEF && can_follow(bytes[0], bytes[1]) && is_continuation_byte(
            bytes[2],
        )),
        bytes.len() == 4 ==> (valid_first_scalar(bytes) && length_of_first_scalar(bytes) == 4 <==>
            0xF0 <= bytes[0] <= 0xF4 && can_follow(bytes[0], bytes[1]) && is_continuation_byte(
            bytes[2],
        ) && is_continuation_byte(bytes[3])),
        valid_first_scalar(bytes) ==> length_of_first_scalar(bytes) <= 4,
{
    if bytes.len() == 2 && 0xC0 <= bytes[0] <= 0xDF && is_continuation_byte(bytes[1]) {
        lemma_two_bytes(bytes[0], bytes[1]);
    }
    if bytes.len() == 3 && 0xE0 <= bytes[0] <= 0xEF && is_continuation_byte(bytes[1])
        && is_continuation_byte(bytes[2]) {
        lemma_three_bytes(bytes[0], bytes[1], bytes[2]);
    }
    if bytes.len() == 4 && 0xF0 <= bytes[0] <= 0xF7 && is_continuation_byte(bytes[1])
        && is_continuation_byte(bytes[2]) && is_continuation_byte(bytes[3]) {
        lemma_four_bytes(bytes[0], bytes[1], bytes[2], bytes[3]);
    }
}

/// One to three bytes are an unfinished character if they begin as one does.
proof fn lemma_unfinished(tail: Seq<u8>)
    requires
        1 <= tail.len() <= 3,
    ensures
        is_unfinished(tail) <==> begins_character(tail),
{
    if begins_character(tail) {
        let second: u8 = if tail[0] == 0xE0 {
            0xA0
        } else if tail[0] == 0xF0 {
            0x90
        } else {
            0x80
        };
        let width: nat = if tail[0] <= 0xDF {
            2
        } else if tail[0] <= 0xEF {
            3
        } else {
            4
        };
        let missing = Seq::new(
            (width - tail.len()) as nat,
            |i: int|
                if i + tail.len() == 1 {
                    second
                } else {
                    0x80u8
                },
        );
        let whole = tail + missing;
        lemma_one_character(whole);
        assert(valid_first_scalar(whole));
    }
    if is_unfinished(tail) {
        let missing = choose|missing: Seq<u8>|
            {
                &&& missing.len() > 0
                &&& valid_first_scalar(#[trigger] (tail + missing))
                &&& length_of_first_scalar(tail + missing) == tail.len() + missing.len()
            };
        let whole = tail + missing;
        lemma_one_character(whole);
        assert(forall|i: int| 0 <= i < tail.len() ==> whole[i] == tail[i]);
    }
}

/// Whether the bytes from `start` on, at most three, are an unfinished character.
fn ends_unfinished(bytes: &[u8], start: usize) -> (r: bool)
    requires
        start < bytes@.len() <= start + 3,
    ensures
        r == is_unfinished(bytes@.skip(start as int)),
{
    let len: usize = bytes.len() - start;
    proof {
        lemma_unfinished(bytes@.skip(start as int));
    }
    let first: u8 = bytes[start];
    if len == 1 {
        return first >= 0xC2 && first <= 0xF4;
    }
    let second: u8 = bytes[start + 1];
    let lowest: u8 = match first {
        0xE0 => 0xA0,
        0xF0 => 0x90,
        _ => 0x80,
    };
    let highest: u8 = match first {
        0xED => 0x9F,
        0xF4 => 0x8F,
        _ => 0xBF,
    };
    if first > 0xF4 || second < lowest || second > highest {
        return false;
    }
    if len == 2 {
        first >= 0xE0
    } else {
        first >= 0xF0 && bytes[start + 2] >= 0x80 && bytes[start + 2] <= 0xBF
    }
}

/// The bytes without the unfinished character at their end, if there is one.
pub fn drop_unfinished(bytes: &[u8]) -> (r: &[u8])
    ensures
        r@ == without_unfinished(bytes@),
{
    let len: usize = bytes.len();
    if len >= 1 && ends_unfinished(bytes, len - 1) {
        vstd::slice::slice_subrange(bytes, 0, len - 1)
    } else if len >= 2 && ends_unfinished(bytes, len - 2) {
        vstd::slice::slice_subrange(bytes, 0, len - 2)
    } else if len >= 3 && ends_unfinished(bytes, len - 3) {
        vstd::slice::slice_subrange(bytes, 0, len - 3)
    } else {
        bytes
    }
}

/// An unfinished character has one to three bytes, of which only the first begins a character.
pub proof fn lemma_unfinished_shape(tail: Seq<u8>)
    requires
        is_unfinished(tail),
    ensures
        1 <= tail.len() <= 3,
        tail[0] >= 0xC0,
        forall|i: int| 1 <= i < tail.len() ==> is_continuation_byte(#[trigger] tail[i]),
        !valid_utf8(tail),
{
    let missing = choose|missing: Seq<u8>|
        {
            &&& missing.len() > 0
            &&& valid_first_scalar(#[trigger] (tail + missing))
            &&& length_of_first_scalar(tail + missing) == tail.len() + missing.len()
        };
    let whole = tail + missing;
    assert(forall|i: int| 0 <= i < tail.len() ==> whole[i] == tail[i]);
}

/// An unfinished character behind other bytes is dropped, and nothing else.
pub proof fn unfinished_character_is_dropped(bytes: Seq<u8>, tail: Seq<u8>)
    requires
        is_unfinished(tail),
    ensures
        without_unfinished(bytes + tail) == bytes,
{
    let all = bytes + tail;
    let len = all.len() as int;
    lemma_unfinished_shape(tail);
    assert forall|n: int| 1 <= n < tail.len() implies !is_unfinished(#[trigger] all.skip(len - n)) by {
        let part = all.skip(len - n);
        assert(part[0] == tail[tail.len() - n]);
        if is_unfinished(part) {
            lemma_unfinished_shape(part);
        }
    }
    assert(all.skip(len - tail.len()) =~= tail);
    assert(all.take(len - tail.len()) =~= bytes);
}

/// Bytes that are UTF-8 do not end with an unfinished character.
pub proof fn whole_text_is_kept(bytes: Seq<u8>)
    requires
        valid_utf8(bytes),
    ensures
        without_unfinished(bytes) == bytes,
{
    let len = bytes.len() as int;
    assert forall|n: int| 1 <= n <= len implies !is_unfinished(#[trigger] bytes.skip(len - n)) by {
        let part = bytes.skip(len - n);
        if is_unfinished(part) {
            lemma_unfinished_shape(part);
            is_char_boundary_iff_not_is_continuation_byte(bytes, len - n);
            assert(!is_continuation_byte(bytes[len - n]));
            valid_utf8_split(bytes, len - n);
            assert(part =~= bytes.subrange(len - n, len));
        }
    }
}

} // verus!
