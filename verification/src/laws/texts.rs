//! What the served texts hold.

use crate::fixed::FixedString;
use crate::protocol;
use crate::protocol::{EspInfo, PartitionInfo};
use crate::text;
use vstd::prelude::*;
use vstd::string::*;

verus! {

/// The number that a digit stands for, decimal or lowercase hexadecimal.
pub open spec fn digit_number(c: char) -> int {
    if '0' <= c <= '9' {
        c as int - '0' as int
    } else {
        c as int - 'a' as int + 10
    }
}

/// Whether a character is a digit in a base of up to sixteen.
pub open spec fn is_digit(c: char, base: int) -> bool {
    &&& '0' <= c <= '9' || 'a' <= c <= 'f'
    &&& digit_number(c) < base
}

/// The number that digits stand for in a base.
pub open spec fn number_read(digits: Seq<char>, base: int) -> int
    decreases digits.len(),
{
    if digits.len() == 0 {
        0
    } else {
        number_read(digits.drop_last(), base) * base + digit_number(digits.last())
    }
}

/// Whether a text is a number in a base: nothing but digits, none of them a leading zero.
pub open spec fn is_number(digits: Seq<char>, base: int, number: int) -> bool {
    &&& digits.len() > 0
    &&& forall|i: int| 0 <= i < digits.len() ==> is_digit(#[trigger] digits[i], base)
    &&& digits.len() > 1 ==> digits[0] != '0'
    &&& number_read(digits, base) == number
}

/// Numbers are written in decimal digits that read back as the number.
pub proof fn decimal_digits_are_the_number(number: nat)
    ensures
        is_number(text::decimal(number), 10, number as int),
        number > 0 ==> text::decimal(number)[0] != '0',
    decreases number,
{
    let digits = text::decimal(number);
    if number < 10 {
        assert(digits.drop_last() =~= Seq::<char>::empty());
        assert(number_read(digits.drop_last(), 10) == 0);
    } else {
        decimal_digits_are_the_number(number / 10);
        assert(digits.drop_last() =~= text::decimal(number / 10));
    }
}

/// Addresses are written in lowercase hexadecimal digits that read back as the address.
pub proof fn hexadecimal_digits_are_the_number(number: nat)
    ensures
        is_number(text::hexadecimal(number), 16, number as int),
        number > 0 ==> text::hexadecimal(number)[0] != '0',
    decreases number,
{
    let digits = text::hexadecimal(number);
    if number < 16 {
        assert(digits.drop_last() =~= Seq::<char>::empty());
        assert(number_read(digits.drop_last(), 16) == 0);
    } else {
        hexadecimal_digits_are_the_number(number / 16);
        assert(digits.drop_last() =~= text::hexadecimal(number / 16));
    }
}

/// Different numbers are written differently.
pub proof fn decimal_digits_tell_numbers_apart(one: nat, other: nat)
    ensures
        text::decimal(one) == text::decimal(other) ==> one == other,
{
    decimal_digits_are_the_number(one);
    decimal_digits_are_the_number(other);
}

/// A negative number is written as its size behind a minus sign.
pub proof fn signed_digits_are_the_number(number: int)
    ensures
        number >= 0 ==> is_number(text::signed_decimal(number), 10, number),
        number < 0 ==> {
            &&& text::signed_decimal(number).len() > 1
            &&& text::signed_decimal(number)[0] == '-'
            &&& is_number(text::signed_decimal(number).skip(1), 10, -number)
        },
{
    if number < 0 {
        decimal_digits_are_the_number((-number) as nat);
        assert(text::signed_decimal(number).skip(1) =~= text::decimal((-number) as nat));
    } else {
        decimal_digits_are_the_number(number as nat);
    }
}

/// A whole part, a point, two decimals and a unit.
pub open spec fn with_decimals(
    whole: Seq<char>,
    tenth: char,
    hundredth: char,
    unit: Seq<char>,
) -> Seq<char> {
    whole + seq!['.', tenth, hundredth] + unit
}

/// Whether a text is a number of hundredths with exactly two decimals and a unit behind it.
pub open spec fn is_hundredths(shown: Seq<char>, hundredths: int, unit: Seq<char>) -> bool {
    exists|whole: Seq<char>, tenth: char, hundredth: char|
        {
            &&& shown == #[trigger] with_decimals(whole, tenth, hundredth, unit)
            &&& is_number(whole, 10, hundredths / 100)
            &&& is_digit(tenth, 10)
            &&& is_digit(hundredth, 10)
            &&& digit_number(tenth) * 10 + digit_number(hundredth) == hundredths % 100
        }
}

/// Whether a text shows a number of bytes in the unit that suits it, to the nearest hundredth of
/// a unit, halves upward.
pub open spec fn shows_bytes(shown: Seq<char>, bytes: int) -> bool {
    if bytes < 1024 {
        exists|digits: Seq<char>|
            shown == digits + " B"@ && #[trigger] is_number(digits, 10, bytes)
    } else if bytes < 1048576 {
        exists|hundredths: int|
            {
                &&& hundredths * 1024 - 512 <= bytes * 100 < hundredths * 1024 + 512
                &&& #[trigger] is_hundredths(shown, hundredths, " KB"@)
            }
    } else {
        exists|hundredths: int|
            {
                &&& hundredths * 1048576 - 524288 <= bytes * 100 < hundredths * 1048576 + 524288
                &&& #[trigger] is_hundredths(shown, hundredths, " MB"@)
            }
    }
}

/// A number of hundredths is written with two decimals.
proof fn lemma_hundredths(hundredths: nat, unit: Seq<char>)
    ensures
        is_hundredths(protocol::hundredths_text(hundredths) + unit, hundredths as int, unit),
{
    reveal_strlit(".");
    let whole = text::decimal(hundredths / 100);
    let rest = hundredths % 100;
    let tenth = text::digit(rest / 10 % 10);
    let hundredth = text::digit(rest % 10);
    decimal_digits_are_the_number(hundredths / 100);
    assert(protocol::hundredths_text(hundredths) + unit =~= with_decimals(
        whole,
        tenth,
        hundredth,
        unit,
    ));
}

/// The text of a number of bytes shows it.
pub proof fn lemma_bytes_text_shows_bytes(bytes: nat)
    ensures
        shows_bytes(protocol::bytes_text(bytes), bytes as int),
{
    if bytes < 1024 {
        decimal_digits_are_the_number(bytes);
        assert(protocol::bytes_text(bytes) == text::decimal(bytes) + " B"@);
    } else if bytes < 1048576 {
        let hundredths = protocol::rounded_hundredths(bytes, 1024);
        lemma_hundredths(hundredths, " KB"@);
        assert(is_hundredths(
            protocol::bytes_text(bytes),
            hundredths as int,
            " KB"@,
        ));
    } else {
        let hundredths = protocol::rounded_hundredths(bytes, 1048576);
        lemma_hundredths(hundredths, " MB"@);
        assert(is_hundredths(
            protocol::bytes_text(bytes),
            hundredths as int,
            " MB"@,
        ));
    }
}

/// A formatted number of bytes shows it.
pub proof fn formatted_bytes_show_the_number(bytes: u32, r: FixedString<24>)
    requires
        call_ensures(protocol::format_bytes, (bytes,), r),
    ensures
        shows_bytes(r@, bytes as int),
        r@ == protocol::bytes_text(bytes as nat),
{
    lemma_bytes_text_shows_bytes(bytes as nat);
}

/// The two parts of a quotient make up the nearest number of hundredths, halves upward.
pub proof fn two_decimals_are_the_nearest(numerator: u64, divisor: u64, r: (u64, u64))
    requires
        divisor > 0,
        call_ensures(protocol::to_two_decimals, (numerator, divisor), r),
    ensures
        r.1 < 100,
        -divisor <= 2 * (numerator * 100 - (r.0 * 100 + r.1) * divisor) < divisor,
{
    let shifted = numerator * 100 + divisor / 2;
    let quotient = shifted / divisor as int;
    vstd::arithmetic::div_mod::lemma_fundamental_div_mod(shifted, divisor as int);
    assert(divisor * quotient == quotient * divisor) by (nonlinear_arith);
}

/// Whether a text is a prefix of another that takes at most `cap` bytes, and one more character of
/// the other would take more.
pub open spec fn is_what_fits(kept: Seq<char>, full: Seq<char>, cap: nat) -> bool {
    &&& kept.len() <= full.len()
    &&& kept == full.take(kept.len() as int)
    &&& text::utf8_len(kept) <= cap
    &&& kept.len() < full.len() ==> text::utf8_len(full.take(kept.len() as int + 1)) > cap
}

/// A string that is made of a text keeps what fits of it.
pub proof fn strings_keep_what_fits<const N: usize>(full: &str, r: FixedString<N>)
    requires
        call_ensures(FixedString::<N>::clipped, (full,), r),
    ensures
        is_what_fits(r@, full@, N as nat),
        text::utf8_len(full@) <= N ==> r@ == full@,
{
    text::clip_is_longest_fitting_prefix(full@, N as nat);
}

/// A string to which a text is pushed keeps what fits of both.
pub proof fn pushed_texts_are_kept_as_far_as_they_fit<const N: usize>(
    string: &mut FixedString<N>,
    more: &str,
    complete: bool,
)
    requires
        call_ensures(FixedString::<N>::push_str, (string, more), complete),
    ensures
        is_what_fits(final(string)@, old(string)@ + more@, N as nat),
        complete <==> final(string)@ == old(string)@ + more@,
{
    let full = old(string)@ + more@;
    text::clip_is_longest_fitting_prefix(full, N as nat);
    assert(full.take(full.len() as int) =~= full);
}

/// What is left of a text in a buffer is what fits of it.
pub proof fn lemma_clip_is_what_fits(full: Seq<char>, cap: nat)
    ensures
        is_what_fits(text::clip(full, cap), full, cap),
        text::utf8_len(full) <= cap ==> text::clip(full, cap) == full,
{
    text::clip_is_longest_fitting_prefix(full, cap);
}

/// Whether the index page with these settings is a page around them: the settings stand in it as
/// they are, the port in decimal digits.
pub open spec fn is_page_around(
    page: Seq<char>,
    before: Seq<char>,
    ip: Seq<char>,
    port: Seq<char>,
    free_sketch_ram: Seq<char>,
    after: Seq<char>,
) -> bool {
    page == before + "window.gpio_settings = {ip:'"@ + ip + "',port:'"@ + port
        + "',freeSketchRam:'"@ + free_sketch_ram + "'};"@ + after
}

/// The index page holds the address, the port in decimal digits and the free sketch RAM, each in
/// its place. What stands around them is the same on every page.
pub proof fn index_page_holds_its_settings(ip: Seq<char>, port: nat, free_sketch_ram: Seq<char>)
    ensures
        exists|before: Seq<char>, after: Seq<char>|
            {
                &&& is_page_around(
                    protocol::index_page(ip, port, free_sketch_ram),
                    before,
                    ip,
                    text::decimal(port),
                    free_sketch_ram,
                    after,
                )
                &&& forall|other_ip: Seq<char>, other_port: nat, other_ram: Seq<char>|
                    #[trigger] is_page_around(
                        protocol::index_page(other_ip, other_port, other_ram),
                        before,
                        other_ip,
                        text::decimal(other_port),
                        other_ram,
                        after,
                    )
            },
        is_number(text::decimal(port), 10, port as int),
{
    reveal_strlit("<script>window.gpio_settings = {ip:'");
    reveal_strlit("<script>");
    reveal_strlit("window.gpio_settings = {ip:'");
    reveal_strlit("'};</script>");
    reveal_strlit("'};");
    reveal_strlit("</script>");
    let head = "<!DOCTYPE html><html lang='en'><head><meta charset='UTF-8'>"@ + "<base href ='"@
        + protocol::BASE_URL@ + "'>"@
        + "<link rel='icon' href='favicon.ico'><meta name='viewport' content='width=device-width, initial-scale=1.0'><title>GPIOViewer</title>"@
        + "<script type='module' crossorigin src='GPIOViewerVue.js'></script>"@
        + "<link rel='stylesheet' crossorigin href='assets/main.css'></head><body><div id='app'></div>"@;
    let before = head + "<script>"@;
    let after = "</script>"@ + "</body></html>"@;
    assert("<script>window.gpio_settings = {ip:'"@ =~= "<script>"@
        + "window.gpio_settings = {ip:'"@);
    assert("'};</script>"@ =~= "'};"@ + "</script>"@);
    decimal_digits_are_the_number(port);
    assert forall|other_ip: Seq<char>, other_port: nat, other_ram: Seq<char>|
        #[trigger] is_page_around(
            protocol::index_page(other_ip, other_port, other_ram),
            before,
            other_ip,
            text::decimal(other_port),
            other_ram,
            after,
        ) by {
        broadcast use text::lemma_concat_associative;

        assert(is_page_around(
            protocol::index_page(other_ip, other_port, other_ram),
            before,
            other_ip,
            text::decimal(other_port),
            other_ram,
            after,
        ));
    }
    assert(is_page_around(
        protocol::index_page(ip, port, free_sketch_ram),
        before,
        ip,
        text::decimal(port),
        free_sketch_ram,
        after,
    ));
}

/// Index pages with different ports are different.
pub proof fn index_pages_tell_ports_apart(
    ip: Seq<char>,
    port: nat,
    other_port: nat,
    free_sketch_ram: Seq<char>,
)
    requires
        port != other_port,
    ensures
        protocol::index_page(ip, port, free_sketch_ram) != protocol::index_page(
            ip,
            other_port,
            free_sketch_ram,
        ),
{
    index_page_holds_its_settings(ip, port, free_sketch_ram);
    let (before, after) = choose|before: Seq<char>, after: Seq<char>|
        {
            &&& is_page_around(
                protocol::index_page(ip, port, free_sketch_ram),
                before,
                ip,
                text::decimal(port),
                free_sketch_ram,
                after,
            )
            &&& forall|other_ip: Seq<char>, other_port: nat, other_ram: Seq<char>|
                #[trigger] is_page_around(
                    protocol::index_page(other_ip, other_port, other_ram),
                    before,
                    other_ip,
                    text::decimal(other_port),
                    other_ram,
                    after,
                )
        };
    let a = text::decimal(port);
    let b = text::decimal(other_port);
    let one = protocol::index_page(ip, port, free_sketch_ram);
    let other = protocol::index_page(ip, other_port, free_sketch_ram);
    assert(is_page_around(other, before, ip, b, free_sketch_ram, after));
    if one == other {
        let start = (before + "window.gpio_settings = {ip:'"@ + ip + "',port:'"@).len() as int;
        let rest = "',freeSketchRam:'"@.len() + free_sketch_ram.len() + "'};"@.len() + after.len();
        assert(one.len() == start + a.len() + rest);
        assert(other.len() == start + b.len() + rest);
        assert(one.subrange(start, start + a.len()) =~= a);
        assert(other.subrange(start, start + b.len()) =~= b);
        decimal_digits_tell_numbers_apart(port, other_port);
    }
}

/// The index page is what fits of a page with its settings.
pub proof fn index_html_is_the_page(
    ip: &str,
    port: u16,
    free_sketch_ram: &str,
    r: FixedString<1024>,
)
    requires
        call_ensures(protocol::index_html, (ip, port, free_sketch_ram), r),
    ensures
        is_what_fits(r@, protocol::index_page(ip@, port as nat, free_sketch_ram@), 1024),
{
    lemma_clip_is_what_fits(protocol::index_page(ip@, port as nat, free_sketch_ram@), 1024);
}

/// `/release` holds the release between its quotes, as far as it fits.
pub proof fn release_is_served(release: &str, r: FixedString<64>)
    requires
        call_ensures(protocol::release_body, (release,), r),
    ensures
        is_what_fits(r@, "{\"release\": \""@ + release@ + "\"}"@, 64),
        text::utf8_len(release@) <= 32 ==> r@ == "{\"release\": \""@ + release@ + "\"}"@,
{
    lemma_clip_is_what_fits("{\"release\": \""@ + release@ + "\"}"@, 64);
    if text::utf8_len(release@) <= 32 {
        crate::capacity::release_fits(release@);
    }
}

/// `/sampling` holds the interval in decimal digits between its quotes.
pub proof fn sampling_interval_is_served(sampling_ms: u32, r: FixedString<64>)
    requires
        call_ensures(protocol::sampling_body, (sampling_ms,), r),
    ensures
        exists|digits: Seq<char>|
            {
                &&& #[trigger] is_number(digits, 10, sampling_ms as int)
                &&& r@ == "{\"sampling\": \""@ + digits + "\"}"@
            },
{
    decimal_digits_are_the_number(sampling_ms as nat);
}

/// Whether a text shows the free PSRAM: its number of bytes, or that there is none.
pub open spec fn shows_psram(shown: Seq<char>, psram: Option<u32>) -> bool {
    match psram {
        Some(bytes) => shows_bytes(shown, bytes as int),
        None => shown == "No PSRAM"@,
    }
}

/// `/free_psram` holds the interval and the free PSRAM, with a space between them. In its
/// malformed shape the object is closed between them.
pub proof fn free_psram_is_served(
    sampling_ms: u32,
    psram: Option<u32>,
    r: FixedString<64>,
    sound: FixedString<64>,
    malformed: FixedString<64>,
)
    requires
        call_ensures(protocol::free_psram_body, (sampling_ms, psram), r),
        call_ensures(protocol::free_psram_body_variant, (sampling_ms, psram, false), sound),
        call_ensures(protocol::free_psram_body_variant, (sampling_ms, psram, true), malformed),
    ensures
        exists|digits: Seq<char>, shown: Seq<char>|
            {
                &&& #[trigger] is_number(digits, 10, sampling_ms as int)
                &&& #[trigger] shows_psram(shown, psram)
                &&& r@ == "{\"sampling\": \""@ + digits + " "@ + shown + "\"}"@
                &&& sound@ == r@
                &&& malformed@ == "{\"sampling\": \""@ + digits + "\"}"@ + shown + "\"}"@
            },
{
    decimal_digits_are_the_number(sampling_ms as nat);
    if let Some(bytes) = psram {
        lemma_bytes_text_shows_bytes(bytes as nat);
    }
    assert(is_number(text::decimal(sampling_ms as nat), 10, sampling_ms as int));
    assert(shows_psram(protocol::psram_text(psram), psram));
}

/// What a list reads like up to a further item: its text without the closing bracket, and a
/// separator if it has items.
pub open spec fn reopened(list: Seq<char>, closing: int, empty: bool, separator: Seq<char>) -> Seq<
    char,
> {
    if empty {
        list.take(list.len() - closing)
    } else {
        list.take(list.len() - closing) + separator
    }
}

/// A list that is closed behind its joined items is reopened behind them.
proof fn lemma_reopened(
    opening: Seq<char>,
    items: Seq<Seq<char>>,
    item: Seq<char>,
    separator: Seq<char>,
    closing: Seq<char>,
)
    ensures
        opening + text::joined(items.push(item), separator) + closing == reopened(
            opening + text::joined(items, separator) + closing,
            closing.len() as int,
            items.len() == 0,
            separator,
        ) + item + closing,
{
    let list = opening + text::joined(items, separator) + closing;
    text::lemma_joined_push(items, item, separator);
    assert(list.take(list.len() - closing.len()) =~= opening + text::joined(items, separator));
    if items.len() == 0 {
        assert(opening + text::joined(items, separator) =~= opening);
        assert(opening + item + closing =~= reopened(
            list,
            closing.len() as int,
            true,
            separator,
        ) + item + closing);
    } else {
        assert(opening + (text::joined(items, separator) + separator + item) + closing =~= opening
            + text::joined(items, separator) + separator + item + closing);
    }
}

/// `/pinmodes` is an empty array without pins, and each further pin stands behind the others,
/// with its GPIO number and its mode in decimal digits.
pub proof fn pinmodes_list_every_pin(pins: Seq<(u8, u32)>, pin: (u8, u32))
    ensures
        protocol::pinmodes_text(Seq::empty()) == "[]"@,
        protocol::pinmodes_text(pins.push(pin)) == reopened(
            protocol::pinmodes_text(pins),
            1,
            pins.len() == 0,
            ","@,
        ) + ("{\"pin\":\""@ + text::decimal(pin.0 as nat) + "\",\"mode\":\""@ + text::decimal(
            pin.1 as nat,
        ) + "\"}"@) + "]"@,
{
    reveal_strlit("[");
    reveal_strlit("]");
    reveal_strlit("[]");
    assert("["@ + Seq::<char>::empty() + "]"@ =~= "[]"@);
    assert(protocol::pinmode_entries(Seq::empty()) =~= Seq::empty());
    let entries = protocol::pinmode_entries(pins);
    let entry = protocol::pinmode_entry(pin);
    assert(protocol::pinmode_entries(pins.push(pin)) =~= entries.push(entry));
    lemma_reopened("["@, entries, entry, ","@, "]"@);
}

/// `/pinmodes` is what fits of its array.
pub proof fn pinmodes_are_served(pins: &[(u8, u32)], r: FixedString<2048>)
    requires
        call_ensures(protocol::pinmodes_body, (pins,), r),
    ensures
        is_what_fits(r@, protocol::pinmodes_text(pins@), 2048),
{
    lemma_clip_is_what_fits(protocol::pinmodes_text(pins@), 2048);
}

/// A `gpio-state` payload is an empty object without changes, and each further change stands
/// behind the others: its GPIO number as the key, and its scaled value, raw value and type.
pub proof fn gpio_state_lists_every_change(
    changes: Seq<(u8, u32, u32, u8)>,
    change: (u8, u32, u32, u8),
)
    ensures
        protocol::gpio_state_text(Seq::empty()) == "{}"@,
        protocol::gpio_state_text(changes.push(change)) == reopened(
            protocol::gpio_state_text(changes),
            1,
            changes.len() == 0,
            ", "@,
        ) + ("\""@ + text::decimal(change.0 as nat) + "\": {\"s\": "@ + text::decimal(
            change.1 as nat,
        ) + ", \"v\": "@ + text::decimal(change.2 as nat) + ", \"t\": "@ + text::decimal(
            change.3 as nat,
        ) + "}"@) + "}"@,
{
    reveal_strlit("{");
    reveal_strlit("}");
    reveal_strlit("{}");
    assert("{"@ + Seq::<char>::empty() + "}"@ =~= "{}"@);
    assert(protocol::gpio_state_entries(Seq::empty()) =~= Seq::empty());
    let entries = protocol::gpio_state_entries(changes);
    let entry = protocol::gpio_state_entry(change);
    assert(protocol::gpio_state_entries(changes.push(change)) =~= entries.push(entry));
    lemma_reopened("{"@, entries, entry, ", "@, "}"@);
}

/// A `gpio-state` payload is what fits of its object.
pub proof fn gpio_states_are_served(changes: &[(u8, u32, u32, u8)], r: FixedString<2048>)
    requires
        call_ensures(protocol::gpio_state_body, (changes,), r),
    ensures
        is_what_fits(r@, protocol::gpio_state_text(changes@), 2048),
{
    lemma_clip_is_what_fits(protocol::gpio_state_text(changes@), 2048);
}

/// `/partition` is an empty array without partitions, and each further partition stands behind
/// the others, with its label, type and subtype, its address in hexadecimal and its size.
pub proof fn partitions_list_every_partition(
    partitions: Seq<PartitionInfo>,
    partition: PartitionInfo,
)
    ensures
        protocol::partition_text(Seq::empty()) == "[]"@,
        protocol::partition_text(partitions.push(partition)) == reopened(
            protocol::partition_text(partitions),
            1,
            partitions.len() == 0,
            ","@,
        ) + ("{\"label\":\""@ + partition.label@ + "\",\"type\":"@ + text::decimal(
            partition.ptype as nat,
        ) + ",\"subtype\":"@ + text::decimal(partition.subtype as nat) + ",\"address\":\"0x"@
            + text::hexadecimal(partition.address as nat) + "\",\"size\":"@ + text::decimal(
            partition.size as nat,
        ) + "}"@) + "]"@,
{
    reveal_strlit("[");
    reveal_strlit("]");
    reveal_strlit("[]");
    assert("["@ + Seq::<char>::empty() + "]"@ =~= "[]"@);
    assert(protocol::partition_entries(Seq::empty()) =~= Seq::empty());
    let entries = protocol::partition_entries(partitions);
    let entry = protocol::partition_entry(partition);
    assert(protocol::partition_entries(partitions.push(partition)) =~= entries.push(entry));
    lemma_reopened("["@, entries, entry, ","@, "]"@);
}

/// `/partition` is what fits of its array.
pub proof fn partitions_are_served(partitions: &[PartitionInfo], r: FixedString<2048>)
    requires
        call_ensures(protocol::partition_body, (partitions,), r),
    ensures
        is_what_fits(r@, protocol::partition_text(partitions@), 2048),
{
    lemma_clip_is_what_fits(protocol::partition_text(partitions@), 2048);
}

/// A group of `/pinfunctions` has its name and no pins to begin with, and each further pin stands
/// behind the others.
pub proof fn pin_functions_list_every_pin(name: Seq<char>, pins: Seq<u8>, pin: u8)
    ensures
        protocol::pin_function_group(name, Seq::empty()) == "{\"name\":\""@ + name
            + "\", \"functions\":[]}"@,
        protocol::pin_function_group(name, pins.push(pin)) == reopened(
            protocol::pin_function_group(name, pins),
            2,
            pins.len() == 0,
            ","@,
        ) + ("{\"function\":\""@ + name + "\",\"pin\":"@ + text::decimal(pin as nat) + "}"@) + "]}"@,
{
    reveal_strlit("\", \"functions\":[");
    reveal_strlit("]}");
    reveal_strlit("\", \"functions\":[]}");
    let opening = "{\"name\":\""@ + name + "\", \"functions\":["@;
    assert(protocol::pin_function_entries(name, Seq::empty()) =~= Seq::empty());
    assert(opening + Seq::<char>::empty() + "]}"@ =~= "{\"name\":\""@ + name
        + "\", \"functions\":[]}"@);
    let entries = protocol::pin_function_entries(name, pins);
    let entry = protocol::pin_function_entry(name, pin);
    assert(protocol::pin_function_entries(name, pins.push(pin)) =~= entries.push(entry));
    lemma_reopened(opening, entries, entry, ","@, "]}"@);
}

/// `/pinfunctions` is what fits of an object with the ADC pins in one group and the touch pins in
/// another.
pub proof fn pin_functions_are_served(adc_pins: &[u8], touch_pins: &[u8], r: FixedString<2048>)
    requires
        call_ensures(protocol::pinfunctions_body, (adc_pins, touch_pins), r),
    ensures
        is_what_fits(
            r@,
            "{\"boardpinsfunction\":["@ + protocol::pin_function_group("ADC"@, adc_pins@) + ","@
                + protocol::pin_function_group("Touch"@, touch_pins@) + "]}"@,
            2048,
        ),
{
    lemma_clip_is_what_fits(protocol::pinfunctions_text(adc_pins@, touch_pins@), 2048);
}

/// A key and a value as they stand in an object.
pub open spec fn named(key: Seq<char>, shown: Seq<char>) -> Seq<char> {
    seq!['"'] + key + seq!['"', ':'] + shown
}

/// A text in quotes.
pub open spec fn in_quotes(shown: Seq<char>) -> Seq<char> {
    seq!['"'] + shown + seq!['"']
}

/// Whether a field stands in an object, set off from the fields around it.
#[verifier::opaque]
pub open spec fn has_field(object: Seq<char>, field: Seq<char>) -> bool {
    exists|before: Seq<char>, after: Seq<char>|
        {
            &&& object == #[trigger] (before + field + after)
            &&& before.len() > 0 && (before.last() == '{' || before.last() == ',')
            &&& after.len() > 0 && (after[0] == ',' || after[0] == '}')
        }
}

/// Each of the joined fields stands in the object.
proof fn lemma_has_field(fields: Seq<Seq<char>>, at: int)
    requires
        0 <= at < fields.len(),
    ensures
        has_field("{"@ + text::joined(fields, ","@) + "}"@, fields[at]),
    decreases fields.len(),
{
    reveal(has_field);
    reveal_strlit("{");
    reveal_strlit(",");
    reveal_strlit("}");
    let object = "{"@ + text::joined(fields, ","@) + "}"@;
    let front = fields.drop_last();
    if at == fields.len() - 1 {
        let before = if fields.len() == 1 {
            "{"@
        } else {
            "{"@ + text::joined(front, ","@) + ","@
        };
        assert(object =~= before + fields[at] + "}"@);
    } else {
        lemma_has_field(front, at);
        let inner = "{"@ + text::joined(front, ","@) + "}"@;
        let (before, after) = choose|before: Seq<char>, after: Seq<char>|
            {
                &&& inner == #[trigger] (before + front[at] + after)
                &&& before.len() > 0 && (before.last() == '{' || before.last() == ',')
                &&& after.len() > 0 && (after[0] == ',' || after[0] == '}')
            };
        let rest = after.drop_last() + ","@ + fields.last() + "}"@;
        assert(inner.drop_last() =~= "{"@ + text::joined(front, ","@));
        assert(inner.drop_last() =~= before + front[at] + after.drop_last());
        assert(object =~= inner.drop_last() + ","@ + fields.last() + "}"@);
        assert(object =~= before + fields[at] + rest);
        assert(after.drop_last().len() > 0 ==> rest[0] == after[0]);
        assert(after.drop_last().len() == 0 ==> rest[0] == ',');
    }
}

/// Fields are a key and a value as they stand in an object.
proof fn lemma_named(key: Seq<char>, shown: Seq<char>)
    ensures
        protocol::raw_field(key, shown) == named(key, shown),
        protocol::quoted_field(key, shown) == named(key, in_quotes(shown)),
{
    reveal_strlit("\"");
    reveal_strlit("\":");
    assert("\""@ =~= seq!['"']);
    assert("\":"@ =~= seq!['"', ':']);
}

/// The fields of `/espinfo` that are always there begin its list of fields.
proof fn lemma_leading_field(info: EspInfo, at: int, key: Seq<char>, shown: Seq<char>)
    requires
        0 <= at < 24,
        protocol::espinfo_leading_fields(info).len() == 24,
        ({
            ||| protocol::espinfo_leading_fields(info)[at] == protocol::raw_field(key, shown)
            ||| protocol::espinfo_leading_fields(info)[at] == protocol::quoted_field(key, shown)
        }),
    ensures
        protocol::espinfo_leading_fields(info)[at] == protocol::raw_field(key, shown) ==> has_field(
            protocol::espinfo_text(info),
            named(key, shown),
        ),
        protocol::espinfo_leading_fields(info)[at] == protocol::quoted_field(key, shown)
            ==> has_field(protocol::espinfo_text(info), named(key, in_quotes(shown))),
{
    let fields = protocol::espinfo_fields(info);
    lemma_named(key, shown);
    assert(fields[at] == protocol::espinfo_leading_fields(info)[at]);
    lemma_has_field(fields, at);
}

/// Whether an object shows the values of a chip that are always known, each under its key.
pub open spec fn shows_leading_values(object: Seq<char>, info: EspInfo) -> bool {
    &&& has_field(object, named("chip_model"@, in_quotes(info.chip_model@)))
    &&& has_field(object, named("cores_count"@, in_quotes(text::decimal(info.cores_count as nat))))
    &&& has_field(
        object,
        named("chip_revision"@, in_quotes(text::decimal(info.chip_revision as nat))),
    )
    &&& has_field(
        object,
        named("cpu_frequency"@, in_quotes(text::decimal(info.cpu_frequency as nat))),
    )
    &&& has_field(object, named("cycle_count"@, text::decimal(info.cycle_count as nat)))
    &&& has_field(object, named("mac"@, in_quotes(text::decimal(info.mac as nat))))
    &&& has_field(object, named("flash_mode"@, in_quotes(info.flash_mode@)))
    &&& has_field(object, named("flash_chip_size"@, text::decimal(info.flash_chip_size as nat)))
    &&& has_field(object, named("flash_chip_speed"@, text::decimal(info.flash_chip_speed as nat)))
    &&& has_field(object, named("heap_size"@, text::decimal(info.heap_size as nat)))
    &&& has_field(object, named("heap_max_alloc"@, text::decimal(info.heap_max_alloc as nat)))
    &&& has_field(object, named("psram_size"@, text::decimal(info.psram_size as nat)))
    &&& has_field(object, named("free_psram"@, text::decimal(info.free_psram as nat)))
    &&& has_field(object, named("psram_max_alloc"@, text::decimal(info.psram_max_alloc as nat)))
    &&& has_field(object, named("free_heap"@, text::decimal(info.free_heap as nat)))
    &&& has_field(object, named("heap_free_8bit"@, text::decimal(info.heap_free_8bit as nat)))
    &&& has_field(object, named("heap_free_32bit"@, text::decimal(info.heap_free_32bit as nat)))
    &&& has_field(
        object,
        named("heap_largest_free_block"@, text::decimal(info.heap_largest_free_block as nat)),
    )
    &&& has_field(object, named("up_time"@, in_quotes(text::decimal(info.up_time as nat))))
    &&& has_field(object, named("uptime_us"@, text::decimal(info.uptime_us as nat)))
    &&& has_field(object, named("sketch_size"@, text::decimal(info.sketch_size as nat)))
    &&& has_field(object, named("free_sketch"@, text::decimal(info.free_sketch as nat)))
    &&& has_field(object, named("arduino_core_version"@, in_quotes(info.arduino_core_version@)))
    &&& has_field(object, named("sdk_version"@, in_quotes(info.sdk_version@)))
}

/// `/espinfo` shows the values of the chip that are always known, each under its key.
pub proof fn espinfo_shows_its_leading_values(info: EspInfo)
    ensures
        shows_leading_values(protocol::espinfo_text(info), info),
{
    lemma_leading_field(info, 0, "chip_model"@, info.chip_model@);
    lemma_leading_field(info, 1, "cores_count"@, text::decimal(info.cores_count as nat));
    lemma_leading_field(info, 2, "chip_revision"@, text::decimal(info.chip_revision as nat));
    lemma_leading_field(info, 3, "cpu_frequency"@, text::decimal(info.cpu_frequency as nat));
    lemma_leading_field(info, 4, "cycle_count"@, text::decimal(info.cycle_count as nat));
    lemma_leading_field(info, 5, "mac"@, text::decimal(info.mac as nat));
    lemma_leading_field(info, 6, "flash_mode"@, info.flash_mode@);
    lemma_leading_field(info, 7, "flash_chip_size"@, text::decimal(info.flash_chip_size as nat));
    lemma_leading_field(info, 8, "flash_chip_speed"@, text::decimal(info.flash_chip_speed as nat));
    lemma_leading_field(info, 9, "heap_size"@, text::decimal(info.heap_size as nat));
    lemma_leading_field(info, 10, "heap_max_alloc"@, text::decimal(info.heap_max_alloc as nat));
    lemma_leading_field(info, 11, "psram_size"@, text::decimal(info.psram_size as nat));
    lemma_leading_field(info, 12, "free_psram"@, text::decimal(info.free_psram as nat));
    lemma_leading_field(info, 13, "psram_max_alloc"@, text::decimal(info.psram_max_alloc as nat));
    lemma_leading_field(info, 14, "free_heap"@, text::decimal(info.free_heap as nat));
    lemma_leading_field(info, 15, "heap_free_8bit"@, text::decimal(info.heap_free_8bit as nat));
    lemma_leading_field(info, 16, "heap_free_32bit"@, text::decimal(info.heap_free_32bit as nat));
    lemma_leading_field(
        info,
        17,
        "heap_largest_free_block"@,
        text::decimal(info.heap_largest_free_block as nat),
    );
    lemma_leading_field(info, 18, "up_time"@, text::decimal(info.up_time as nat));
    lemma_leading_field(info, 19, "uptime_us"@, text::decimal(info.uptime_us as nat));
    lemma_leading_field(info, 20, "sketch_size"@, text::decimal(info.sketch_size as nat));
    lemma_leading_field(info, 21, "free_sketch"@, text::decimal(info.free_sketch as nat));
    lemma_leading_field(info, 22, "arduino_core_version"@, info.arduino_core_version@);
    lemma_leading_field(info, 23, "sdk_version"@, info.sdk_version@);
}

/// The array of some names, each in quotes, is empty without names, and each further name stands
/// behind the others.
pub proof fn features_list_every_name(names: Seq<&str>, name: &str)
    ensures
        protocol::feature_array(Seq::empty()) == "[]"@,
        protocol::feature_array(names.push(name)) == reopened(
            protocol::feature_array(names),
            1,
            names.len() == 0,
            ","@,
        ) + in_quotes(name@) + "]"@,
{
    reveal_strlit("[");
    reveal_strlit("]");
    reveal_strlit("[]");
    reveal_strlit("\"");
    assert("\""@ =~= seq!['"']);
    assert("["@ + Seq::<char>::empty() + "]"@ =~= "[]"@);
    assert(protocol::feature_entries(Seq::empty()) =~= Seq::empty());
    let entries = protocol::feature_entries(names);
    let entry = protocol::quoted(name@);
    assert(protocol::feature_entries(names.push(name)) =~= entries.push(entry));
    lemma_reopened("["@, entries, entry, ","@, "]"@);
}

/// Whether an object shows the remaining values of a chip: the optional ones if they are there and
/// not empty, the features, and the last reset.
pub open spec fn shows_trailing_values(object: Seq<char>, info: EspInfo) -> bool {
    &&& info.idf_version matches Some(value) ==> value@.len() > 0 ==> has_field(
        object,
        named("idf_version"@, in_quotes(value@)),
    )
    &&& info.sketch_md5 matches Some(value) ==> value@.len() > 0 ==> has_field(
        object,
        named("sketch_md5"@, in_quotes(value@)),
    )
    &&& has_field(
        object,
        named("chip_features"@, protocol::feature_array(info.chip_features@)),
    )
    &&& has_field(
        object,
        named("reset_reason_code"@, text::signed_decimal(info.reset_reason_code as int)),
    )
    &&& has_field(object, named("reset_reason"@, in_quotes(info.reset_reason@)))
    &&& info.temperature_c matches Some(value) ==> value@.len() > 0 ==> has_field(
        object,
        named("temperature_c"@, text::clip(value@, 16)),
    )
}

/// `/espinfo` shows the remaining values of the chip, each under its key.
pub proof fn espinfo_shows_its_trailing_values(info: EspInfo)
    ensures
        shows_trailing_values(protocol::espinfo_text(info), info),
{
    let fields = protocol::espinfo_fields(info);
    let leading = protocol::espinfo_leading_fields(info).len() as int;
    let idf = protocol::optional_field("idf_version"@, info.idf_version).len() as int;
    let md5 = protocol::optional_field("sketch_md5"@, info.sketch_md5).len() as int;
    let features = protocol::feature_array(info.chip_features@);
    let code = text::signed_decimal(info.reset_reason_code as int);
    let at = leading + idf + md5;
    lemma_named("chip_features"@, features);
    lemma_named("reset_reason_code"@, code);
    lemma_named("reset_reason"@, info.reset_reason@);
    assert(fields[at] == protocol::raw_field("chip_features"@, features));
    lemma_has_field(fields, at);
    assert(fields[at + 1] == protocol::raw_field("reset_reason_code"@, code));
    lemma_has_field(fields, at + 1);
    assert(fields[at + 2] == protocol::quoted_field("reset_reason"@, info.reset_reason@));
    lemma_has_field(fields, at + 2);
    if let Some(value) = info.idf_version {
        if value@.len() > 0 {
            lemma_named("idf_version"@, value@);
            assert(fields[leading] == protocol::quoted_field("idf_version"@, value@));
            lemma_has_field(fields, leading);
        }
    }
    if let Some(value) = info.sketch_md5 {
        if value@.len() > 0 {
            lemma_named("sketch_md5"@, value@);
            assert(fields[leading + idf] == protocol::quoted_field("sketch_md5"@, value@));
            lemma_has_field(fields, leading + idf);
        }
    }
    if let Some(value) = info.temperature_c {
        if value@.len() > 0 {
            let shown = text::clip(value@, 16);
            lemma_named("temperature_c"@, shown);
            assert(fields[at + 3] == protocol::raw_field("temperature_c"@, shown));
            lemma_has_field(fields, at + 3);
        }
    }
}

/// Whether an object is another with one field more, set off by a comma from the one before it.
pub open spec fn has_one_more(object: Seq<char>, field: Seq<char>, other: Seq<char>) -> bool {
    exists|at: int|
        {
            &&& 0 <= at < other.len()
            &&& other[at] == ',' || other[at] == '}'
            &&& object == #[trigger] other.take(at) + seq![','] + field + other.skip(at)
        }
}

/// One more item among joined ones stands between separators.
proof fn lemma_joined_insert(front: Seq<Seq<char>>, item: Seq<char>, back: Seq<Seq<char>>) -> (tail:
    Seq<char>)
    requires
        front.len() > 0,
    ensures
        tail.len() > 0 ==> tail[0] == ',',
        text::joined(front + back, ","@) == text::joined(front, ","@) + tail,
        text::joined(front.push(item) + back, ","@) == text::joined(front, ","@) + ","@ + item
            + tail,
    decreases back.len(),
{
    reveal_strlit(",");
    if back.len() == 0 {
        text::lemma_joined_push(front, item, ","@);
        assert(front + back =~= front);
        assert(front.push(item) + back =~= front.push(item));
        let tail = Seq::<char>::empty();
        assert(text::joined(front, ","@) + tail =~= text::joined(front, ","@));
        assert(text::joined(front, ","@) + ","@ + item + tail =~= text::joined(front, ","@) + ","@
            + item);
        tail
    } else {
        let rest = back.drop_last();
        let inner = lemma_joined_insert(front, item, rest);
        assert(front + back =~= (front + rest).push(back.last()));
        assert(front.push(item) + back =~= (front.push(item) + rest).push(back.last()));
        text::lemma_joined_push(front + rest, back.last(), ","@);
        text::lemma_joined_push(front.push(item) + rest, back.last(), ","@);
        let tail = inner + ","@ + back.last();
        assert(text::joined(front, ","@) + inner + ","@ + back.last() =~= text::joined(front, ","@)
            + tail);
        assert(text::joined(front, ","@) + ","@ + item + inner + ","@ + back.last()
            =~= text::joined(front, ","@) + ","@ + item + tail);
        tail
    }
}

/// An object with one more field among others has one more.
proof fn lemma_one_more(front: Seq<Seq<char>>, field: Seq<char>, back: Seq<Seq<char>>)
    requires
        front.len() > 0,
    ensures
        has_one_more(
            "{"@ + text::joined(front.push(field) + back, ","@) + "}"@,
            field,
            "{"@ + text::joined(front + back, ","@) + "}"@,
        ),
{
    reveal_strlit("{");
    reveal_strlit(",");
    reveal_strlit("}");
    let tail = lemma_joined_insert(front, field, back);
    let object = "{"@ + text::joined(front.push(field) + back, ","@) + "}"@;
    let other = "{"@ + text::joined(front + back, ","@) + "}"@;
    let before = "{"@ + text::joined(front, ","@);
    let at = before.len() as int;
    assert(other =~= before + (tail + "}"@));
    assert(other.take(at) =~= before);
    assert(other.skip(at) =~= tail + "}"@);
    assert(","@ =~= seq![',']);
    assert(object =~= other.take(at) + seq![','] + field + other.skip(at));
}

/// An optional value that is there and not empty adds its field to `/espinfo`, and nothing else.
/// One that is absent or empty adds nothing.
pub proof fn optional_values_add_one_field(info: EspInfo, value: &str)
    ensures
        ({
            let bare = EspInfo { idf_version: None, ..info };
            let full = EspInfo { idf_version: Some(value), ..info };
            if value@.len() > 0 {
                has_one_more(
                    protocol::espinfo_text(full),
                    named("idf_version"@, in_quotes(value@)),
                    protocol::espinfo_text(bare),
                )
            } else {
                protocol::espinfo_text(full) == protocol::espinfo_text(bare)
            }
        }),
        ({
            let bare = EspInfo { sketch_md5: None, ..info };
            let full = EspInfo { sketch_md5: Some(value), ..info };
            if value@.len() > 0 {
                has_one_more(
                    protocol::espinfo_text(full),
                    named("sketch_md5"@, in_quotes(value@)),
                    protocol::espinfo_text(bare),
                )
            } else {
                protocol::espinfo_text(full) == protocol::espinfo_text(bare)
            }
        }),
        ({
            let bare = EspInfo { temperature_c: None, ..info };
            let full = EspInfo { temperature_c: Some(value), ..info };
            if value@.len() > 0 {
                has_one_more(
                    protocol::espinfo_text(full),
                    named("temperature_c"@, text::clip(value@, 16)),
                    protocol::espinfo_text(bare),
                )
            } else {
                protocol::espinfo_text(full) == protocol::espinfo_text(bare)
            }
        }),
{
    let leading = protocol::espinfo_leading_fields(info);
    let idf = protocol::optional_field("idf_version"@, info.idf_version);
    let md5 = protocol::optional_field("sketch_md5"@, info.sketch_md5);
    let last = seq![
        protocol::raw_field("chip_features"@, protocol::feature_array(info.chip_features@)),
        protocol::raw_field(
            "reset_reason_code"@,
            text::signed_decimal(info.reset_reason_code as int),
        ),
        protocol::quoted_field("reset_reason"@, info.reset_reason@),
    ];
    let temperature = protocol::temperature_field(info.temperature_c);
    let bare_idf = EspInfo { idf_version: None, ..info };
    let full_idf = EspInfo { idf_version: Some(value), ..info };
    let bare_md5 = EspInfo { sketch_md5: None, ..info };
    let full_md5 = EspInfo { sketch_md5: Some(value), ..info };
    let bare_temperature = EspInfo { temperature_c: None, ..info };
    let full_temperature = EspInfo { temperature_c: Some(value), ..info };
    assert(protocol::espinfo_fields(bare_idf) =~= leading + (md5 + last + temperature));
    assert(protocol::espinfo_fields(bare_md5) =~= (leading + idf) + (last + temperature));
    assert(protocol::espinfo_fields(bare_temperature) =~= (leading + idf + md5 + last) + seq![]);
    if value@.len() > 0 {
        lemma_named("idf_version"@, value@);
        lemma_named("sketch_md5"@, value@);
        lemma_named("temperature_c"@, text::clip(value@, 16));
        let idf_field = named("idf_version"@, in_quotes(value@));
        let md5_field = named("sketch_md5"@, in_quotes(value@));
        let temperature_field = named("temperature_c"@, text::clip(value@, 16));
        assert(protocol::espinfo_fields(full_idf) =~= leading.push(idf_field) + (md5 + last
            + temperature));
        assert(protocol::espinfo_fields(full_md5) =~= (leading + idf).push(md5_field) + (last
            + temperature));
        assert(protocol::espinfo_fields(full_temperature) =~= (leading + idf + md5 + last).push(
            temperature_field,
        ) + seq![]);
        lemma_one_more(leading, idf_field, md5 + last + temperature);
        lemma_one_more(leading + idf, md5_field, last + temperature);
        lemma_one_more(leading + idf + md5 + last, temperature_field, seq![]);
    } else {
        assert(protocol::espinfo_fields(full_idf) =~= protocol::espinfo_fields(bare_idf));
        assert(protocol::espinfo_fields(full_md5) =~= protocol::espinfo_fields(bare_md5));
        assert(protocol::espinfo_fields(full_temperature) =~= protocol::espinfo_fields(
            bare_temperature,
        ));
    }
}

/// An object with one more field behind the others.
pub open spec fn with_field(object: Seq<char>, field: Seq<char>) -> Seq<char> {
    if object.len() == 2 {
        seq!['{'] + field + seq!['}']
    } else {
        object.drop_last() + seq![','] + field + seq!['}']
    }
}

/// An object with a text under a key behind the others, unless the text is absent or empty.
pub open spec fn with_optional(object: Seq<char>, key: Seq<char>, value: Option<&str>) -> Seq<
    char,
> {
    match value {
        Some(value) => if value@.len() > 0 {
            with_field(object, named(key, in_quotes(value@)))
        } else {
            object
        },
        None => object,
    }
}

/// The object of the values that are always known, in their order.
#[verifier::opaque]
pub open spec fn leading_values(info: EspInfo) -> Seq<char> {
    let object = seq!['{', '}'];
    let object = with_field(object, named("chip_model"@, in_quotes(info.chip_model@)));
    let object = with_field(
        object,
        named("cores_count"@, in_quotes(text::decimal(info.cores_count as nat))),
    );
    let object = with_field(
        object,
        named("chip_revision"@, in_quotes(text::decimal(info.chip_revision as nat))),
    );
    let object = with_field(
        object,
        named("cpu_frequency"@, in_quotes(text::decimal(info.cpu_frequency as nat))),
    );
    let object = with_field(object, named("cycle_count"@, text::decimal(info.cycle_count as nat)));
    let object = with_field(object, named("mac"@, in_quotes(text::decimal(info.mac as nat))));
    let object = with_field(object, named("flash_mode"@, in_quotes(info.flash_mode@)));
    let object = with_field(
        object,
        named("flash_chip_size"@, text::decimal(info.flash_chip_size as nat)),
    );
    let object = with_field(
        object,
        named("flash_chip_speed"@, text::decimal(info.flash_chip_speed as nat)),
    );
    let object = with_field(object, named("heap_size"@, text::decimal(info.heap_size as nat)));
    let object = with_field(
        object,
        named("heap_max_alloc"@, text::decimal(info.heap_max_alloc as nat)),
    );
    let object = with_field(object, named("psram_size"@, text::decimal(info.psram_size as nat)));
    let object = with_field(object, named("free_psram"@, text::decimal(info.free_psram as nat)));
    let object = with_field(
        object,
        named("psram_max_alloc"@, text::decimal(info.psram_max_alloc as nat)),
    );
    let object = with_field(object, named("free_heap"@, text::decimal(info.free_heap as nat)));
    let object = with_field(
        object,
        named("heap_free_8bit"@, text::decimal(info.heap_free_8bit as nat)),
    );
    let object = with_field(
        object,
        named("heap_free_32bit"@, text::decimal(info.heap_free_32bit as nat)),
    );
    let object = with_field(
        object,
        named("heap_largest_free_block"@, text::decimal(info.heap_largest_free_block as nat)),
    );
    let object = with_field(
        object,
        named("up_time"@, in_quotes(text::decimal(info.up_time as nat))),
    );
    let object = with_field(object, named("uptime_us"@, text::decimal(info.uptime_us as nat)));
    let object = with_field(object, named("sketch_size"@, text::decimal(info.sketch_size as nat)));
    let object = with_field(object, named("free_sketch"@, text::decimal(info.free_sketch as nat)));
    let object = with_field(
        object,
        named("arduino_core_version"@, in_quotes(info.arduino_core_version@)),
    );
    let object = with_field(object, named("sdk_version"@, in_quotes(info.sdk_version@)));
    object
}

/// An object with the remaining values behind the others, in their order.
pub open spec fn with_trailing_values(object: Seq<char>, info: EspInfo) -> Seq<char> {
    let object = with_optional(object, "idf_version"@, info.idf_version);
    let object = with_optional(object, "sketch_md5"@, info.sketch_md5);
    let object = with_field(
        object,
        named("chip_features"@, protocol::feature_array(info.chip_features@)),
    );
    let object = with_field(
        object,
        named("reset_reason_code"@, text::signed_decimal(info.reset_reason_code as int)),
    );
    let object = with_field(object, named("reset_reason"@, in_quotes(info.reset_reason@)));
    match info.temperature_c {
        Some(value) => if value@.len() > 0 {
            with_field(object, named("temperature_c"@, text::clip(value@, 16)))
        } else {
            object
        },
        None => object,
    }
}

/// The object of all values, in their order.
pub open spec fn all_values(info: EspInfo) -> Seq<char> {
    with_trailing_values(leading_values(info), info)
}

/// One more field behind joined ones is one more behind the object.
proof fn lemma_with_field(fields: Seq<Seq<char>>, field: Seq<char>)
    requires
        fields.len() > 0 ==> fields[0].len() > 0,
    ensures
        with_field("{"@ + text::joined(fields, ","@) + "}"@, field) == "{"@ + text::joined(
            fields.push(field),
            ","@,
        ) + "}"@,
{
    reveal_strlit("{");
    reveal_strlit(",");
    reveal_strlit("}");
    let object = "{"@ + text::joined(fields, ","@) + "}"@;
    text::lemma_joined_push(fields, field, ","@);
    assert("{"@ =~= seq!['{']);
    assert("}"@ =~= seq!['}']);
    assert(","@ =~= seq![',']);
    if fields.len() > 0 {
        lemma_joined_begins(fields);
        assert(object.drop_last() =~= "{"@ + text::joined(fields, ","@));
        assert(with_field(object, field) =~= "{"@ + (text::joined(fields, ","@) + ","@ + field)
            + "}"@);
    }
}

/// Joined items take at least the characters of the first.
proof fn lemma_joined_begins(fields: Seq<Seq<char>>)
    requires
        fields.len() > 0,
    ensures
        text::joined(fields, ","@).len() >= fields[0].len(),
    decreases fields.len(),
{
    if fields.len() > 1 {
        lemma_joined_begins(fields.drop_last());
    }
}

/// The remaining fields behind some others are the remaining values behind the object.
proof fn lemma_trailing_values(leading: Seq<Seq<char>>, info: EspInfo)
    requires
        leading.len() > 0,
        leading[0].len() > 0,
    ensures
        "{"@ + text::joined(
            leading + protocol::optional_field("idf_version"@, info.idf_version)
                + protocol::optional_field("sketch_md5"@, info.sketch_md5) + seq![
                protocol::raw_field("chip_features"@, protocol::feature_array(info.chip_features@)),
                protocol::raw_field(
                    "reset_reason_code"@,
                    text::signed_decimal(info.reset_reason_code as int),
                ),
                protocol::quoted_field("reset_reason"@, info.reset_reason@),
            ] + protocol::temperature_field(info.temperature_c),
            ","@,
        ) + "}"@ == with_trailing_values("{"@ + text::joined(leading, ","@) + "}"@, info),
{
    let idf = protocol::optional_field("idf_version"@, info.idf_version);
    let md5 = protocol::optional_field("sketch_md5"@, info.sketch_md5);
    lemma_with_optional(leading, "idf_version"@, info.idf_version);
    lemma_with_optional(leading + idf, "sketch_md5"@, info.sketch_md5);
    let front = leading + idf + md5;
    let features = protocol::feature_array(info.chip_features@);
    let code = text::signed_decimal(info.reset_reason_code as int);
    lemma_named("chip_features"@, features);
    lemma_named("reset_reason_code"@, code);
    lemma_named("reset_reason"@, info.reset_reason@);
    let a = front.push(named("chip_features"@, features));
    let b = a.push(named("reset_reason_code"@, code));
    let c = b.push(named("reset_reason"@, in_quotes(info.reset_reason@)));
    lemma_with_field(front, named("chip_features"@, features));
    lemma_with_field(a, named("reset_reason_code"@, code));
    lemma_with_field(b, named("reset_reason"@, in_quotes(info.reset_reason@)));
    let last = seq![
        protocol::raw_field("chip_features"@, features),
        protocol::raw_field("reset_reason_code"@, code),
        protocol::quoted_field("reset_reason"@, info.reset_reason@),
    ];
    assert(front + last =~= c);
    let temperature = protocol::temperature_field(info.temperature_c);
    match info.temperature_c {
        Some(value) => {
            if value@.len() > 0 {
                let shown = text::clip(value@, 16);
                lemma_named("temperature_c"@, shown);
                lemma_with_field(c, named("temperature_c"@, shown));
                assert(c + temperature =~= c.push(named("temperature_c"@, shown)));
            } else {
                assert(c + temperature =~= c);
            }
        },
        None => {
            assert(c + temperature =~= c);
        },
    }
}

/// The text of `/espinfo` is the object of all values, in their order, and nothing else.
pub proof fn espinfo_is_all_values(info: EspInfo)
    ensures
        protocol::espinfo_text(info) == all_values(info),
{
    lemma_leading_values(info);
    lemma_trailing_values(protocol::espinfo_leading_fields(info), info);
}

/// An optional field behind joined ones is one behind the object, if it is there.
proof fn lemma_with_optional(fields: Seq<Seq<char>>, key: Seq<char>, value: Option<&str>)
    requires
        fields.len() > 0,
        fields[0].len() > 0,
    ensures
        with_optional("{"@ + text::joined(fields, ","@) + "}"@, key, value) == "{"@ + text::joined(
            fields + protocol::optional_field(key, value),
            ","@,
        ) + "}"@,
{
    let optional = protocol::optional_field(key, value);
    match value {
        Some(value) => {
            lemma_named(key, value@);
            lemma_with_field(fields, named(key, in_quotes(value@)));
            if value@.len() > 0 {
                assert(fields + optional =~= fields.push(named(key, in_quotes(value@))));
            } else {
                assert(fields + optional =~= fields);
            }
        },
        None => {
            assert(fields + optional =~= fields);
        },
    }
}

/// One more of the fields that are always there is one more behind the object.
proof fn lemma_leading_step(info: EspInfo, at: int)
    requires
        0 <= at < protocol::espinfo_leading_fields(info).len(),
        protocol::espinfo_leading_fields(info)[0].len() > 0,
    ensures
        with_field(
            "{"@ + text::joined(protocol::espinfo_leading_fields(info).take(at), ","@) + "}"@,
            protocol::espinfo_leading_fields(info)[at],
        ) == "{"@ + text::joined(protocol::espinfo_leading_fields(info).take(at + 1), ","@)
            + "}"@,
{
    let leading = protocol::espinfo_leading_fields(info);
    assert(leading.take(at + 1) =~= leading.take(at).push(leading[at]));
    lemma_with_field(leading.take(at), leading[at]);
}

/// The fields that are always there are the object of the values that are always known.
#[verifier::rlimit(50)]
proof fn lemma_leading_values(info: EspInfo)
    ensures
        "{"@ + text::joined(protocol::espinfo_leading_fields(info), ","@) + "}"@ == leading_values(
            info,
        ),
        protocol::espinfo_leading_fields(info).len() == 24,
        protocol::espinfo_leading_fields(info)[0].len() > 0,
{
    reveal(leading_values);
    reveal_strlit("{");
    reveal_strlit("}");
    let leading = protocol::espinfo_leading_fields(info);
    assert("{"@ + text::joined(leading.take(0), ","@) + "}"@ =~= seq!['{', '}']);
    lemma_named("chip_model"@, info.chip_model@);
    lemma_leading_step(info, 0);
    lemma_named("cores_count"@, text::decimal(info.cores_count as nat));
    lemma_leading_step(info, 1);
    lemma_named("chip_revision"@, text::decimal(info.chip_revision as nat));
    lemma_leading_step(info, 2);
    lemma_named("cpu_frequency"@, text::decimal(info.cpu_frequency as nat));
    lemma_leading_step(info, 3);
    lemma_named("cycle_count"@, text::decimal(info.cycle_count as nat));
    lemma_leading_step(info, 4);
    lemma_named("mac"@, text::decimal(info.mac as nat));
    lemma_leading_step(info, 5);
    lemma_named("flash_mode"@, info.flash_mode@);
    lemma_leading_step(info, 6);
    lemma_named("flash_chip_size"@, text::decimal(info.flash_chip_size as nat));
    lemma_leading_step(info, 7);
    lemma_named("flash_chip_speed"@, text::decimal(info.flash_chip_speed as nat));
    lemma_leading_step(info, 8);
    lemma_named("heap_size"@, text::decimal(info.heap_size as nat));
    lemma_leading_step(info, 9);
    lemma_named("heap_max_alloc"@, text::decimal(info.heap_max_alloc as nat));
    lemma_leading_step(info, 10);
    lemma_named("psram_size"@, text::decimal(info.psram_size as nat));
    lemma_leading_step(info, 11);
    lemma_named("free_psram"@, text::decimal(info.free_psram as nat));
    lemma_leading_step(info, 12);
    lemma_named("psram_max_alloc"@, text::decimal(info.psram_max_alloc as nat));
    lemma_leading_step(info, 13);
    lemma_named("free_heap"@, text::decimal(info.free_heap as nat));
    lemma_leading_step(info, 14);
    lemma_named("heap_free_8bit"@, text::decimal(info.heap_free_8bit as nat));
    lemma_leading_step(info, 15);
    lemma_named("heap_free_32bit"@, text::decimal(info.heap_free_32bit as nat));
    lemma_leading_step(info, 16);
    lemma_named("heap_largest_free_block"@, text::decimal(info.heap_largest_free_block as nat));
    lemma_leading_step(info, 17);
    lemma_named("up_time"@, text::decimal(info.up_time as nat));
    lemma_leading_step(info, 18);
    lemma_named("uptime_us"@, text::decimal(info.uptime_us as nat));
    lemma_leading_step(info, 19);
    lemma_named("sketch_size"@, text::decimal(info.sketch_size as nat));
    lemma_leading_step(info, 20);
    lemma_named("free_sketch"@, text::decimal(info.free_sketch as nat));
    lemma_leading_step(info, 21);
    lemma_named("arduino_core_version"@, info.arduino_core_version@);
    lemma_leading_step(info, 22);
    lemma_named("sdk_version"@, info.sdk_version@);
    lemma_leading_step(info, 23);
    assert(leading.take(24) =~= leading);
}

/// `/espinfo` is what fits of an object that shows its values.
pub proof fn espinfo_is_served(info: &EspInfo, r: FixedString<2048>)
    requires
        call_ensures(protocol::espinfo_body, (info,), r),
    ensures
        is_what_fits(r@, all_values(*info), 2048),
        shows_leading_values(protocol::espinfo_text(*info), *info),
        shows_trailing_values(protocol::espinfo_text(*info), *info),
{
    lemma_clip_is_what_fits(protocol::espinfo_text(*info), 2048);
    espinfo_is_all_values(*info);
    espinfo_shows_its_leading_values(*info);
    espinfo_shows_its_trailing_values(*info);
}

} // verus!
