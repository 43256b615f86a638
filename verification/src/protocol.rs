//! The bodies served over HTTP and the payloads sent as Server-Sent Events.
//!
//! Each body is stated as a text of unlimited length. The function that builds it returns that
//! text, clipped to the capacity of its buffer: a text that is too long loses its end and nothing
//! panics.

use crate::fixed::FixedString;
use crate::text;
use crate::writer::BodyWriter;
use vstd::prelude::*;

verus! {

/// Whether `/free_psram` is served in its malformed shape, which closes the JSON object before
/// the value. A page cannot parse that, so it is off.
pub const FREE_PSRAM_REPRO_BUG: bool = false;

/// Where the hosted page and its assets live.
pub const BASE_URL: &'static str =
    "https://thelastoutpostworkshop.github.io/microcontroller_devkit/gpio_viewer_1_5/";

/// The page served at `/`.
pub open spec fn index_page(ip: Seq<char>, port: nat, free_sketch_ram: Seq<char>) -> Seq<char> {
    "<!DOCTYPE html><html lang='en'><head><meta charset='UTF-8'>"@ + "<base href ='"@ + BASE_URL@
        + "'>"@
        + "<link rel='icon' href='favicon.ico'><meta name='viewport' content='width=device-width, initial-scale=1.0'><title>GPIOViewer</title>"@
        + "<script type='module' crossorigin src='GPIOViewerVue.js'></script>"@
        + "<link rel='stylesheet' crossorigin href='assets/main.css'></head><body><div id='app'></div>"@
        + "<script>window.gpio_settings = {ip:'"@ + ip + "',port:'"@ + text::decimal(port)
        + "',freeSketchRam:'"@ + free_sketch_ram + "'};</script>"@ + "</body></html>"@
}

/// `GET /`: the page that boots the hosted user interface.
///
/// `ip` is the address of the device, `port` its HTTP port and `free_sketch_ram` the formatted
/// free-sketch-RAM figure; all three are inserted as they are.
pub fn index_html(ip: &str, port: u16, free_sketch_ram: &str) -> (r: FixedString<1024>)
    ensures
        r@ == text::clip(index_page(ip@, port as nat, free_sketch_ram@), 1024),
{
    let mut out = BodyWriter::new();
    out.put("<!DOCTYPE html><html lang='en'><head><meta charset='UTF-8'>");
    assert(out.written() =~= "<!DOCTYPE html><html lang='en'><head><meta charset='UTF-8'>"@);
    // The space before `=` is part of the page.
    out.put("<base href ='");
    out.put(BASE_URL);
    out.put("'>");
    out.put(
        "<link rel='icon' href='favicon.ico'><meta name='viewport' content='width=device-width, initial-scale=1.0'><title>GPIOViewer</title>",
    );
    out.put("<script type='module' crossorigin src='GPIOViewerVue.js'></script>");
    out.put(
        "<link rel='stylesheet' crossorigin href='assets/main.css'></head><body><div id='app'></div>",
    );
    out.put("<script>window.gpio_settings = {ip:'");
    out.put(ip);
    out.put("',port:'");
    out.put_decimal(port as u64);
    out.put("',freeSketchRam:'");
    out.put(free_sketch_ram);
    out.put("'};</script>");
    out.put("</body></html>");
    out.finish()
}

/// The object served at `/release`.
pub open spec fn release_text(release: Seq<char>) -> Seq<char> {
    "{\"release\": \""@ + release + "\"}"@
}

/// `GET /release`: `{"release": "<version>"}`.
pub fn release_body(release: &str) -> (r: FixedString<64>)
    ensures
        r@ == text::clip(release_text(release@), 64),
{
    let mut out = BodyWriter::new();
    out.put("{\"release\": \"");
    assert(out.written() =~= "{\"release\": \""@);
    out.put(release);
    out.put("\"}");
    out.finish()
}

/// The object served at `/sampling`.
pub open spec fn sampling_text(sampling_ms: nat) -> Seq<char> {
    "{\"sampling\": \""@ + text::decimal(sampling_ms) + "\"}"@
}

/// The object served at `/sampling` fits into its buffer.
pub proof fn lemma_sampling_text_len(sampling_ms: nat)
    requires
        sampling_ms <= u32::MAX,
    ensures
        text::utf8_len(sampling_text(sampling_ms)) <= 64,
{
    let number = text::decimal(sampling_ms);
    reveal_strlit("{\"sampling\": \"");
    reveal_strlit("\"}");
    reveal_with_fuel(text::power_of_ten, 11);
    text::lemma_decimal_len(sampling_ms, 10);
    text::lemma_utf8_len_concat("{\"sampling\": \""@, number);
    text::lemma_utf8_len_concat("{\"sampling\": \""@ + number, "\"}"@);
    text::lemma_utf8_len_ascii("{\"sampling\": \""@);
    text::lemma_utf8_len_ascii("\"}"@);
}

/// `GET /sampling`: `{"sampling": "<ms>"}`.
pub fn sampling_body(sampling_ms: u32) -> (r: FixedString<64>)
    ensures
        r@ == sampling_text(sampling_ms as nat),
{
    proof {
        lemma_sampling_text_len(sampling_ms as nat);
    }
    let mut out = BodyWriter::new();
    out.put("{\"sampling\": \"");
    assert(out.written() =~= "{\"sampling\": \""@);
    out.put_decimal(sampling_ms as u64);
    out.put("\"}");
    out.finish()
}

/// `numerator / divisor` in hundredths, rounded to the nearest, halves upward.
pub open spec fn rounded_hundredths(numerator: nat, divisor: nat) -> nat
    recommends
        divisor > 0,
{
    (numerator * 100 + divisor / 2) / divisor
}

/// A number of hundredths with its two decimals.
pub open spec fn hundredths_text(hundredths: nat) -> Seq<char> {
    text::decimal(hundredths / 100) + "."@ + text::two_digits(hundredths % 100)
}

/// A number of bytes in the unit that suits it.
pub open spec fn bytes_text(bytes: nat) -> Seq<char> {
    if bytes < 1024 {
        text::decimal(bytes) + " B"@
    } else if bytes < 1024 * 1024 {
        hundredths_text(rounded_hundredths(bytes, 1024)) + " KB"@
    } else {
        hundredths_text(rounded_hundredths(bytes, 1024 * 1024)) + " MB"@
    }
}

/// The whole part and the two decimals of `numerator / divisor`, rounded to the nearest
/// hundredth, halves upward.
pub fn to_two_decimals(numerator: u64, divisor: u64) -> (r: (u64, u64))
    requires
        divisor > 0,
        numerator * 100 + divisor / 2 <= u64::MAX,
    ensures
        r.0 == rounded_hundredths(numerator as nat, divisor as nat) / 100,
        r.1 == rounded_hundredths(numerator as nat, divisor as nat) % 100,
{
    let hundredths: u64 = (numerator * 100 + divisor / 2) / divisor;
    (hundredths / 100, hundredths % 100)
}

/// The rounded value is never further from the exact one than half a hundredth.
pub proof fn rounding_is_to_the_nearest(numerator: nat, divisor: nat)
    requires
        divisor > 0,
    ensures
        -divisor <= 2 * (numerator * 100 - rounded_hundredths(numerator, divisor) * divisor)
            <= divisor,
{
    let shifted = numerator * 100 + divisor / 2;
    let quotient = shifted / divisor;
    vstd::arithmetic::div_mod::lemma_fundamental_div_mod(shifted as int, divisor as int);
    assert(divisor * quotient == quotient * divisor) by (nonlinear_arith);
}

/// A formatted number of bytes takes at most ten bytes.
pub proof fn lemma_bytes_text_len(bytes: nat)
    requires
        bytes <= u32::MAX,
    ensures
        text::utf8_len(bytes_text(bytes)) <= 10,
{
    reveal_strlit(" B");
    reveal_strlit(" KB");
    reveal_strlit(" MB");
    reveal_with_fuel(text::power_of_ten, 5);
    if bytes < 1024 {
        text::lemma_decimal_len(bytes, 4);
        text::lemma_utf8_len_concat(text::decimal(bytes), " B"@);
        text::lemma_utf8_len_ascii(" B"@);
    } else if bytes < 1024 * 1024 {
        let hundredths = rounded_hundredths(bytes, 1024);
        lemma_hundredths_text_len(hundredths);
        text::lemma_utf8_len_concat(hundredths_text(hundredths), " KB"@);
        text::lemma_utf8_len_ascii(" KB"@);
    } else {
        let hundredths = rounded_hundredths(bytes, 1024 * 1024);
        lemma_hundredths_text_len(hundredths);
        text::lemma_utf8_len_concat(hundredths_text(hundredths), " MB"@);
        text::lemma_utf8_len_ascii(" MB"@);
    }
}

/// A value below ten thousand takes at most seven bytes with its two decimals.
proof fn lemma_hundredths_text_len(hundredths: nat)
    requires
        hundredths < 1_000_000,
    ensures
        text::utf8_len(hundredths_text(hundredths)) <= 7,
{
    let whole = text::decimal(hundredths / 100);
    let decimals = text::two_digits(hundredths % 100);
    reveal_strlit(".");
    reveal_with_fuel(text::power_of_ten, 5);
    text::lemma_decimal_len(hundredths / 100, 4);
    text::lemma_utf8_len_concat(whole, "."@);
    text::lemma_utf8_len_concat(whole + "."@, decimals);
    text::lemma_utf8_len_ascii("."@);
    text::lemma_utf8_len_ascii(decimals);
}

/// A number of bytes for display: `"<n> B"`, `"<n.nn> KB"` or `"<n.nn> MB"`.
pub fn format_bytes(bytes: u32) -> (r: FixedString<24>)
    ensures
        r@ == bytes_text(bytes as nat),
{
    proof {
        lemma_bytes_text_len(bytes as nat);
    }
    let mut out = BodyWriter::new();
    if bytes < 1024 {
        out.put_decimal(bytes as u64);
        out.put(" B");
    } else if bytes < 1024 * 1024 {
        let (whole, hundredths) = to_two_decimals(bytes as u64, 1024);
        out.put_decimal(whole);
        out.put(".");
        out.put_two_digits(hundredths);
        out.put(" KB");
    } else {
        let (whole, hundredths) = to_two_decimals(bytes as u64, 1024 * 1024);
        out.put_decimal(whole);
        out.put(".");
        out.put_two_digits(hundredths);
        out.put(" MB");
    }
    assert(out.written() =~= bytes_text(bytes as nat));
    out.finish()
}

/// The value part of `/free_psram`.
pub open spec fn psram_text(psram: Option<u32>) -> Seq<char> {
    match psram {
        Some(bytes) => bytes_text(bytes as nat),
        None => "No PSRAM"@,
    }
}

/// The body of `/free_psram`, in the malformed shape if `repro_bug` is set.
pub open spec fn free_psram_text(sampling_ms: nat, psram: Option<u32>, repro_bug: bool) -> Seq<
    char,
> {
    if repro_bug {
        "{\"sampling\": \""@ + text::decimal(sampling_ms) + "\"}"@ + psram_text(psram) + "\"}"@
    } else {
        "{\"sampling\": \""@ + text::decimal(sampling_ms) + " "@ + psram_text(psram) + "\"}"@
    }
}

/// The body of `/free_psram` fits into its buffer in both shapes.
pub proof fn lemma_free_psram_text_len(sampling_ms: nat, psram: Option<u32>, repro_bug: bool)
    requires
        sampling_ms <= u32::MAX,
    ensures
        text::utf8_len(free_psram_text(sampling_ms, psram, repro_bug)) <= 64,
{
    let open = "{\"sampling\": \""@;
    let number = text::decimal(sampling_ms);
    let middle = if repro_bug {
        "\"}"@
    } else {
        " "@
    };
    let value = psram_text(psram);
    reveal_strlit("{\"sampling\": \"");
    reveal_strlit("\"}");
    reveal_strlit(" ");
    reveal_strlit("No PSRAM");
    reveal_with_fuel(text::power_of_ten, 11);
    text::lemma_decimal_len(sampling_ms, 10);
    match psram {
        Some(bytes) => lemma_bytes_text_len(bytes as nat),
        None => text::lemma_utf8_len_ascii("No PSRAM"@),
    }
    text::lemma_utf8_len_ascii(open);
    text::lemma_utf8_len_ascii(middle);
    text::lemma_utf8_len_ascii("\"}"@);
    text::lemma_utf8_len_concat(open, number);
    text::lemma_utf8_len_concat(open + number, middle);
    text::lemma_utf8_len_concat(open + number + middle, value);
    text::lemma_utf8_len_concat(open + number + middle + value, "\"}"@);
}

/// `GET /free_psram`: `{"sampling": "<ms> <value>"}`, where the value is the formatted number of
/// free bytes, or `No PSRAM` on a board without it.
pub fn free_psram_body(sampling_ms: u32, psram: Option<u32>) -> (r: FixedString<64>)
    ensures
        r@ == free_psram_text(sampling_ms as nat, psram, FREE_PSRAM_REPRO_BUG),
{
    free_psram_body_variant(sampling_ms, psram, FREE_PSRAM_REPRO_BUG)
}

/// The body of `/free_psram` in either shape.
pub fn free_psram_body_variant(sampling_ms: u32, psram: Option<u32>, repro_bug: bool) -> (r:
    FixedString<64>)
    ensures
        r@ == free_psram_text(sampling_ms as nat, psram, repro_bug),
{
    proof {
        lemma_free_psram_text_len(sampling_ms as nat, psram, repro_bug);
    }
    let mut out = BodyWriter::new();
    out.put("{\"sampling\": \"");
    assert(out.written() =~= "{\"sampling\": \""@);
    out.put_decimal(sampling_ms as u64);
    if repro_bug {
        out.put("\"}");
    } else {
        out.put(" ");
    }
    match psram {
        Some(bytes) => {
            let value = format_bytes(bytes);
            out.put(value.as_str());
        },
        None => {
            out.put("No PSRAM");
        },
    }
    out.put("\"}");
    out.finish()
}

/// One entry of `/pinmodes`: a pin and its mode number, both quoted.
pub open spec fn pinmode_entry(pin: (u8, u32)) -> Seq<char> {
    "{\"pin\":\""@ + text::decimal(pin.0 as nat) + "\",\"mode\":\""@ + text::decimal(pin.1 as nat)
        + "\"}"@
}

/// The entries of `/pinmodes`, in order.
pub open spec fn pinmode_entries(pins: Seq<(u8, u32)>) -> Seq<Seq<char>> {
    Seq::new(pins.len(), |i: int| pinmode_entry(pins[i]))
}

/// The array served at `/pinmodes`.
pub open spec fn pinmodes_text(pins: Seq<(u8, u32)>) -> Seq<char> {
    "["@ + text::joined(pinmode_entries(pins), ","@) + "]"@
}

/// Write one entry of `/pinmodes`.
fn append_pinmode<const CAP: usize>(out: &mut BodyWriter<CAP>, pin: (u8, u32))
    requires
        old(out).wf(),
    ensures
        final(out).wf(),
        final(out).written() == old(out).written() + pinmode_entry(pin),
{
    broadcast use text::lemma_concat_associative;

    out.put("{\"pin\":\"");
    out.put_decimal(pin.0 as u64);
    out.put("\",\"mode\":\"");
    out.put_decimal(pin.1 as u64);
    out.put("\"}");
}

/// `GET /pinmodes`: `[{"pin":"<n>","mode":"<m>"},...]`, in the order given.
pub fn pinmodes_body(pins: &[(u8, u32)]) -> (r: FixedString<2048>)
    ensures
        r@ == text::clip(pinmodes_text(pins@), 2048),
{
    let mut out = BodyWriter::new();
    out.put("[");
    assert(out.written() =~= "["@ + text::joined(pinmode_entries(pins@.take(0)), ","@));
    for index in 0..pins.len()
        invariant
            out.wf(),
            out.written() == "["@ + text::joined(pinmode_entries(pins@.take(index as int)), ","@),
    {
        let ghost done = pinmode_entries(pins@.take(index as int));
        if index > 0 {
            out.put(",");
        }
        append_pinmode(&mut out, pins[index]);
        proof {
            let entry = pinmode_entry(pins@[index as int]);
            text::lemma_joined_push(done, entry, ","@);
            assert(pinmode_entries(pins@.take(index + 1)) =~= done.push(entry));
            assert(out.written() =~= "["@ + text::joined(done.push(entry), ","@));
        }
    }
    assert(pins@.take(pins@.len() as int) =~= pins@);
    out.put("]");
    out.finish()
}

/// One pin of a function group.
pub open spec fn pin_function_entry(name: Seq<char>, pin: u8) -> Seq<char> {
    "{\"function\":\""@ + name + "\",\"pin\":"@ + text::decimal(pin as nat) + "}"@
}

/// The pins of a function group, in order.
pub open spec fn pin_function_entries(name: Seq<char>, pins: Seq<u8>) -> Seq<Seq<char>> {
    Seq::new(pins.len(), |i: int| pin_function_entry(name, pins[i]))
}

/// One function group of `/pinfunctions`. There is a space in front of `"functions"` and none
/// inside the objects of its array.
pub open spec fn pin_function_group(name: Seq<char>, pins: Seq<u8>) -> Seq<char> {
    "{\"name\":\""@ + name + "\", \"functions\":["@ + text::joined(
        pin_function_entries(name, pins),
        ","@,
    ) + "]}"@
}

/// The object served at `/pinfunctions`.
pub open spec fn pinfunctions_text(adc_pins: Seq<u8>, touch_pins: Seq<u8>) -> Seq<char> {
    "{\"boardpinsfunction\":["@ + pin_function_group("ADC"@, adc_pins) + ","@ + pin_function_group(
        "Touch"@,
        touch_pins,
    ) + "]}"@
}

/// `GET /pinfunctions`: the ADC pins and the touch pins of the board.
pub fn pinfunctions_body(adc_pins: &[u8], touch_pins: &[u8]) -> (r: FixedString<2048>)
    ensures
        r@ == text::clip(pinfunctions_text(adc_pins@, touch_pins@), 2048),
{
    let mut out = BodyWriter::new();
    out.put("{\"boardpinsfunction\":[");
    assert(out.written() =~= "{\"boardpinsfunction\":["@);
    append_pin_function_group(&mut out, "ADC", adc_pins);
    out.put(",");
    append_pin_function_group(&mut out, "Touch", touch_pins);
    out.put("]}");
    out.finish()
}

/// Write one function group.
fn append_pin_function_group<const CAP: usize>(
    out: &mut BodyWriter<CAP>,
    name: &str,
    pins: &[u8],
)
    requires
        old(out).wf(),
    ensures
        final(out).wf(),
        final(out).written() == old(out).written() + pin_function_group(name@, pins@),
{
    let ghost before = out.written();
    out.put("{\"name\":\"");
    out.put(name);
    out.put("\", \"functions\":[");
    let ghost open = out.written();
    assert(open =~= before + ("{\"name\":\""@ + name@ + "\", \"functions\":["@));
    assert(out.written() =~= open + text::joined(
        pin_function_entries(name@, pins@.take(0)),
        ","@,
    ));
    for index in 0..pins.len()
        invariant
            out.wf(),
            out.written() == open + text::joined(
                pin_function_entries(name@, pins@.take(index as int)),
                ","@,
            ),
    {
        let ghost done = pin_function_entries(name@, pins@.take(index as int));
        let pin: u8 = pins[index];
        if index > 0 {
            out.put(",");
        }
        out.put("{\"function\":\"");
        out.put(name);
        out.put("\",\"pin\":");
        out.put_decimal(pin as u64);
        out.put("}");
        proof {
            let entry = pin_function_entry(name@, pins@[index as int]);
            text::lemma_joined_push(done, entry, ","@);
            assert(pin_function_entries(name@, pins@.take(index + 1)) =~= done.push(entry));
            assert(out.written() =~= open + text::joined(done.push(entry), ","@));
        }
    }
    assert(pins@.take(pins@.len() as int) =~= pins@);
    out.put("]}");
    assert(out.written() =~= before + pin_function_group(name@, pins@));
}

/// One flash partition.
#[derive(Debug, Clone, Copy)]
pub struct PartitionInfo<'a> {
    /// Label.
    pub label: &'a str,
    /// Type number (`esp_partition_type_t`): 0 for APP, 1 for DATA.
    pub ptype: u8,
    /// Subtype number (`esp_partition_subtype_t`).
    pub subtype: u8,
    /// Offset in flash.
    pub address: u32,
    /// Size in bytes.
    pub size: u32,
}

/// One entry of `/partition`. The address is in lowercase hexadecimal without padding.
pub open spec fn partition_entry(partition: PartitionInfo) -> Seq<char> {
    "{\"label\":\""@ + partition.label@ + "\",\"type\":"@ + text::decimal(partition.ptype as nat)
        + ",\"subtype\":"@ + text::decimal(partition.subtype as nat) + ",\"address\":\"0x"@
        + text::hexadecimal(partition.address as nat) + "\",\"size\":"@ + text::decimal(
        partition.size as nat,
    ) + "}"@
}

/// The entries of `/partition`, in order.
pub open spec fn partition_entries(partitions: Seq<PartitionInfo>) -> Seq<Seq<char>> {
    Seq::new(partitions.len(), |i: int| partition_entry(partitions[i]))
}

/// The array served at `/partition`.
pub open spec fn partition_text(partitions: Seq<PartitionInfo>) -> Seq<char> {
    "["@ + text::joined(partition_entries(partitions), ","@) + "]"@
}

/// `GET /partition`: the flash partitions, in the order given.
pub fn partition_body(partitions: &[PartitionInfo]) -> (r: FixedString<2048>)
    ensures
        r@ == text::clip(partition_text(partitions@), 2048),
{
    let mut out = BodyWriter::new();
    out.put("[");
    assert(out.written() =~= "["@ + text::joined(partition_entries(partitions@.take(0)), ","@));
    for index in 0..partitions.len()
        invariant
            out.wf(),
            out.written() == "["@ + text::joined(
                partition_entries(partitions@.take(index as int)),
                ","@,
            ),
    {
        let ghost done = partition_entries(partitions@.take(index as int));
        if index > 0 {
            out.put(",");
        }
        append_partition(&mut out, &partitions[index]);
        proof {
            let entry = partition_entry(partitions@[index as int]);
            text::lemma_joined_push(done, entry, ","@);
            assert(partition_entries(partitions@.take(index + 1)) =~= done.push(entry));
            assert(out.written() =~= "["@ + text::joined(done.push(entry), ","@));
        }
    }
    assert(partitions@.take(partitions@.len() as int) =~= partitions@);
    out.put("]");
    out.finish()
}

/// Write one entry of `/partition`.
fn append_partition<const CAP: usize>(out: &mut BodyWriter<CAP>, partition: &PartitionInfo)
    requires
        old(out).wf(),
    ensures
        final(out).wf(),
        final(out).written() == old(out).written() + partition_entry(*partition),
{
    broadcast use text::lemma_concat_associative;

    out.put("{\"label\":\"");
    out.put(partition.label);
    out.put("\",\"type\":");
    out.put_decimal(partition.ptype as u64);
    out.put(",\"subtype\":");
    out.put_decimal(partition.subtype as u64);
    out.put(",\"address\":\"0x");
    out.put_hexadecimal(partition.address as u64);
    out.put("\",\"size\":");
    out.put_decimal(partition.size as u64);
    out.put("}");
}

/// One entry of a `gpio-state` payload: pin, scaled value, raw value and pin type.
pub open spec fn gpio_state_entry(change: (u8, u32, u32, u8)) -> Seq<char> {
    "\""@ + text::decimal(change.0 as nat) + "\": {\"s\": "@ + text::decimal(change.1 as nat)
        + ", \"v\": "@ + text::decimal(change.2 as nat) + ", \"t\": "@ + text::decimal(
        change.3 as nat,
    ) + "}"@
}

/// The entries of a `gpio-state` payload, in order.
pub open spec fn gpio_state_entries(changes: Seq<(u8, u32, u32, u8)>) -> Seq<Seq<char>> {
    Seq::new(changes.len(), |i: int| gpio_state_entry(changes[i]))
}

/// A `gpio-state` payload. Its entries are separated by a comma and a space.
pub open spec fn gpio_state_text(changes: Seq<(u8, u32, u32, u8)>) -> Seq<char> {
    "{"@ + text::joined(gpio_state_entries(changes), ", "@) + "}"@
}

/// The `gpio-state` payload for some pins: `{"<pin>": {"s": <s>, "v": <v>, "t": <t>}, ...}`.
///
/// Each tuple is `(pin, scaled, raw, pin_type)`.
pub fn gpio_state_body(changes: &[(u8, u32, u32, u8)]) -> (r: FixedString<2048>)
    ensures
        r@ == text::clip(gpio_state_text(changes@), 2048),
{
    let mut out = BodyWriter::new();
    out.put("{");
    assert(out.written() =~= "{"@ + text::joined(gpio_state_entries(changes@.take(0)), ", "@));
    for index in 0..changes.len()
        invariant
            out.wf(),
            out.written() == "{"@ + text::joined(
                gpio_state_entries(changes@.take(index as int)),
                ", "@,
            ),
    {
        let ghost done = gpio_state_entries(changes@.take(index as int));
        if index > 0 {
            out.put(", ");
        }
        append_change(&mut out, changes[index]);
        proof {
            let entry = gpio_state_entry(changes@[index as int]);
            text::lemma_joined_push(done, entry, ", "@);
            assert(gpio_state_entries(changes@.take(index + 1)) =~= done.push(entry));
            assert(out.written() =~= "{"@ + text::joined(done.push(entry), ", "@));
        }
    }
    assert(changes@.take(changes@.len() as int) =~= changes@);
    out.put("}");
    out.finish()
}

/// Write one entry of a `gpio-state` payload.
fn append_change<const CAP: usize>(out: &mut BodyWriter<CAP>, change: (u8, u32, u32, u8))
    requires
        old(out).wf(),
    ensures
        final(out).wf(),
        final(out).written() == old(out).written() + gpio_state_entry(change),
{
    broadcast use text::lemma_concat_associative;

    let (pin, scaled, raw, pin_type) = change;
    out.put("\"");
    out.put_decimal(pin as u64);
    out.put("\": {\"s\": ");
    out.put_decimal(scaled as u64);
    out.put(", \"v\": ");
    out.put_decimal(raw as u64);
    out.put(", \"t\": ");
    out.put_decimal(pin_type as u64);
    out.put("}");
}

/// The values behind `/espinfo`.
#[derive(Debug, Clone, Copy)]
pub struct EspInfo<'a> {
    pub chip_model: &'a str,
    pub cores_count: u32,
    pub chip_revision: u32,
    pub cpu_frequency: u32,
    pub cycle_count: u64,
    pub mac: u64,
    pub flash_mode: &'a str,
    pub flash_chip_size: u32,
    pub flash_chip_speed: u32,
    pub heap_size: u32,
    pub heap_max_alloc: u32,
    pub psram_size: u32,
    pub free_psram: u32,
    pub psram_max_alloc: u32,
    pub free_heap: u32,
    pub heap_free_8bit: u32,
    pub heap_free_32bit: u32,
    pub heap_largest_free_block: u32,
    pub up_time: u32,
    pub uptime_us: u64,
    pub sketch_size: u32,
    pub free_sketch: u32,
    pub arduino_core_version: &'a str,
    pub sdk_version: &'a str,
    pub idf_version: Option<&'a str>,
    pub sketch_md5: Option<&'a str>,
    /// Names of the radio features of the chip.
    pub chip_features: &'a [&'a str],
    pub reset_reason_code: i32,
    pub reset_reason: &'a str,
    /// Temperature in degrees Celsius, written with two decimals.
    pub temperature_c: Option<&'a str>,
}

/// Bytes that a temperature may take in `/espinfo`.
pub const TEMPERATURE_CAP: usize = 16;

/// A text in quotes.
pub open spec fn quoted(value: Seq<char>) -> Seq<char> {
    "\""@ + value + "\""@
}

/// `"<key>":<value>`.
pub open spec fn raw_field(key: Seq<char>, value: Seq<char>) -> Seq<char> {
    "\""@ + key + "\":"@ + value
}

/// `"<key>":"<value>"`.
pub open spec fn quoted_field(key: Seq<char>, value: Seq<char>) -> Seq<char> {
    raw_field(key, quoted(value))
}

/// The names of the chip features, each in quotes.
pub open spec fn feature_entries(features: Seq<&str>) -> Seq<Seq<char>> {
    Seq::new(features.len(), |i: int| quoted(features[i]@))
}

/// The array of chip features.
pub open spec fn feature_array(features: Seq<&str>) -> Seq<char> {
    "["@ + text::joined(feature_entries(features), ","@) + "]"@
}

/// The fields that `/espinfo` always starts with.
pub open spec fn espinfo_leading_fields(info: EspInfo) -> Seq<Seq<char>> {
    seq![
        quoted_field("chip_model"@, info.chip_model@),
        quoted_field("cores_count"@, text::decimal(info.cores_count as nat)),
        quoted_field("chip_revision"@, text::decimal(info.chip_revision as nat)),
        quoted_field("cpu_frequency"@, text::decimal(info.cpu_frequency as nat)),
        raw_field("cycle_count"@, text::decimal(info.cycle_count as nat)),
        quoted_field("mac"@, text::decimal(info.mac as nat)),
        quoted_field("flash_mode"@, info.flash_mode@),
        raw_field("flash_chip_size"@, text::decimal(info.flash_chip_size as nat)),
        raw_field("flash_chip_speed"@, text::decimal(info.flash_chip_speed as nat)),
        raw_field("heap_size"@, text::decimal(info.heap_size as nat)),
        raw_field("heap_max_alloc"@, text::decimal(info.heap_max_alloc as nat)),
        raw_field("psram_size"@, text::decimal(info.psram_size as nat)),
        raw_field("free_psram"@, text::decimal(info.free_psram as nat)),
        raw_field("psram_max_alloc"@, text::decimal(info.psram_max_alloc as nat)),
        raw_field("free_heap"@, text::decimal(info.free_heap as nat)),
        raw_field("heap_free_8bit"@, text::decimal(info.heap_free_8bit as nat)),
        raw_field("heap_free_32bit"@, text::decimal(info.heap_free_32bit as nat)),
        raw_field("heap_largest_free_block"@, text::decimal(info.heap_largest_free_block as nat)),
        quoted_field("up_time"@, text::decimal(info.up_time as nat)),
        raw_field("uptime_us"@, text::decimal(info.uptime_us as nat)),
        raw_field("sketch_size"@, text::decimal(info.sketch_size as nat)),
        raw_field("free_sketch"@, text::decimal(info.free_sketch as nat)),
        quoted_field("arduino_core_version"@, info.arduino_core_version@),
        quoted_field("sdk_version"@, info.sdk_version@),
    ]
}

/// An optional field in quotes, left out if it is absent or empty.
pub open spec fn optional_field(key: Seq<char>, value: Option<&str>) -> Seq<Seq<char>> {
    match value {
        Some(value) => if value@.len() > 0 {
            seq![quoted_field(key, value@)]
        } else {
            seq![]
        },
        None => seq![],
    }
}

/// The temperature, left out if it is absent or empty.
pub open spec fn temperature_field(temperature_c: Option<&str>) -> Seq<Seq<char>> {
    match temperature_c {
        Some(value) => if value@.len() > 0 {
            seq![raw_field("temperature_c"@, text::clip(value@, TEMPERATURE_CAP as nat))]
        } else {
            seq![]
        },
        None => seq![],
    }
}

/// The fields of `/espinfo`, in order.
pub open spec fn espinfo_fields(info: EspInfo) -> Seq<Seq<char>> {
    espinfo_leading_fields(info) + optional_field("idf_version"@, info.idf_version)
        + optional_field("sketch_md5"@, info.sketch_md5) + seq![
        raw_field("chip_features"@, feature_array(info.chip_features@)),
        raw_field("reset_reason_code"@, text::signed_decimal(info.reset_reason_code as int)),
        quoted_field("reset_reason"@, info.reset_reason@),
    ] + temperature_field(info.temperature_c)
}

/// The object served at `/espinfo`.
pub open spec fn espinfo_text(info: EspInfo) -> Seq<char> {
    "{"@ + text::joined(espinfo_fields(info), ","@) + "}"@
}

/// An object of which some fields have been written.
spec fn object_with(fields: Seq<Seq<char>>) -> Seq<char> {
    "{"@ + text::joined(fields, ","@)
}

/// An object of which some fields and the key of the next one have been written.
spec fn object_up_to(fields: Seq<Seq<char>>, key: Seq<char>) -> Seq<char> {
    if fields.len() == 0 {
        object_with(fields) + "\""@ + key + "\":"@
    } else {
        object_with(fields) + ","@ + "\""@ + key + "\":"@
    }
}

/// The value completes the field.
proof fn lemma_complete_field(fields: Seq<Seq<char>>, key: Seq<char>, value: Seq<char>)
    ensures
        object_up_to(fields, key) + value == object_with(fields.push(raw_field(key, value))),
{
    broadcast use text::lemma_concat_associative;

    text::lemma_joined_push(fields, raw_field(key, value), ","@);
    if fields.len() == 0 {
        assert("{"@ + Seq::<char>::empty() =~= "{"@);
    }
}

/// Begin a field: a comma in front of it, unless it is the first, and its key.
fn append_key<const CAP: usize>(
    out: &mut BodyWriter<CAP>,
    is_first: &mut bool,
    Ghost(fields): Ghost<Seq<Seq<char>>>,
    key: &str,
)
    requires
        old(out).wf(),
        old(out).written() == object_with(fields),
        *old(is_first) == (fields.len() == 0),
    ensures
        final(out).wf(),
        final(out).written() == object_up_to(fields, key@),
        !*final(is_first),
{
    if !*is_first {
        out.put(",");
    }
    *is_first = false;
    out.put("\"");
    out.put(key);
    out.put("\":");
}

/// Write a field whose value is a text in quotes.
fn append_quoted<const CAP: usize>(
    out: &mut BodyWriter<CAP>,
    is_first: &mut bool,
    Ghost(fields): Ghost<Seq<Seq<char>>>,
    key: &str,
    value: &str,
)
    requires
        old(out).wf(),
        old(out).written() == object_with(fields),
        *old(is_first) == (fields.len() == 0),
    ensures
        final(out).wf(),
        final(out).written() == object_with(fields.push(quoted_field(key@, value@))),
        !*final(is_first),
{
    broadcast use text::lemma_concat_associative;

    append_key(out, is_first, Ghost(fields), key);
    out.put("\"");
    out.put(value);
    out.put("\"");
    proof {
        lemma_complete_field(fields, key@, quoted(value@));
    }
}

/// Write a field whose value is a text in quotes, unless it is absent or empty.
fn append_optional<const CAP: usize>(
    out: &mut BodyWriter<CAP>,
    is_first: &mut bool,
    Ghost(fields): Ghost<Seq<Seq<char>>>,
    key: &str,
    value: Option<&str>,
)
    requires
        old(out).wf(),
        old(out).written() == object_with(fields),
        *old(is_first) == (fields.len() == 0),
    ensures
        final(out).wf(),
        final(out).written() == object_with(fields + optional_field(key@, value)),
        *final(is_first) == ((fields + optional_field(key@, value)).len() == 0),
{
    if let Some(value) = value {
        if !value.is_empty() {
            append_quoted(out, is_first, Ghost(fields), key, value);
            assert(fields + seq![quoted_field(key@, value@)] =~= fields.push(
                quoted_field(key@, value@),
            ));
            return;
        }
    }
    assert(fields + optional_field(key@, value) =~= fields);
}

/// Write a field whose value is a number in quotes.
fn append_quoted_number<const CAP: usize>(
    out: &mut BodyWriter<CAP>,
    is_first: &mut bool,
    Ghost(fields): Ghost<Seq<Seq<char>>>,
    key: &str,
    value: u64,
)
    requires
        old(out).wf(),
        old(out).written() == object_with(fields),
        *old(is_first) == (fields.len() == 0),
    ensures
        final(out).wf(),
        final(out).written() == object_with(
            fields.push(quoted_field(key@, text::decimal(value as nat))),
        ),
        !*final(is_first),
{
    broadcast use text::lemma_concat_associative;

    append_key(out, is_first, Ghost(fields), key);
    out.put("\"");
    out.put_decimal(value);
    out.put("\"");
    proof {
        lemma_complete_field(fields, key@, quoted(text::decimal(value as nat)));
    }
}

/// Write a field whose value is a number without quotes.
fn append_raw_number<const CAP: usize>(
    out: &mut BodyWriter<CAP>,
    is_first: &mut bool,
    Ghost(fields): Ghost<Seq<Seq<char>>>,
    key: &str,
    value: u64,
)
    requires
        old(out).wf(),
        old(out).written() == object_with(fields),
        *old(is_first) == (fields.len() == 0),
    ensures
        final(out).wf(),
        final(out).written() == object_with(
            fields.push(raw_field(key@, text::decimal(value as nat))),
        ),
        !*final(is_first),
{
    append_key(out, is_first, Ghost(fields), key);
    out.put_decimal(value);
    proof {
        lemma_complete_field(fields, key@, text::decimal(value as nat));
    }
}

/// Write a field whose value is a text without quotes.
fn append_raw<const CAP: usize>(
    out: &mut BodyWriter<CAP>,
    is_first: &mut bool,
    Ghost(fields): Ghost<Seq<Seq<char>>>,
    key: &str,
    value: &str,
)
    requires
        old(out).wf(),
        old(out).written() == object_with(fields),
        *old(is_first) == (fields.len() == 0),
    ensures
        final(out).wf(),
        final(out).written() == object_with(fields.push(raw_field(key@, value@))),
        !*final(is_first),
{
    append_key(out, is_first, Ghost(fields), key);
    out.put(value);
    proof {
        lemma_complete_field(fields, key@, value@);
    }
}

/// Write the array of chip features.
fn append_features<const CAP: usize>(out: &mut BodyWriter<CAP>, features: &[&str])
    requires
        old(out).wf(),
    ensures
        final(out).wf(),
        final(out).written() == old(out).written() + feature_array(features@),
{
    broadcast use text::lemma_concat_associative;

    let ghost before = out.written();
    out.put("[");
    assert(out.written() =~= before + "["@ + text::joined(
        feature_entries(features@.take(0)),
        ","@,
    ));
    for index in 0..features.len()
        invariant
            out.wf(),
            out.written() == before + "["@ + text::joined(
                feature_entries(features@.take(index as int)),
                ","@,
            ),
    {
        let ghost done = feature_entries(features@.take(index as int));
        if index > 0 {
            out.put(",");
        }
        out.put("\"");
        out.put(features[index]);
        out.put("\"");
        proof {
            let entry = quoted(features@[index as int]@);
            text::lemma_joined_push(done, entry, ","@);
            assert(feature_entries(features@.take(index + 1)) =~= done.push(entry));
            assert(out.written() =~= before + "["@ + text::joined(done.push(entry), ","@));
        }
    }
    assert(features@.take(features@.len() as int) =~= features@);
    out.put("]");
}

/// Write the fields that `/espinfo` always starts with.
fn append_leading_fields<const CAP: usize>(
    out: &mut BodyWriter<CAP>,
    is_first: &mut bool,
    info: &EspInfo,
)
    requires
        old(out).wf(),
        old(out).written() == "{"@,
        *old(is_first),
    ensures
        final(out).wf(),
        final(out).written() == object_with(espinfo_leading_fields(*info)),
        !*final(is_first),
{
    let ghost all = espinfo_leading_fields(*info);
    assert("{"@ =~= object_with(all.take(0)));
    assert forall|i: int| 0 <= i < all.len() implies all.take(i).push(all[i]) == #[trigger] all.take(i + 1) by {
        assert(all.take(i).push(all[i]) =~= all.take(i + 1));
    }
    append_quoted(out, is_first, Ghost(all.take(0)), "chip_model", info.chip_model);
    append_quoted_number(out, is_first, Ghost(all.take(1)), "cores_count", info.cores_count as u64);
    append_quoted_number(out, is_first, Ghost(all.take(2)), "chip_revision", info.chip_revision as u64);
    append_quoted_number(out, is_first, Ghost(all.take(3)), "cpu_frequency", info.cpu_frequency as u64);
    append_raw_number(out, is_first, Ghost(all.take(4)), "cycle_count", info.cycle_count);
    append_quoted_number(out, is_first, Ghost(all.take(5)), "mac", info.mac);
    append_quoted(out, is_first, Ghost(all.take(6)), "flash_mode", info.flash_mode);
    append_raw_number(out, is_first, Ghost(all.take(7)), "flash_chip_size", info.flash_chip_size as u64);
    append_raw_number(out, is_first, Ghost(all.take(8)), "flash_chip_speed", info.flash_chip_speed as u64);
    append_raw_number(out, is_first, Ghost(all.take(9)), "heap_size", info.heap_size as u64);
    append_raw_number(out, is_first, Ghost(all.take(10)), "heap_max_alloc", info.heap_max_alloc as u64);
    append_raw_number(out, is_first, Ghost(all.take(11)), "psram_size", info.psram_size as u64);
    append_raw_number(out, is_first, Ghost(all.take(12)), "free_psram", info.free_psram as u64);
    append_raw_number(out, is_first, Ghost(all.take(13)), "psram_max_alloc", info.psram_max_alloc as u64);
    append_raw_number(out, is_first, Ghost(all.take(14)), "free_heap", info.free_heap as u64);
    append_raw_number(out, is_first, Ghost(all.take(15)), "heap_free_8bit", info.heap_free_8bit as u64);
    append_raw_number(out, is_first, Ghost(all.take(16)), "heap_free_32bit", info.heap_free_32bit as u64);
    append_raw_number(out, is_first, Ghost(all.take(17)), "heap_largest_free_block", info.heap_largest_free_block as u64);
    append_quoted_number(out, is_first, Ghost(all.take(18)), "up_time", info.up_time as u64);
    append_raw_number(out, is_first, Ghost(all.take(19)), "uptime_us", info.uptime_us);
    append_raw_number(out, is_first, Ghost(all.take(20)), "sketch_size", info.sketch_size as u64);
    append_raw_number(out, is_first, Ghost(all.take(21)), "free_sketch", info.free_sketch as u64);
    append_quoted(out, is_first, Ghost(all.take(22)), "arduino_core_version", info.arduino_core_version);
    append_quoted(out, is_first, Ghost(all.take(23)), "sdk_version", info.sdk_version);
    assert(all.take(24) =~= all);
}

/// `GET /espinfo`: the values as one object, in a fixed order; optional values that are absent
/// or empty are left out.
pub fn espinfo_body(info: &EspInfo) -> (r: FixedString<2048>)
    ensures
        r@ == text::clip(espinfo_text(*info), 2048),
{
    let mut out = BodyWriter::new();
    let mut is_first: bool = true;
    out.put("{");
    assert(out.written() =~= "{"@);
    append_leading_fields(&mut out, &mut is_first, info);
    let ghost mut fields = espinfo_leading_fields(*info);
    append_optional(&mut out, &mut is_first, Ghost(fields), "idf_version", info.idf_version);
    proof {
        fields = fields + optional_field("idf_version"@, info.idf_version);
    }
    append_optional(&mut out, &mut is_first, Ghost(fields), "sketch_md5", info.sketch_md5);
    proof {
        fields = fields + optional_field("sketch_md5"@, info.sketch_md5);
    }
    append_key(&mut out, &mut is_first, Ghost(fields), "chip_features");
    append_features(&mut out, info.chip_features);
    proof {
        lemma_complete_field(fields, "chip_features"@, feature_array(info.chip_features@));
        fields = fields.push(raw_field("chip_features"@, feature_array(info.chip_features@)));
    }
    append_key(&mut out, &mut is_first, Ghost(fields), "reset_reason_code");
    out.put_signed(info.reset_reason_code);
    proof {
        let code = text::signed_decimal(info.reset_reason_code as int);
        lemma_complete_field(fields, "reset_reason_code"@, code);
        fields = fields.push(raw_field("reset_reason_code"@, code));
    }
    append_quoted(&mut out, &mut is_first, Ghost(fields), "reset_reason", info.reset_reason);
    proof {
        fields = fields.push(quoted_field("reset_reason"@, info.reset_reason@));
    }
    if let Some(temperature) = info.temperature_c {
        if !temperature.is_empty() {
            let formatted: FixedString<TEMPERATURE_CAP> = FixedString::clipped(temperature);
            append_raw(&mut out, &mut is_first, Ghost(fields), "temperature_c", formatted.as_str());
        }
    }
    proof {
        let next = fields + temperature_field(info.temperature_c);
        match info.temperature_c {
            Some(value) => {
                if value@.len() > 0 {
                    let clipped = text::clip(value@, TEMPERATURE_CAP as nat);
                    assert(next =~= fields.push(raw_field("temperature_c"@, clipped)));
                } else {
                    assert(next =~= fields);
                }
            },
            None => {
                assert(next =~= fields);
            },
        }
        fields = next;
        assert(fields =~= espinfo_fields(*info));
    }
    out.put("}");
    out.finish()
}

/// Whether a text holds no line break, so that it can be the data of a server-sent event.
pub open spec fn is_one_line(line: Seq<char>) -> bool {
    forall|i: int| 0 <= i < line.len() ==> line[i] != '\n' && line[i] != '\r'
}

/// Digits are on one line.
proof fn lemma_decimal_is_one_line(value: nat)
    ensures
        is_one_line(text::decimal(value)),
    decreases value,
{
    if value >= 10 {
        lemma_decimal_is_one_line(value / 10);
    }
}

/// Items on one line are on one line when joined.
proof fn lemma_joined_is_one_line(items: Seq<Seq<char>>, separator: Seq<char>)
    requires
        is_one_line(separator),
        forall|i: int| 0 <= i < items.len() ==> is_one_line(#[trigger] items[i]),
    ensures
        is_one_line(text::joined(items, separator)),
    decreases items.len(),
{
    if items.len() > 1 {
        let front = items.drop_last();
        assert forall|i: int| 0 <= i < front.len() implies is_one_line(#[trigger] front[i]) by {
            assert(front[i] == items[i]);
        }
        lemma_joined_is_one_line(front, separator);
        assert(is_one_line(items[items.len() - 1]));
    } else if items.len() == 1 {
        assert(is_one_line(items[0]));
    }
}

/// The payloads of the events are on one line, so each is sent as one server-sent event.
pub proof fn payloads_are_one_line(changes: Seq<(u8, u32, u32, u8)>, bytes: nat)
    ensures
        is_one_line(gpio_state_text(changes)),
        is_one_line(bytes_text(bytes)),
{
    reveal_strlit("\"");
    reveal_strlit("\": {\"s\": ");
    reveal_strlit(", \"v\": ");
    reveal_strlit(", \"t\": ");
    reveal_strlit("}");
    reveal_strlit("{");
    reveal_strlit(", ");
    reveal_strlit(".");
    reveal_strlit(" B");
    reveal_strlit(" KB");
    reveal_strlit(" MB");
    let entries = gpio_state_entries(changes);
    assert forall|i: int| 0 <= i < entries.len() implies is_one_line(#[trigger] entries[i]) by {
        lemma_decimal_is_one_line(changes[i].0 as nat);
        lemma_decimal_is_one_line(changes[i].1 as nat);
        lemma_decimal_is_one_line(changes[i].2 as nat);
        lemma_decimal_is_one_line(changes[i].3 as nat);
    }
    lemma_joined_is_one_line(entries, ", "@);
    lemma_decimal_is_one_line(bytes);
    lemma_decimal_is_one_line(rounded_hundredths(bytes, 1024) / 100);
    lemma_decimal_is_one_line(rounded_hundredths(bytes, 1024 * 1024) / 100);
}

} // verus!
