//! What is sent about pins and memory, and when.

use crate::capabilities::Chip;
use crate::fixed::{FixedString, FixedVec};
use crate::laws::readings;
use crate::pin::{PinType, RegisteredPin};
use crate::protocol;
use crate::reader::Register;
use crate::sampler;
use crate::sampler::{Cycle, Frame, PinChange, Sampler};
use crate::server;
use crate::text;
use crate::value::PinReading;
use crate::viewer::{GpioViewer, MAX_REGISTERED_PINS};
use vstd::prelude::*;
use vstd::string::*;

verus! {

/// The number sent for a pin type.
pub open spec fn type_number(pin_type: PinType) -> int {
    match pin_type {
        PinType::Digital => 0,
        PinType::Pwm => 1,
        PinType::Analog => 2,
    }
}

/// Whether an entry tells of a pin with a reading: its GPIO number, the scaled value, the raw value
/// and the type, in this order.
pub open spec fn tells_of(
    entry: PinChange,
    registered: RegisteredPin,
    reading: PinReading,
) -> bool {
    &&& entry.0 == registered.pin
    &&& entry.1 == reading.scaled
    &&& entry.2 == reading.raw
    &&& entry.3 == type_number(reading.pin_type)
}

/// Whether the pin at a position has a reading whose raw value differs from the previous one.
pub open spec fn has_changed(
    pins: Seq<RegisteredPin>,
    readings: Seq<PinReading>,
    previous: Seq<u32>,
    at: int,
) -> bool {
    &&& 0 <= at < pins.len()
    &&& at < readings.len()
    &&& at < previous.len()
    &&& readings[at].raw != previous[at]
}

/// Whether the entries tell of the pins at `positions`, all of which have changed, and these are
/// the first `cap` pins that have.
pub open spec fn tells_of_changes(
    pins: Seq<RegisteredPin>,
    readings: Seq<PinReading>,
    previous: Seq<u32>,
    positions: Seq<int>,
    sent: Seq<PinChange>,
    cap: nat,
) -> bool {
    &&& sent.len() == positions.len() <= cap
    &&& forall|i: int, j: int| 0 <= i < j < positions.len() ==> positions[i] < positions[j]
    &&& forall|k: int|
        0 <= k < sent.len() ==> {
            &&& has_changed(pins, readings, previous, positions[k])
            &&& tells_of(#[trigger] sent[k], pins[positions[k]], readings[positions[k]])
        }
    &&& forall|at: int|
        #[trigger] has_changed(pins, readings, previous, at) && !positions.contains(at)
            ==> sent.len() == cap && forall|k: int|
            0 <= k < positions.len() ==> positions[k] < at
}

/// The changes, as far as there is room for them, tell of the changed pins.
proof fn lemma_changes_tell(
    pins: Seq<RegisteredPin>,
    readings: Seq<PinReading>,
    previous: Seq<u32>,
    cap: nat,
) -> (positions: Seq<int>)
    ensures
        tells_of_changes(
            pins,
            readings,
            previous,
            positions,
            crate::fixed::first_items(sampler::changes(pins, readings, previous), cap),
            cap,
        ),
{
    let all = sampler::changes(pins, readings, previous);
    let count = sampler::comparable(pins, readings, previous);
    let sent = crate::fixed::first_items(all, cap);
    sampler::exactly_the_changed_pins_are_sent(pins, readings, previous);
    let every = choose|every: Seq<int>|
        {
            &&& sampler::ascending_below(every, count)
            &&& forall|i: int|
                0 <= i < count ==> (every.contains(i) <==> (#[trigger] readings[i]).raw
                    != previous[i])
            &&& #[trigger] sampler::sent_about(pins, readings, every, all)
        };
    let positions = every.take(sent.len() as int);
    assert forall|k: int| 0 <= k < sent.len() implies {
        &&& has_changed(pins, readings, previous, positions[k])
        &&& tells_of(#[trigger] sent[k], pins[positions[k]], readings[positions[k]])
    } by {
        assert(sent[k] == all[k]);
        assert(every.contains(every[k]));
        assert(readings[every[k]].raw != previous[every[k]]);
    }
    assert forall|at: int|
        #[trigger] has_changed(pins, readings, previous, at) && !positions.contains(at) implies
        sent.len() == cap && forall|k: int| 0 <= k < positions.len() ==> positions[k] < at by {
        assert(every.contains(at));
        let place = choose|place: int| 0 <= place < every.len() && every[place] == at;
        if place < sent.len() {
            assert(positions[place] == at);
        }
        assert forall|k: int| 0 <= k < positions.len() implies positions[k] < at by {
            assert(positions[k] == every[k] && every[k] < every[place]);
        }
    }
    positions
}

/// A comparison tells of exactly the pins whose raw value has changed, in the order of
/// registration and as far as there is room, and remembers the new raw values.
pub proof fn comparison_tells_of_changed_pins<const N: usize>(
    pins: &[RegisteredPin],
    readings: &[PinReading],
    previous: &mut [u32],
    out: &mut FixedVec<PinChange, N>,
)
    requires
        call_ensures(sampler::diff_changes::<N>, (pins, readings, previous, out), ()),
    ensures
        exists|positions: Seq<int>| #[trigger]
            tells_of_changes(
                pins@,
                readings@,
                old(previous)@,
                positions,
                final(out)@,
                N as nat,
            ),
        final(previous)@.len() == old(previous)@.len(),
        forall|i: int|
            0 <= i < old(previous)@.len() ==> #[trigger] final(previous)@[i] == (if i < pins@.len()
                && i < readings@.len() {
                readings@[i].raw
            } else {
                old(previous)@[i]
            }),
{
    let positions = lemma_changes_tell(pins@, readings@, old(previous)@, N as nat);
    assert(tells_of_changes(
        pins@,
        readings@,
        old(previous)@,
        positions,
        final(out)@,
        N as nat,
    ));
}

/// Whether any pin has changed.
pub open spec fn any_changed(
    pins: Seq<RegisteredPin>,
    readings: Seq<PinReading>,
    previous: Seq<u32>,
) -> bool {
    exists|at: int| #[trigger] has_changed(pins, readings, previous, at)
}

/// Whether a cycle sends what it should: the changed pins, if there are any; the free heap if it
/// has changed in either direction, or if nothing at all has changed for a second.
pub open spec fn sends_news(
    pins: Seq<RegisteredPin>,
    readings: Seq<PinReading>,
    previous: Seq<u32>,
    heap: u32,
    last_heap: u32,
    idle_ms: u64,
    cycle: Cycle,
) -> bool {
    &&& any_changed(pins, readings, previous) <==> cycle.gpio_state is Some
    &&& cycle.gpio_state matches Some(frame) ==> frame is GpioState && exists|
        positions: Seq<int>,
        sent: Seq<PinChange>,
    |
        {
            &&& #[trigger] tells_of_changes(
                pins,
                readings,
                previous,
                positions,
                sent,
                previous.len(),
            )
            &&& frame.spec_data() == text::clip(protocol::gpio_state_text(sent), 2048)
        }
    &&& heap != last_heap ==> cycle.free_heap is Some
    &&& heap == last_heap && (any_changed(pins, readings, previous) || idle_ms < 1000)
        ==> cycle.free_heap is None
    &&& heap == last_heap && !any_changed(pins, readings, previous) && idle_ms >= 1000
        ==> cycle.free_heap is Some
    &&& cycle.free_heap matches Some(frame) ==> frame is FreeHeap && frame.spec_data()
        == protocol::bytes_text(heap as nat)
}

/// What the sampler takes for the outcome of a cycle is what it should send.
proof fn lemma_sends_news(
    before: Sampler,
    pins: Seq<RegisteredPin>,
    readings: Seq<PinReading>,
    heap: u32,
    idle_ms: u64,
    after: Sampler,
    cycle: Cycle,
)
    requires
        before.sends(pins, readings, heap, idle_ms, after, cycle),
    ensures
        sends_news(
            pins,
            readings,
            before.previous(),
            heap,
            before.last_heap(),
            idle_ms,
            cycle,
        ),
        after.last_heap() == heap,
        after.previous().len() == before.previous().len(),
        forall|i: int|
            0 <= i < before.previous().len() ==> #[trigger] after.previous()[i] == (if i
                < pins.len() && i < readings.len() {
                readings[i].raw
            } else {
                before.previous()[i]
            }),
{
    let previous = before.previous();
    let changed = sampler::changes(pins, readings, previous);
    let positions = lemma_changes_tell(pins, readings, previous, previous.len());
    sampler::lemma_changes_len(
        pins,
        readings,
        previous,
        sampler::comparable(pins, readings, previous),
    );
    assert(tells_of_changes(pins, readings, previous, positions, changed, previous.len()));
    if changed.len() > 0 {
        assert(tells_of(changed[0], pins[positions[0]], readings[positions[0]]));
        assert(has_changed(pins, readings, previous, positions[0]));
    }
    if any_changed(pins, readings, previous) {
        let at = choose|at: int| #[trigger] has_changed(pins, readings, previous, at);
        if changed.len() == 0 {
            assert(!positions.contains(at));
            assert(previous.len() == 0);
        }
    }
}

/// A cycle sends what has changed since the last one, and remembers what it was given.
pub proof fn cycles_send_news(
    sampler: &mut Sampler,
    pins: &[RegisteredPin],
    readings: &[PinReading],
    heap: u32,
    idle_ms: u64,
    cycle: Cycle,
)
    requires
        call_ensures(Sampler::cycle, (sampler, pins, readings, heap, idle_ms), cycle),
    ensures
        sends_news(
            pins@,
            readings@,
            old(sampler).previous(),
            heap,
            old(sampler).last_heap(),
            idle_ms,
            cycle,
        ),
        final(sampler).last_heap() == heap,
        final(sampler).previous().len() == old(sampler).previous().len(),
        forall|i: int|
            0 <= i < old(sampler).previous().len() ==> #[trigger] final(sampler).previous()[i] == (
            if i < pins@.len() && i < readings@.len() {
                readings@[i].raw
            } else {
                old(sampler).previous()[i]
            }),
{
    lemma_sends_news(*old(sampler), pins@, readings@, heap, idle_ms, *final(sampler), cycle);
}

/// A primed sampler remembers the raw values and the free heap that it was given.
pub proof fn priming_remembers(readings: &[PinReading], heap: u32, r: Sampler)
    requires
        call_ensures(Sampler::primed, (readings, heap), r),
    ensures
        r.last_heap() == heap,
        r.previous().len() == 48,
        forall|i: int|
            0 <= i < 48 ==> #[trigger] r.previous()[i] == (if i < readings@.len() {
                readings@[i].raw
            } else {
                0
            }),
{
}

/// Of two cycles in a row, the second sends the free heap at once if it is not the one that the
/// first was given, be it larger or smaller, and not before the heartbeat if it is.
pub proof fn changed_heap_is_sent_at_once(
    first: &mut Sampler,
    first_pins: &[RegisteredPin],
    first_readings: &[PinReading],
    first_heap: u32,
    first_idle_ms: u64,
    first_cycle: Cycle,
    second: &mut Sampler,
    pins: &[RegisteredPin],
    readings: &[PinReading],
    heap: u32,
    idle_ms: u64,
    cycle: Cycle,
    shown: FixedString<24>,
)
    requires
        call_ensures(
            Sampler::cycle,
            (first, first_pins, first_readings, first_heap, first_idle_ms),
            first_cycle,
        ),
        *old(second) == *final(first),
        call_ensures(Sampler::cycle, (second, pins, readings, heap, idle_ms), cycle),
        call_ensures(protocol::format_bytes, (heap,), shown),
    ensures
        heap > first_heap ==> (cycle.free_heap matches Some(frame) && frame.spec_data() == shown@),
        heap < first_heap ==> (cycle.free_heap matches Some(frame) && frame.spec_data() == shown@),
        heap == first_heap && idle_ms < 1000 ==> cycle.free_heap is None,
        heap == first_heap && cycle.gpio_state is Some ==> cycle.free_heap is None,
        heap == first_heap && cycle.gpio_state is None && idle_ms >= 1000 ==> (
        cycle.free_heap matches Some(frame) && frame.spec_data() == shown@),
{
}

/// The first cycle of a primed sampler sends the free heap at once if it is not the one that the
/// sampler was primed with, be it larger or smaller.
pub proof fn heap_changed_since_priming_is_sent(
    first_readings: &[PinReading],
    first_heap: u32,
    primed: Sampler,
    sampler: &mut Sampler,
    pins: &[RegisteredPin],
    readings: &[PinReading],
    heap: u32,
    idle_ms: u64,
    cycle: Cycle,
    shown: FixedString<24>,
)
    requires
        call_ensures(Sampler::primed, (first_readings, first_heap), primed),
        *old(sampler) == primed,
        call_ensures(Sampler::cycle, (sampler, pins, readings, heap, idle_ms), cycle),
        call_ensures(protocol::format_bytes, (heap,), shown),
    ensures
        heap > first_heap ==> (cycle.free_heap matches Some(frame) && frame.spec_data() == shown@),
        heap < first_heap ==> (cycle.free_heap matches Some(frame) && frame.spec_data() == shown@),
        heap == first_heap && idle_ms < 1000 ==> cycle.free_heap is None,
{
}

/// Of two cycles in a row over the same pins, the second sends a frame about them exactly if one
/// of their raw values is not the same in both.
pub proof fn only_changed_pins_are_sent(
    first: &mut Sampler,
    first_readings: &[PinReading],
    first_heap: u32,
    first_idle_ms: u64,
    first_cycle: Cycle,
    second: &mut Sampler,
    pins: &[RegisteredPin],
    readings: &[PinReading],
    heap: u32,
    idle_ms: u64,
    cycle: Cycle,
)
    requires
        call_ensures(
            Sampler::cycle,
            (first, pins, first_readings, first_heap, first_idle_ms),
            first_cycle,
        ),
        *old(second) == *final(first),
        call_ensures(Sampler::cycle, (second, pins, readings, heap, idle_ms), cycle),
        first_readings@.len() == pins@.len(),
        readings@.len() == pins@.len(),
        pins@.len() <= 48,
    ensures
        cycle.gpio_state is Some <==> exists|i: int|
            0 <= i < pins@.len() && (#[trigger] readings@[i]).raw != first_readings@[i].raw,
{
    sampler::every_pin_is_remembered(*old(first));
    cycles_send_news(first, pins, first_readings, first_heap, first_idle_ms, first_cycle);
    cycles_send_news(second, pins, readings, heap, idle_ms, cycle);
    let previous = old(second).previous();
    assert forall|i: int| 0 <= i < pins@.len() implies (has_changed(
        pins@,
        readings@,
        previous,
        i,
    ) <==> (#[trigger] readings@[i]).raw != first_readings@[i].raw) by {
        assert(previous[i] == first_readings@[i].raw);
    }
    if any_changed(pins@, readings@, previous) {
        let at = choose|at: int| #[trigger] has_changed(pins@, readings@, previous, at);
        assert(readings@[at].raw != first_readings@[at].raw);
    }
}

/// The free heap is what its source says, and zero without a source.
pub proof fn heap_comes_from_its_source<H: Fn() -> u32>(source: Option<H>, r: u32)
    requires
        call_ensures(sampler::resolve_free_heap::<H>, (source,), r),
    ensures
        source is None ==> r == 0,
        source matches Some(read_heap) ==> call_ensures(read_heap, (), r),
{
}

/// The free PSRAM is what its source says, and there is none without a source.
pub proof fn psram_comes_from_its_source<P: Fn() -> u32>(source: Option<P>, r: Option<u32>)
    requires
        call_ensures(sampler::resolve_free_psram::<P>, (source,), r),
    ensures
        source is None ==> r is None,
        source matches Some(read_psram) ==> (r matches Some(bytes) && call_ensures(
            read_psram,
            (),
            bytes,
        )),
{
}

/// Whether the readings are live readings of the pins, each in its place.
pub open spec fn are_live<R: Fn(Register) -> u32, A: Fn(u8) -> u16>(
    chip: Chip,
    pins: Seq<RegisteredPin>,
    read_register: R,
    analog_source: Option<A>,
    readings: Seq<PinReading>,
) -> bool {
    &&& readings.len() == (if pins.len() < 48 {
        pins.len()
    } else {
        48
    })
    &&& forall|i: int|
        0 <= i < readings.len() ==> readings::is_live(
            chip,
            pins[i],
            read_register,
            analog_source,
            #[trigger] readings[i],
        )
}

/// Every pin is read live, in the order of registration.
pub proof fn all_pins_are_read_live<R: Fn(Register) -> u32, A: Fn(u8) -> u16>(
    chip: Chip,
    pins: &[RegisteredPin],
    read_register: &R,
    analog_source: &Option<A>,
    out: &mut FixedVec<PinReading, MAX_REGISTERED_PINS>,
)
    requires
        call_ensures(
            sampler::read_all_of::<R, A>,
            (chip, pins, read_register, analog_source, out),
            (),
        ),
    ensures
        are_live(chip, pins@, *read_register, *analog_source, final(out)@),
{
    let readings = final(out)@;
    assert forall|i: int| 0 <= i < readings.len() implies readings::is_live(
        chip,
        pins@[i],
        *read_register,
        *analog_source,
        #[trigger] readings[i],
    ) by {
        readings::lemma_shown_readings_are_live(
            chip,
            pins@[i],
            *read_register,
            *analog_source,
            readings[i],
        );
    }
}

/// Where there is no chip, digital and PWM pins read as zero, and analog pins show a sample of
/// their source, if there is one.
pub proof fn all_pins_without_a_chip_show_only_samples<A: Fn(u8) -> u16>(
    pins: &[RegisteredPin],
    analog_source: Option<A>,
    out: &mut FixedVec<PinReading, MAX_REGISTERED_PINS>,
)
    requires
        call_ensures(sampler::read_all::<A>, (pins, analog_source, out), ()),
    ensures
        final(out)@.len() == (if pins@.len() < 48 {
            pins@.len()
        } else {
            48
        }),
        forall|i: int|
            0 <= i < final(out)@.len() ==> readings::is_only_a_sample(
                pins@[i],
                analog_source,
                #[trigger] final(out)@[i],
            ),
{
    let shown = final(out)@;
    assert forall|i: int| 0 <= i < shown.len() implies readings::is_only_a_sample(
        pins@[i],
        analog_source,
        #[trigger] shown[i],
    ) by {
        readings::lemma_only_samples_are_shown(pins@[i], analog_source, shown[i]);
    }
}

/// A frame has the name of its kind and its text, and so has a copy of it. A cycle is active if it
/// sends anything.
pub proof fn frames_have_name_and_text(
    frame: &Frame,
    name: &str,
    data: &str,
    copy: Frame,
    cycle: &Cycle,
    active: bool,
)
    requires
        call_ensures(Frame::event, (frame,), name),
        call_ensures(Frame::data, (frame,), data),
        call_ensures(Frame::clone, (frame,), copy),
        call_ensures(Cycle::is_active, (cycle,), active),
    ensures
        *frame matches Frame::GpioState(body) ==> name@ == "gpio-state"@ && data@ == body@,
        *frame matches Frame::FreeHeap(body) ==> name@ == "free_heap"@ && data@ == body@,
        *frame matches Frame::FreePsram(body) ==> name@ == "free_psram"@ && data@ == body@,
        copy.spec_event() == name@,
        copy.spec_data() == data@,
        active <==> cycle.gpio_state is Some || cycle.free_heap is Some,
{
}

/// A sample of a viewer holds live readings of its pins and what its heap source says.
proof fn lemma_samples_are_live<
    R: Fn(Register) -> u32,
    H: Fn() -> u32,
    P,
    A: Fn(u8) -> u16,
>(
    viewer: GpioViewer<H, P, A>,
    chip: Chip,
    read_register: R,
    readings: Seq<PinReading>,
    heap: u32,
)
    requires
        sampler::is_sample(viewer, chip, read_register, readings, heap),
        viewer.pins@.len() <= 48,
    ensures
        are_live(chip, viewer.pins@, read_register, viewer.analog_source, readings),
        viewer.free_heap_source is None ==> heap == 0,
        viewer.free_heap_source matches Some(read_heap) ==> call_ensures(read_heap, (), heap),
{
    assert forall|i: int| 0 <= i < readings.len() implies readings::is_live(
        chip,
        viewer.pins@[i],
        read_register,
        viewer.analog_source,
        #[trigger] readings[i],
    ) by {
        readings::lemma_shown_readings_are_live(
            chip,
            viewer.pins@[i],
            read_register,
            viewer.analog_source,
            readings[i],
        );
    }
}

/// A sampler that is started for a viewer remembers what its pins and its heap source say then.
pub proof fn starting_remembers_live_values<
    R: Fn(Register) -> u32,
    H: Fn() -> u32 + Copy,
    P,
    A: Fn(u8) -> u16,
>(viewer: &GpioViewer<H, P, A>, chip: Chip, read_register: &R, r: Sampler)
    requires
        viewer.pins@.len() <= 48,
        call_ensures(Sampler::start::<R, H, P, A>, (viewer, chip, read_register), r),
    ensures
        r.previous().len() == 48,
        viewer.free_heap_source is None ==> r.last_heap() == 0,
        viewer.free_heap_source matches Some(read_heap) ==> call_ensures(
            read_heap,
            (),
            r.last_heap(),
        ),
        exists|readings: Seq<PinReading>|
            {
                &&& #[trigger] are_live(
                    chip,
                    viewer.pins@,
                    *read_register,
                    viewer.analog_source,
                    readings,
                )
                &&& forall|i: int|
                    0 <= i < readings.len() ==> #[trigger] r.previous()[i] == readings[i].raw
            },
{
    let (readings, heap) = choose|readings: Seq<PinReading>, heap: u32|
        {
            &&& #[trigger] sampler::is_sample(*viewer, chip, *read_register, readings, heap)
            &&& r.previous() == sampler::updated(
                readings,
                Seq::new(MAX_REGISTERED_PINS as nat, |i: int| 0u32),
                readings.len(),
            )
            &&& r.last_heap() == heap
        };
    lemma_samples_are_live(*viewer, chip, *read_register, readings, heap);
}

/// A sampling cycle of a viewer sends what has changed in live readings of its pins and in what
/// its heap source says.
pub proof fn viewers_are_sampled_live<
    R: Fn(Register) -> u32,
    I: Fn() -> u64,
    H: Fn() -> u32 + Copy,
    P,
    A: Fn(u8) -> u16,
>(
    sampler: &mut Sampler,
    viewer: &GpioViewer<H, P, A>,
    chip: Chip,
    read_register: &R,
    read_idle_ms: &I,
    cycle: Cycle,
)
    requires
        viewer.pins@.len() <= 48,
        call_ensures(
            Sampler::sample::<R, I, H, P, A>,
            (sampler, viewer, chip, read_register, read_idle_ms),
            cycle,
        ),
    ensures
        viewer.free_heap_source is None ==> final(sampler).last_heap() == 0,
        viewer.free_heap_source matches Some(read_heap) ==> call_ensures(
            read_heap,
            (),
            final(sampler).last_heap(),
        ),
        exists|readings: Seq<PinReading>, idle_ms: u64|
            {
                &&& are_live(
                    chip,
                    viewer.pins@,
                    *read_register,
                    viewer.analog_source,
                    readings,
                )
                &&& call_ensures(*read_idle_ms, (), idle_ms)
                &&& #[trigger] sends_news(
                    viewer.pins@,
                    readings,
                    old(sampler).previous(),
                    final(sampler).last_heap(),
                    old(sampler).last_heap(),
                    idle_ms,
                    cycle,
                )
                &&& forall|i: int|
                    0 <= i < readings.len() && i < old(sampler).previous().len() ==> #[trigger]
                        final(sampler).previous()[i] == readings[i].raw
            },
{
    let (readings, heap, idle_ms) = choose|readings: Seq<PinReading>, heap: u32, idle_ms: u64|
        {
            &&& sampler::is_sample(*viewer, chip, *read_register, readings, heap)
            &&& call_ensures(*read_idle_ms, (), idle_ms)
            &&& #[trigger] old(sampler).sends(
                viewer.pins@,
                readings,
                heap,
                idle_ms,
                *final(sampler),
                cycle,
            )
        };
    lemma_samples_are_live(*viewer, chip, *read_register, readings, heap);
    lemma_sends_news(
        *old(sampler),
        viewer.pins@,
        readings,
        heap,
        idle_ms,
        *final(sampler),
        cycle,
    );
}

/// A client that connects is told of every registered pin, changed or not, with a live reading.
pub proof fn baseline_tells_of_every_pin<
    R: Fn(Register) -> u32,
    H,
    P,
    A: Fn(u8) -> u16,
>(viewer: &GpioViewer<H, P, A>, chip: Chip, read_register: &R, frame: Frame)
    requires
        viewer.pins@.len() <= 48,
        call_ensures(server::baseline_frame::<R, H, P, A>, (viewer, chip, read_register), frame),
    ensures
        frame is GpioState,
        exists|readings: Seq<PinReading>, sent: Seq<PinChange>|
            {
                &&& #[trigger] are_live(
                    chip,
                    viewer.pins@,
                    *read_register,
                    viewer.analog_source,
                    readings,
                )
                &&& sent.len() == viewer.pins@.len()
                &&& forall|i: int|
                    0 <= i < sent.len() ==> tells_of(
                        #[trigger] sent[i],
                        viewer.pins@[i],
                        readings[i],
                    )
                &&& frame.spec_data() == text::clip(
                    #[trigger] protocol::gpio_state_text(sent),
                    2048,
                )
            },
{
    let readings = choose|readings: Seq<PinReading>|
        {
            &&& readings.len() == viewer.pins@.len()
            &&& forall|i: int|
                0 <= i < readings.len() ==> crate::reader::shows(
                    chip,
                    viewer.pins@[i],
                    *read_register,
                    viewer.analog_source,
                    #[trigger] readings[i],
                )
            &&& frame.spec_data() == text::clip(
                protocol::gpio_state_text(#[trigger] server::baseline_of(viewer.pins@, readings)),
                sampler::GPIO_STATE_CAP as nat,
            )
        };
    assert forall|i: int| 0 <= i < readings.len() implies readings::is_live(
        chip,
        viewer.pins@[i],
        *read_register,
        viewer.analog_source,
        #[trigger] readings[i],
    ) by {
        readings::lemma_shown_readings_are_live(
            chip,
            viewer.pins@[i],
            *read_register,
            viewer.analog_source,
            readings[i],
        );
    }
    let sent = server::baseline_of(viewer.pins@, readings);
    assert(are_live(chip, viewer.pins@, *read_register, viewer.analog_source, readings));
    assert(frame.spec_data() == text::clip(protocol::gpio_state_text(sent), 2048));
}

} // verus!
