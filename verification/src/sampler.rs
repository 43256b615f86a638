//! Sampling: which pins have changed, and which frames are sent in a sampling cycle.

use crate::capabilities::Chip;
use crate::fixed;
use crate::fixed::{FixedString, FixedVec};
use crate::pin::{PinType, RegisteredPin};
use crate::protocol;
use crate::reader;
use crate::reader::Register;
use crate::text;
use crate::value::PinReading;
use crate::viewer::{GpioViewer, MAX_REGISTERED_PINS};
use vstd::prelude::*;

verus! {

/// One changed pin: GPIO number, scaled value, raw value and pin type.
pub type PinChange = (u8, u32, u32, u8);

/// The free heap that is reported when the firmware lends no source.
pub const FREE_HEAP_FALLBACK: u32 = 0;

/// Capacity of a `gpio-state` payload, in bytes.
pub const GPIO_STATE_CAP: usize = 2048;

/// Capacity of a `free_heap` or `free_psram` payload, in bytes.
pub const BYTES_STR_CAP: usize = 24;

/// Number of frames queued for a client before the oldest is dropped.
pub const FRAME_QUEUE_DEPTH: usize = 2;

/// Maximum number of `/events` clients at a time.
pub const MAX_SSE_CLIENTS: usize = 4;

/// The free heap is sent again after this many milliseconds without a change.
pub const HEARTBEAT_MS: u64 = 1000;

/// What is sent about a pin with a reading.
pub open spec fn change_of(registered: RegisteredPin, reading: PinReading) -> PinChange {
    (registered.pin, reading.scaled, reading.raw, reading.pin_type.spec_to_int())
}

/// Number of pins that can be compared: the length of the shortest of the three lists.
pub open spec fn comparable(
    pins: Seq<RegisteredPin>,
    readings: Seq<PinReading>,
    previous: Seq<u32>,
) -> nat {
    let shorter = if pins.len() < readings.len() {
        pins.len()
    } else {
        readings.len()
    };
    if shorter < previous.len() {
        shorter
    } else {
        previous.len()
    }
}

/// What is sent about the first `count` pins: those whose raw value differs from the previous
/// one, in the order of registration.
pub open spec fn changes_among(
    pins: Seq<RegisteredPin>,
    readings: Seq<PinReading>,
    previous: Seq<u32>,
    count: nat,
) -> Seq<PinChange>
    decreases count,
{
    if count == 0 {
        Seq::empty()
    } else {
        let last = count - 1;
        let before = changes_among(pins, readings, previous, last as nat);
        if readings[last].raw != previous[last] {
            before.push(change_of(pins[last], readings[last]))
        } else {
            before
        }
    }
}

/// What is sent about the pins: all that have changed, in the order of registration.
pub open spec fn changes(
    pins: Seq<RegisteredPin>,
    readings: Seq<PinReading>,
    previous: Seq<u32>,
) -> Seq<PinChange> {
    changes_among(pins, readings, previous, comparable(pins, readings, previous))
}

/// The previous raw values after the first `count` readings have been compared.
pub open spec fn updated(readings: Seq<PinReading>, previous: Seq<u32>, count: nat) -> Seq<u32> {
    Seq::new(
        previous.len(),
        |i: int|
            if i < count {
                readings[i].raw
            } else {
                previous[i]
            },
    )
}

/// Compare readings with the raw values sent before.
///
/// A pin is put into `out` if its raw value has changed, and then its new raw value replaces the
/// previous one. Entry `i` of `pins`, `readings` and `previous` stands for the same pin; what
/// the shortest of them does not reach is left out. `out` is emptied first; changes that it has
/// no room for are dropped.
pub fn diff_changes<const N: usize>(
    pins: &[RegisteredPin],
    readings: &[PinReading],
    previous: &mut [u32],
    out: &mut FixedVec<PinChange, N>,
)
    ensures
        final(out)@ == fixed::first_items(changes(pins@, readings@, old(previous)@), N as nat),
        final(previous)@ == updated(
            readings@,
            old(previous)@,
            comparable(pins@, readings@, old(previous)@),
        ),
{
    let ghost before = previous@;
    out.clear();
    let mut count: usize = pins.len();
    if readings.len() < count {
        count = readings.len();
    }
    if previous.len() < count {
        count = previous.len();
    }
    assert(previous@ =~= updated(readings@, before, 0));
    for index in 0..count
        invariant
            count == comparable(pins@, readings@, before),
            count <= pins@.len(),
            count <= readings@.len(),
            count <= before.len(),
            previous@ == updated(readings@, before, index as nat),
            out@ == fixed::first_items(
                changes_among(pins@, readings@, before, index as nat),
                N as nat,
            ),
    {
        let reading = readings[index];
        let ghost sent = changes_among(pins@, readings@, before, index as nat);
        if reading.raw != previous[index] {
            previous[index] = reading.raw;
            let change: PinChange = (
                pins[index].pin,
                reading.scaled,
                reading.raw,
                reading.pin_type.to_int(),
            );
            let _ = out.push(change);
            assert(sent.len() >= N ==> fixed::first_items(sent.push(change), N as nat) =~= fixed::first_items(
                sent,
                N as nat,
            ));
        }
        assert(previous@ =~= updated(readings@, before, (index + 1) as nat));
    }
}

/// Whether `bytes` is what a heap source says now, or the fallback without a source.
pub open spec fn heap_reads_as<H: Fn() -> u32>(source: Option<H>, bytes: u32) -> bool {
    match source {
        Some(read_heap) => call_ensures(read_heap, (), bytes),
        None => bytes == FREE_HEAP_FALLBACK,
    }
}

/// Whether `bytes` is what a PSRAM source says now: nothing without a source.
pub open spec fn psram_reads_as<P: Fn() -> u32>(source: Option<P>, bytes: Option<u32>) -> bool {
    match source {
        Some(read_psram) => bytes matches Some(bytes) && call_ensures(read_psram, (), bytes),
        None => bytes is None,
    }
}

/// The free heap in bytes: what `source` says, or [`FREE_HEAP_FALLBACK`] without one.
pub fn resolve_free_heap<H: Fn() -> u32>(source: Option<H>) -> (r: u32)
    requires
        source matches Some(read_heap) ==> call_requires(read_heap, ()),
    ensures
        heap_reads_as(source, r),
{
    match source {
        Some(read_heap) => read_heap(),
        None => FREE_HEAP_FALLBACK,
    }
}

/// The free PSRAM in bytes: what `source` says, or `None` without one.
pub fn resolve_free_psram<P: Fn() -> u32>(source: Option<P>) -> (r: Option<u32>)
    requires
        source matches Some(read_psram) ==> call_requires(read_psram, ()),
    ensures
        psram_reads_as(source, r),
{
    match source {
        Some(read_psram) => Some(read_psram()),
        None => None,
    }
}

/// Whether the registers and the analog source can be asked for everything that the pins need.
pub open spec fn sources_accept<R: Fn(Register) -> u32, A: Fn(u8) -> u16>(
    chip: Chip,
    pins: Seq<RegisteredPin>,
    read_register: R,
    analog_source: Option<A>,
) -> bool {
    forall|i: int|
        0 <= i < pins.len() ==> {
            &&& reader::pin_register(chip, #[trigger] pins[i]) matches Some(register)
                ==> call_requires(read_register, (register,))
            &&& pins[i].pin_type == PinType::Analog ==> (analog_source matches Some(source)
                ==> call_requires(source, (pins[i].pin,)))
        }
}

/// Read every pin of a chip into `out`, which is emptied first. Pins beyond its capacity are left
/// out.
pub fn read_all_of<R: Fn(Register) -> u32, A: Fn(u8) -> u16>(
    chip: Chip,
    pins: &[RegisteredPin],
    read_register: &R,
    analog_source: &Option<A>,
    out: &mut FixedVec<PinReading, MAX_REGISTERED_PINS>,
)
    requires
        sources_accept(chip, pins@, *read_register, *analog_source),
    ensures
        final(out)@.len() == fixed::first_items(pins@, MAX_REGISTERED_PINS as nat).len(),
        forall|i: int|
            0 <= i < final(out)@.len() ==> reader::shows(
                chip,
                pins@[i],
                *read_register,
                *analog_source,
                #[trigger] final(out)@[i],
            ),
{
    out.clear();
    let mut count: usize = pins.len();
    if count > MAX_REGISTERED_PINS {
        count = MAX_REGISTERED_PINS;
    }
    for index in 0..count
        invariant
            count <= pins@.len(),
            count <= MAX_REGISTERED_PINS,
            sources_accept(chip, pins@, *read_register, *analog_source),
            out@.len() == index,
            forall|i: int|
                0 <= i < index ==> reader::shows(
                    chip,
                    pins@[i],
                    *read_register,
                    *analog_source,
                    #[trigger] out@[i],
                ),
    {
        let registered = &pins[index];
        let _ = out.push(reader::read_pin_of(chip, registered, read_register, analog_source));
    }
}

/// Read every pin into `out` where there is no chip. `out` is emptied first; pins beyond its
/// capacity are left out.
pub fn read_all<A: Fn(u8) -> u16>(
    pins: &[RegisteredPin],
    analog_source: Option<A>,
    out: &mut FixedVec<PinReading, MAX_REGISTERED_PINS>,
)
    requires
        forall|i: int|
            0 <= i < pins@.len() && (#[trigger] pins@[i]).pin_type == PinType::Analog ==> (
            analog_source matches Some(source) ==> call_requires(source, (pins@[i].pin,))),
    ensures
        final(out)@.len() == fixed::first_items(pins@, MAX_REGISTERED_PINS as nat).len(),
        forall|i: int|
            0 <= i < final(out)@.len() ==> reader::shows_without_chip(
                pins@[i],
                analog_source,
                #[trigger] final(out)@[i],
            ),
{
    let no_register = |_register: Register| -> (bits: u32) { 0 };
    read_all_of(Chip::Host, pins, &no_register, &analog_source, out);
}

/// A frame sent to every `/events` client.
pub enum Frame {
    /// `gpio-state`: the pins that have changed.
    GpioState(FixedString<GPIO_STATE_CAP>),
    /// `free_heap`: the free heap.
    FreeHeap(FixedString<BYTES_STR_CAP>),
    /// `free_psram`: the free PSRAM.
    FreePsram(FixedString<BYTES_STR_CAP>),
}

impl Frame {
    /// The name of the event.
    pub open spec fn spec_event(&self) -> Seq<char> {
        match self {
            Frame::GpioState(_) => "gpio-state"@,
            Frame::FreeHeap(_) => "free_heap"@,
            Frame::FreePsram(_) => "free_psram"@,
        }
    }

    /// The payload.
    pub open spec fn spec_data(&self) -> Seq<char> {
        match self {
            Frame::GpioState(body) => body@,
            Frame::FreeHeap(body) => body@,
            Frame::FreePsram(body) => body@,
        }
    }

    /// The name of the event.
    pub fn event(&self) -> (r: &'static str)
        ensures
            r@ == self.spec_event(),
    {
        match self {
            Frame::GpioState(_) => "gpio-state",
            Frame::FreeHeap(_) => "free_heap",
            Frame::FreePsram(_) => "free_psram",
        }
    }

    /// The payload.
    pub fn data(&self) -> (r: &str)
        ensures
            r@ == self.spec_data(),
    {
        match self {
            Frame::GpioState(body) => body.as_str(),
            Frame::FreeHeap(body) => body.as_str(),
            Frame::FreePsram(body) => body.as_str(),
        }
    }
}

impl Clone for Frame {
    fn clone(&self) -> (r: Self)
        ensures
            r.spec_event() == self.spec_event(),
            r.spec_data() == self.spec_data(),
    {
        match self {
            Frame::GpioState(body) => Frame::GpioState(body.clone()),
            Frame::FreeHeap(body) => Frame::FreeHeap(body.clone()),
            Frame::FreePsram(body) => Frame::FreePsram(body.clone()),
        }
    }
}

/// What the sampler remembers from one cycle to the next: the raw values and the free heap that
/// were sent last.
pub struct Sampler {
    previous: [u32; MAX_REGISTERED_PINS],
    last_heap: u32,
}

/// The frames of one sampling cycle, in the order in which they are sent.
pub struct Cycle {
    /// The pins that have changed.
    pub gpio_state: Option<Frame>,
    /// The free heap.
    pub free_heap: Option<Frame>,
}

impl Cycle {
    /// Whether anything is sent, so that the wait for the next heartbeat starts again.
    pub fn is_active(&self) -> (r: bool)
        ensures
            r == (self.gpio_state is Some || self.free_heap is Some),
    {
        self.gpio_state.is_some() || self.free_heap.is_some()
    }
}

impl Sampler {
    /// The raw values sent last, one for each pin that can be registered.
    pub closed spec fn previous(&self) -> Seq<u32> {
        self.previous@
    }

    /// The free heap sent last.
    pub closed spec fn last_heap(&self) -> u32 {
        self.last_heap
    }

    /// Whether a cycle with these readings and this free heap leads from one state of the sampler
    /// to the `next` and sends `cycle`.
    pub open spec fn sends(
        self,
        pins: Seq<RegisteredPin>,
        readings: Seq<PinReading>,
        heap: u32,
        idle_ms: u64,
        next: Sampler,
        cycle: Cycle,
    ) -> bool {
        let changed = changes(pins, readings, self.previous());
        &&& next.previous() == updated(
            readings,
            self.previous(),
            comparable(pins, readings, self.previous()),
        )
        &&& next.last_heap() == heap
        &&& cycle.gpio_state is Some <==> changed.len() > 0
        &&& cycle.gpio_state matches Some(frame) ==> {
            &&& frame is GpioState
            &&& frame.spec_data() == text::clip(
                protocol::gpio_state_text(changed),
                GPIO_STATE_CAP as nat,
            )
        }
        &&& cycle.free_heap is Some <==> {
            ||| heap != self.last_heap()
            ||| changed.len() == 0 && idle_ms >= HEARTBEAT_MS
        }
        &&& cycle.free_heap matches Some(frame) ==> {
            &&& frame is FreeHeap
            &&& frame.spec_data() == protocol::bytes_text(heap as nat)
        }
    }

    /// Start from a first read of the pins and of the free heap, so that the first cycle reports
    /// only what has changed since.
    pub fn primed(readings: &[PinReading], heap: u32) -> (r: Self)
        ensures
            r.previous() == updated(
                readings@,
                Seq::new(MAX_REGISTERED_PINS as nat, |i: int| 0u32),
                readings@.len(),
            ),
            r.last_heap() == heap,
    {
        let mut previous: [u32; MAX_REGISTERED_PINS] = [0; MAX_REGISTERED_PINS];
        let ghost zeros = Seq::new(MAX_REGISTERED_PINS as nat, |i: int| 0u32);
        assert(previous@ =~= updated(readings@, zeros, 0));
        for index in 0..MAX_REGISTERED_PINS
            invariant
                zeros == Seq::new(MAX_REGISTERED_PINS as nat, |i: int| 0u32),
                previous@ == updated(
                    readings@,
                    zeros,
                    if index < readings@.len() {
                        index as nat
                    } else {
                        readings@.len()
                    },
                ),
        {
            if index < readings.len() {
                previous[index] = readings[index].raw;
                assert(previous@ =~= updated(readings@, zeros, (index + 1) as nat));
            }
        }
        assert(previous@ =~= updated(readings@, zeros, readings@.len()));
        Sampler { previous, last_heap: heap }
    }

    /// One sampling cycle: take the readings and the free heap, and say which frames are sent.
    ///
    /// The pins whose raw value has changed go into a `gpio-state` frame, and a free heap that
    /// has changed into a `free_heap` frame. If neither has changed, and nothing was sent for
    /// [`HEARTBEAT_MS`] (`idle_ms` says for how long), the free heap is sent again.
    pub fn cycle(
        &mut self,
        pins: &[RegisteredPin],
        readings: &[PinReading],
        heap: u32,
        idle_ms: u64,
    ) -> (r: Cycle)
        ensures
            old(self).sends(pins@, readings@, heap, idle_ms, *final(self), r),
    {
        let mut changed: FixedVec<PinChange, MAX_REGISTERED_PINS> = FixedVec::new();
        proof {
            lemma_changes_len(
                pins@,
                readings@,
                self.previous@,
                comparable(pins@, readings@, self.previous@),
            );
        }
        diff_changes(pins, readings, &mut self.previous, &mut changed);
        let gpio_state = if changed.is_empty() {
            None
        } else {
            Some(Frame::GpioState(protocol::gpio_state_body(changed.as_slice())))
        };
        let heap_changed: bool = heap != self.last_heap;
        self.last_heap = heap;
        let free_heap = if heap_changed || (gpio_state.is_none() && idle_ms >= HEARTBEAT_MS) {
            Some(Frame::FreeHeap(protocol::format_bytes(heap)))
        } else {
            None
        };
        Cycle { gpio_state, free_heap }
    }

    /// Start a sampler for a viewer: read its pins and the free heap once.
    pub fn start<R: Fn(Register) -> u32, H: Fn() -> u32 + Copy, P, A: Fn(u8) -> u16>(
        viewer: &GpioViewer<H, P, A>,
        chip: Chip,
        read_register: &R,
    ) -> (r: Self)
        requires
            can_be_sampled(*viewer, chip, *read_register),
        ensures
            exists|readings: Seq<PinReading>, heap: u32|
                {
                    &&& #[trigger] is_sample(*viewer, chip, *read_register, readings, heap)
                    &&& r.previous() == updated(
                        readings,
                        Seq::new(MAX_REGISTERED_PINS as nat, |i: int| 0u32),
                        readings.len(),
                    )
                    &&& r.last_heap() == heap
                },
    {
        let mut readings = FixedVec::new();
        let pins = viewer.pins.as_slice();
        read_all_of(chip, pins, read_register, &viewer.analog_source, &mut readings);
        let heap: u32 = resolve_free_heap(viewer.free_heap_source);
        assert(is_sample(*viewer, chip, *read_register, readings@, heap));
        Self::primed(readings.as_slice(), heap)
    }

    /// One sampling cycle of a viewer: read its pins and the free heap, and say which frames are
    /// sent. `read_idle_ms` says for how many milliseconds nothing was sent; it is asked last.
    pub fn sample<
        R: Fn(Register) -> u32,
        I: Fn() -> u64,
        H: Fn() -> u32 + Copy,
        P,
        A: Fn(u8) -> u16,
    >(
        &mut self,
        viewer: &GpioViewer<H, P, A>,
        chip: Chip,
        read_register: &R,
        read_idle_ms: &I,
    ) -> (r: Cycle)
        requires
            can_be_sampled(*viewer, chip, *read_register),
            call_requires(*read_idle_ms, ()),
        ensures
            exists|readings: Seq<PinReading>, heap: u32, idle_ms: u64|
                {
                    &&& is_sample(*viewer, chip, *read_register, readings, heap)
                    &&& call_ensures(*read_idle_ms, (), idle_ms)
                    &&& #[trigger] old(self).sends(
                        viewer.pins@,
                        readings,
                        heap,
                        idle_ms,
                        *final(self),
                        r,
                    )
                },
    {
        let mut readings = FixedVec::new();
        let pins = viewer.pins.as_slice();
        read_all_of(chip, pins, read_register, &viewer.analog_source, &mut readings);
        let heap: u32 = resolve_free_heap(viewer.free_heap_source);
        assert(is_sample(*viewer, chip, *read_register, readings@, heap));
        let idle_ms: u64 = read_idle_ms();
        self.cycle(pins, readings.as_slice(), heap, idle_ms)
    }
}

/// Whether the registers and the sources of a viewer can be asked for all that a sample needs.
pub open spec fn can_be_sampled<R: Fn(Register) -> u32, H: Fn() -> u32, P, A: Fn(u8) -> u16>(
    viewer: GpioViewer<H, P, A>,
    chip: Chip,
    read_register: R,
) -> bool {
    &&& sources_accept(chip, viewer.pins@, read_register, viewer.analog_source)
    &&& viewer.free_heap_source matches Some(read_heap) ==> call_requires(read_heap, ())
}

/// Whether the readings, one for each registered pin, and the free heap can be read from the
/// viewer now.
pub open spec fn is_sample<R: Fn(Register) -> u32, H: Fn() -> u32, P, A: Fn(u8) -> u16>(
    viewer: GpioViewer<H, P, A>,
    chip: Chip,
    read_register: R,
    readings: Seq<PinReading>,
    heap: u32,
) -> bool {
    &&& readings.len() == viewer.pins@.len()
    &&& forall|i: int|
        0 <= i < readings.len() ==> reader::shows(
            chip,
            viewer.pins@[i],
            read_register,
            viewer.analog_source,
            #[trigger] readings[i],
        )
    &&& heap_reads_as(viewer.free_heap_source, heap)
}

/// A sampler has room for the raw values of all pins that can be registered.
pub proof fn every_pin_is_remembered(sampler: Sampler)
    ensures
        sampler.previous().len() == MAX_REGISTERED_PINS,
{
}

/// There are no more changes than pins compared.
pub proof fn lemma_changes_len(
    pins: Seq<RegisteredPin>,
    readings: Seq<PinReading>,
    previous: Seq<u32>,
    count: nat,
)
    ensures
        changes_among(pins, readings, previous, count).len() <= count,
    decreases count,
{
    if count > 0 {
        lemma_changes_len(pins, readings, previous, (count - 1) as nat);
    }
}

/// No more is sent than there are pins, so a list of [`MAX_REGISTERED_PINS`] holds all of it.
pub proof fn changes_are_no_more_than_pins(
    pins: Seq<RegisteredPin>,
    readings: Seq<PinReading>,
    previous: Seq<u32>,
)
    ensures
        changes(pins, readings, previous).len() <= pins.len(),
{
    lemma_changes_len(pins, readings, previous, comparable(pins, readings, previous));
}

/// Readings that show no new raw value give no change.
proof fn lemma_no_changes(
    pins: Seq<RegisteredPin>,
    readings: Seq<PinReading>,
    previous: Seq<u32>,
    count: nat,
)
    requires
        forall|i: int| 0 <= i < count ==> (#[trigger] readings[i]).raw == previous[i],
    ensures
        changes_among(pins, readings, previous, count) == Seq::<PinChange>::empty(),
    decreases count,
{
    if count > 0 {
        lemma_no_changes(pins, readings, previous, (count - 1) as nat);
    }
}

/// A change is sent once: comparing the same readings again gives nothing.
pub proof fn changes_are_sent_once(
    pins: Seq<RegisteredPin>,
    readings: Seq<PinReading>,
    previous: Seq<u32>,
)
    ensures
        changes(
            pins,
            readings,
            updated(readings, previous, comparable(pins, readings, previous)),
        ) == Seq::<PinChange>::empty(),
{
    let count = comparable(pins, readings, previous);
    let next = updated(readings, previous, count);
    lemma_no_changes(pins, readings, next, count);
}

/// A sampler reports only what has changed since it was primed: the readings that it was primed
/// with give no change.
pub proof fn priming_reports_nothing(pins: Seq<RegisteredPin>, readings: Seq<PinReading>)
    ensures
        changes(
            pins,
            readings,
            updated(
                readings,
                Seq::new(MAX_REGISTERED_PINS as nat, |i: int| 0u32),
                readings.len(),
            ),
        ) == Seq::<PinChange>::empty(),
{
    let zeros = Seq::new(MAX_REGISTERED_PINS as nat, |i: int| 0u32);
    let previous = updated(readings, zeros, readings.len());
    lemma_no_changes(pins, readings, previous, comparable(pins, readings, previous));
}

/// Whether the positions are in ascending order and below `count`.
pub open spec fn ascending_below(positions: Seq<int>, count: nat) -> bool {
    &&& forall|i: int, j: int| 0 <= i < j < positions.len() ==> positions[i] < positions[j]
    &&& forall|i: int| 0 <= i < positions.len() ==> 0 <= #[trigger] positions[i] < count
}

/// Whether `sent` is what is sent about the pins at `positions`.
pub open spec fn sent_about(
    pins: Seq<RegisteredPin>,
    readings: Seq<PinReading>,
    positions: Seq<int>,
    sent: Seq<PinChange>,
) -> bool {
    &&& sent.len() == positions.len()
    &&& forall|i: int|
        0 <= i < sent.len() ==> #[trigger] sent[i] == change_of(
            pins[positions[i]],
            readings[positions[i]],
        )
}

/// The changes that are sent are exactly those of the pins whose raw value has changed, each
/// once, in the order of registration.
pub proof fn exactly_the_changed_pins_are_sent(
    pins: Seq<RegisteredPin>,
    readings: Seq<PinReading>,
    previous: Seq<u32>,
)
    ensures
        exists|positions: Seq<int>|
            {
                &&& ascending_below(positions, comparable(pins, readings, previous))
                &&& forall|i: int|
                    0 <= i < comparable(pins, readings, previous) ==> (positions.contains(i)
                        <==> (#[trigger] readings[i]).raw != previous[i])
                &&& #[trigger] sent_about(
                    pins,
                    readings,
                    positions,
                    changes(pins, readings, previous),
                )
            },
{
    let count = comparable(pins, readings, previous);
    let positions = lemma_changed_positions(pins, readings, previous, count);
    assert(sent_about(pins, readings, positions, changes(pins, readings, previous)));
}

/// The positions of the changed pins among the first `count`.
proof fn lemma_changed_positions(
    pins: Seq<RegisteredPin>,
    readings: Seq<PinReading>,
    previous: Seq<u32>,
    count: nat,
) -> (positions: Seq<int>)
    ensures
        ascending_below(positions, count),
        forall|i: int|
            0 <= i < count ==> (positions.contains(i) <==> (#[trigger] readings[i]).raw
                != previous[i]),
        sent_about(
            pins,
            readings,
            positions,
            changes_among(pins, readings, previous, count),
        ),
    decreases count,
{
    if count == 0 {
        Seq::empty()
    } else {
        let last = count - 1;
        let before = lemma_changed_positions(pins, readings, previous, last as nat);
        if readings[last].raw != previous[last] {
            let positions = before.push(last);
            assert(positions[before.len() as int] == last);
            assert forall|i: int| 0 <= i < count implies (positions.contains(i) <==> (
            #[trigger] readings[i]).raw != previous[i]) by {
                if i < last {
                    if before.contains(i) {
                        let at = choose|at: int| 0 <= at < before.len() && before[at] == i;
                        assert(positions[at] == i);
                    }
                    if positions.contains(i) {
                        let at = choose|at: int| 0 <= at < positions.len() && positions[at] == i;
                        assert(before[at] == i);
                    }
                }
            }
            positions
        } else {
            assert(!before.contains(last));
            before
        }
    }
}

} // verus!
