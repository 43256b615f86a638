//! The configuration of a viewer: its settings, its pins and the sources that the firmware lends.

use crate::fixed;
use crate::fixed::{FixedString, FixedVec};
use crate::pin::{PinMode, PinType, RegisteredPin};
use crate::text;
use vstd::prelude::*;
use vstd::string::*;

verus! {

/// Maximum number of registered pins.
pub const MAX_REGISTERED_PINS: usize = 48;

/// Default sampling interval in milliseconds.
pub const DEFAULT_SAMPLING_INTERVAL_MS: u32 = 100;

/// Default port of the HTTP server.
pub const DEFAULT_PORT: u16 = 8080;

/// Default protocol release.
pub const DEFAULT_RELEASE: &'static str = "1.7.1";

/// Capacity of the release string, in bytes.
pub const RELEASE_CAP: usize = 32;

/// A function of the firmware that reads one ADC pin: it takes the GPIO number and returns the
/// raw 12-bit sample.
pub type AnalogSource = fn(u8) -> u16;

/// A configured viewer.
///
/// The library owns neither an allocator nor an ADC driver. The firmware lends it functions that
/// read them: `H` reads the free heap, `P` the free PSRAM and `A` an ADC pin.
#[verifier::reject_recursive_types(H)]
#[verifier::reject_recursive_types(P)]
#[verifier::reject_recursive_types(A)]
pub struct GpioViewer<H = fn() -> u32, P = fn() -> u32, A = AnalogSource> {
    /// Sampling interval in milliseconds.
    pub sampling_interval_ms: u32,
    /// Port of the HTTP server.
    pub port: u16,
    /// Protocol release served at `/release`.
    pub release: FixedString<RELEASE_CAP>,
    /// The registered pins, in the order of registration.
    pub pins: FixedVec<RegisteredPin, MAX_REGISTERED_PINS>,
    /// Reads the free heap in bytes. Without it the free heap is reported as zero.
    pub free_heap_source: Option<H>,
    /// Reads the free PSRAM in bytes. Without it the board is reported to have none.
    pub free_psram_source: Option<P>,
    /// Reads an ADC pin. Without it analog pins read as zero.
    pub analog_source: Option<A>,
}

/// The pairs of GPIO number and mode number of the registered pins.
pub open spec fn pinmode_pairs_of(pins: Seq<RegisteredPin>) -> Seq<(u8, u32)> {
    pins.map_values(|registered: RegisteredPin| (registered.pin, registered.mode.spec_to_int()))
}

impl<H, P, A> GpioViewer<H, P, A> {
    /// Whether two viewers have the same settings, pins and sources.
    pub open spec fn same_as(self, other: Self) -> bool {
        &&& self.sampling_interval_ms == other.sampling_interval_ms
        &&& self.port == other.port
        &&& self.release@ == other.release@
        &&& self.pins@ == other.pins@
        &&& self.free_heap_source == other.free_heap_source
        &&& self.free_psram_source == other.free_psram_source
        &&& self.analog_source == other.analog_source
    }

    /// Start with the default settings.
    pub fn builder() -> (r: GpioViewerBuilder<H, P, A>)
        ensures
            r.has_defaults(),
    {
        GpioViewerBuilder::new()
    }

    /// The registered pins as pairs of GPIO number and mode number.
    pub fn pinmode_pairs(&self) -> (r: FixedVec<(u8, u32), MAX_REGISTERED_PINS>)
        ensures
            r@ == pinmode_pairs_of(self.pins@),
    {
        let mut pairs = FixedVec::new();
        let pins = self.pins.as_slice();
        for index in 0..pins.len()
            invariant
                pins@ == self.pins@,
                pins@.len() <= MAX_REGISTERED_PINS,
                pairs@ == pinmode_pairs_of(pins@.take(index as int)),
        {
            let registered = &pins[index];
            let _ = pairs.push((registered.pin, registered.mode.to_int()));
            assert(pinmode_pairs_of(pins@.take(index + 1)) =~= pinmode_pairs_of(
                pins@.take(index as int),
            ).push((pins@[index as int].pin, pins@[index as int].mode.spec_to_int())));
        }
        assert(pins@.take(pins@.len() as int) =~= self.pins@);
        pairs
    }
}

impl<H: Copy, P: Copy, A: Copy> Clone for GpioViewer<H, P, A> {
    fn clone(&self) -> (r: Self)
        ensures
            r.same_as(*self),
    {
        GpioViewer {
            sampling_interval_ms: self.sampling_interval_ms,
            port: self.port,
            release: self.release.clone(),
            pins: self.pins.clone(),
            free_heap_source: self.free_heap_source,
            free_psram_source: self.free_psram_source,
            analog_source: self.analog_source,
        }
    }
}

/// Puts a [`GpioViewer`] together.
#[verifier::reject_recursive_types(H)]
#[verifier::reject_recursive_types(P)]
#[verifier::reject_recursive_types(A)]
pub struct GpioViewerBuilder<H = fn() -> u32, P = fn() -> u32, A = AnalogSource> {
    viewer: GpioViewer<H, P, A>,
}

/// What the registry holds after one more registration: the pin is added at the end, or ignored
/// if the registry is full.
pub open spec fn registered_behind(pins: Seq<RegisteredPin>, pin: RegisteredPin) -> Seq<
    RegisteredPin,
> {
    if pins.len() < MAX_REGISTERED_PINS {
        pins.push(pin)
    } else {
        pins
    }
}

impl<H, P, A> GpioViewerBuilder<H, P, A> {
    /// The viewer as configured so far.
    pub closed spec fn configured(&self) -> GpioViewer<H, P, A> {
        self.viewer
    }

    /// Whether nothing has been configured yet.
    pub open spec fn has_defaults(&self) -> bool {
        &&& self.configured().sampling_interval_ms == DEFAULT_SAMPLING_INTERVAL_MS
        &&& self.configured().port == DEFAULT_PORT
        &&& self.configured().release@ == DEFAULT_RELEASE@
        &&& self.configured().pins@ == Seq::<RegisteredPin>::empty()
        &&& self.configured().free_heap_source is None
        &&& self.configured().free_psram_source is None
        &&& self.configured().analog_source is None
    }

    /// Start with the default settings.
    pub fn new() -> (r: Self)
        ensures
            r.has_defaults(),
    {
        let release = FixedString::clipped(DEFAULT_RELEASE);
        proof {
            reveal_strlit("1.7.1");
            text::lemma_utf8_len_ascii(DEFAULT_RELEASE@);
            text::lemma_clip_fits(DEFAULT_RELEASE@, RELEASE_CAP as nat);
        }
        GpioViewerBuilder {
            viewer: GpioViewer {
                sampling_interval_ms: DEFAULT_SAMPLING_INTERVAL_MS,
                port: DEFAULT_PORT,
                release,
                pins: FixedVec::new(),
                free_heap_source: None,
                free_psram_source: None,
                analog_source: None,
            },
        }
    }

    /// Set the sampling interval in milliseconds.
    pub fn sampling_interval_ms(self, sampling_interval_ms: u32) -> (r: Self)
        ensures
            r.configured() == (GpioViewer { sampling_interval_ms, ..self.configured() }),
    {
        let mut viewer = self.viewer;
        viewer.sampling_interval_ms = sampling_interval_ms;
        GpioViewerBuilder { viewer }
    }

    /// Set the port of the HTTP server.
    pub fn port(self, port: u16) -> (r: Self)
        ensures
            r.configured() == (GpioViewer { port, ..self.configured() }),
    {
        let mut viewer = self.viewer;
        viewer.port = port;
        GpioViewerBuilder { viewer }
    }

    /// Set the release string. It is truncated to [`RELEASE_CAP`] bytes.
    pub fn release(self, release: &str) -> (r: Self)
        ensures
            r.configured().release@ == text::clip(release@, RELEASE_CAP as nat),
            r.configured() == (GpioViewer {
                release: r.configured().release,
                ..self.configured()
            }),
    {
        let mut viewer = self.viewer;
        viewer.release = FixedString::clipped(release);
        GpioViewerBuilder { viewer }
    }

    /// Add a pin to the registry, if there is room for it.
    fn with_pin(self, pin: RegisteredPin) -> (r: Self)
        ensures
            r.configured().pins@ == registered_behind(self.configured().pins@, pin),
            r.configured() == (GpioViewer { pins: r.configured().pins, ..self.configured() }),
    {
        let mut viewer = self.viewer;
        let _ = viewer.pins.push(pin);
        GpioViewerBuilder { viewer }
    }

    /// Register a pin. Ignored if the registry is full.
    ///
    /// A PWM pin registered this way has no channel and no resolution, so it reads as zero; see
    /// [`Self::pwm`].
    pub fn register(self, pin: u8, mode: PinMode, pin_type: PinType) -> (r: Self)
        ensures
            r.configured().pins@ == registered_behind(
                self.configured().pins@,
                (RegisteredPin {
                    pin,
                    mode,
                    pin_type,
                    pwm_channel: None,
                    pwm_resolution_bits: None,
                }),
            ),
            r.configured() == (GpioViewer { pins: r.configured().pins, ..self.configured() }),
    {
        self.with_pin(
            RegisteredPin { pin, mode, pin_type, pwm_channel: None, pwm_resolution_bits: None },
        )
    }

    /// Register a PWM output on an LEDC channel with a resolution of `resolution_bits`. Ignored
    /// if the registry is full.
    pub fn pwm(self, pin: u8, channel: u8, resolution_bits: u8) -> (r: Self)
        ensures
            r.configured().pins@ == registered_behind(
                self.configured().pins@,
                (RegisteredPin {
                    pin,
                    mode: PinMode::Output,
                    pin_type: PinType::Pwm,
                    pwm_channel: Some(channel),
                    pwm_resolution_bits: Some(resolution_bits),
                }),
            ),
            r.configured() == (GpioViewer { pins: r.configured().pins, ..self.configured() }),
    {
        self.with_pin(
            RegisteredPin {
                pin,
                mode: PinMode::Output,
                pin_type: PinType::Pwm,
                pwm_channel: Some(channel),
                pwm_resolution_bits: Some(resolution_bits),
            },
        )
    }

    /// Register an analog input, read through [`Self::analog_source`]. Ignored if the registry
    /// is full.
    pub fn adc(self, pin: u8) -> (r: Self)
        ensures
            r.configured().pins@ == registered_behind(
                self.configured().pins@,
                (RegisteredPin {
                    pin,
                    mode: PinMode::Analog,
                    pin_type: PinType::Analog,
                    pwm_channel: None,
                    pwm_resolution_bits: None,
                }),
            ),
            r.configured() == (GpioViewer { pins: r.configured().pins, ..self.configured() }),
    {
        self.with_pin(
            RegisteredPin {
                pin,
                mode: PinMode::Analog,
                pin_type: PinType::Analog,
                pwm_channel: None,
                pwm_resolution_bits: None,
            },
        )
    }

    /// Set the function that reads an ADC pin.
    pub fn analog_source(self, source: A) -> (r: Self)
        ensures
            r.configured() == (GpioViewer { analog_source: Some(source), ..self.configured() }),
    {
        let mut viewer = self.viewer;
        viewer.analog_source = Some(source);
        GpioViewerBuilder { viewer }
    }

    /// Set the function that reads the free heap.
    pub fn free_heap_source(self, source: H) -> (r: Self)
        ensures
            r.configured() == (GpioViewer { free_heap_source: Some(source), ..self.configured() }),
    {
        let mut viewer = self.viewer;
        viewer.free_heap_source = Some(source);
        GpioViewerBuilder { viewer }
    }

    /// Set the function that reads the free PSRAM.
    pub fn free_psram_source(self, source: P) -> (r: Self)
        ensures
            r.configured() == (GpioViewer { free_psram_source: Some(source), ..self.configured() }),
    {
        let mut viewer = self.viewer;
        viewer.free_psram_source = Some(source);
        GpioViewerBuilder { viewer }
    }

    /// The viewer as configured.
    pub fn build(self) -> (r: GpioViewer<H, P, A>)
        ensures
            r == self.configured(),
    {
        self.viewer
    }
}

impl<H: Copy, P: Copy, A: Copy> Clone for GpioViewerBuilder<H, P, A> {
    fn clone(&self) -> (r: Self)
        ensures
            r.configured().same_as(self.configured()),
    {
        GpioViewerBuilder { viewer: self.viewer.clone() }
    }
}

impl<H, P, A> Default for GpioViewerBuilder<H, P, A> {
    fn default() -> (r: Self)
        ensures
            r.has_defaults(),
    {
        Self::new()
    }
}

/// What the registry holds after registering some pins one after the other.
pub open spec fn registered_all(pins: Seq<RegisteredPin>) -> Seq<RegisteredPin>
    decreases pins.len(),
{
    if pins.len() == 0 {
        Seq::empty()
    } else {
        registered_behind(registered_all(pins.drop_last()), pins.last())
    }
}

/// The registry keeps the first [`MAX_REGISTERED_PINS`] pins in the order of registration, and
/// ignores all others.
pub proof fn registry_keeps_the_first_pins(pins: Seq<RegisteredPin>)
    ensures
        registered_all(pins) == fixed::first_items(pins, MAX_REGISTERED_PINS as nat),
    decreases pins.len(),
{
    if pins.len() == 0 {
        assert(pins =~= Seq::empty());
    } else {
        let front = pins.drop_last();
        registry_keeps_the_first_pins(front);
        if front.len() < MAX_REGISTERED_PINS {
            assert(front.push(pins.last()) =~= pins);
        } else {
            assert(front.take(MAX_REGISTERED_PINS as int) =~= pins.take(
                MAX_REGISTERED_PINS as int,
            ));
            assert(fixed::first_items(front, MAX_REGISTERED_PINS as nat) =~= pins.take(
                MAX_REGISTERED_PINS as int,
            ));
        }
    }
}

} // verus!
