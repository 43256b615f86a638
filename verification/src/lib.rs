//! The core of a GPIO viewer for the ESP32: an HTTP server on the device streams the state of its
//! pins to a browser, whose user interface is hosted elsewhere.
//!
//! The library holds everything that can be decided without hardware or network: the bodies and
//! events that the user interface expects byte for byte ([`protocol`]), how readings are scaled
//! ([`value`]), which registers are read and what they mean ([`reader`]), which pins have changed
//! and which frames are sent ([`sampler`]), and how requests are read, routed and answered
//! ([`http`], [`server`]). [`viewer`] holds the configuration. Every function is verified against
//! its contract, and the public proof functions state what holds across functions.
//!
//! Nothing is allocated: texts and lists live in buffers of fixed capacity ([`fixed`]), which keep
//! as much as fits. [`capacity`] shows what always does, and [`laws`] what the operations are for.

pub mod capabilities;
pub mod capacity;
pub mod fixed;
pub mod http;
pub mod hwinfo;
pub mod laws;
pub mod pin;
pub mod protocol;
pub mod reader;
pub mod sampler;
pub mod server;
pub mod text;
pub mod value;
pub mod viewer;
mod writer;

pub use pin::{PinMode, PinType, RegisteredPin};
pub use value::{map_value, PinReading};
pub use viewer::{
    AnalogSource, GpioViewer, GpioViewerBuilder, DEFAULT_PORT, DEFAULT_RELEASE,
    DEFAULT_SAMPLING_INTERVAL_MS, MAX_REGISTERED_PINS,
};
