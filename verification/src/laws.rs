//! What the operations are for, stated over their calls.
//!
//! Each law speaks of arguments and results of public functions, in terms of numbers, bytes and
//! characters: what a result must satisfy, or how two calls relate.

pub mod answers;
pub mod buffers;
pub mod configuration;
pub mod readings;
pub mod requests;
pub mod sampling;
pub mod texts;
