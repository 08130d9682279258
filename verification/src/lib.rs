//! Hardware abstraction for software-defined radios.
//!
//! The crate holds the rules of the abstraction, each with a proved
//! contract, and leaves the hardware to its caller:
//!
//! - [`args`]: device arguments, `key1=value1, key2=value2`, with typed
//!   reading through [`value`];
//! - [`range`]: the legal values of a tunable parameter;
//! - [`streamer`]: the activity states of a stream, deferred activation,
//!   and writes that must go out whole;
//! - [`registry`]: which backends to ask, and which of the units found a
//!   filter picks;
//! - [`impls`]: the backends, of which [`impls::bladerf1`] decides what to
//!   ask of a bladeRF for each request.
//!
//! Frequencies are in Hz, rates in samples per second, gains in dB, all as
//! whole numbers.

pub mod args;
pub mod device;
pub mod error;
pub mod impls;
pub mod range;
pub mod registry;
pub mod streamer;
pub mod text;
pub mod value;

pub use args::Args;
pub use device::{Direction, Driver};
pub use error::Error;
pub use impls::bladerf1::{BladeRf, RxStreamer, TxStreamer};
pub use range::{Range, RangeItem};
pub use registry::Registry;
pub use value::ArgValue;
