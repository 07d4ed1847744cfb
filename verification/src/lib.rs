//! Building blocks for programming a Volca Sample over its audio input.
//!
//! A [`SyroStream`] collects what should be written to the sampler's memory:
//! sample audio, sample erasures, sequencer patterns, or a whole memory image.
//! [`SyroStream::generate`] turns the collection into a [`session::Session`],
//! which tells its driver, one request at a time, what to ask of the audio
//! encoding engine and folds the engine's replies into the final PCM buffer.
//!
//! The [`pattern`] module holds the sequencer pattern record and its builder;
//! [`bounds`] holds the table of valid ranges that every setter checks against.
pub mod bounds;
pub mod bytes;
pub mod error;
pub mod pattern;
pub mod session;
pub mod stream;
pub mod unit;

pub use error::check_syro_status;
pub use error::EngineStatus;
pub use error::SyroError;
pub use stream::SyroStream;
pub use unit::convert_data;
pub use unit::DataKind;
pub use unit::DataUnit;
