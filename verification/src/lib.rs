//! A generative stereo granular engine: the rules by which recordings are
//! weighted, grains are cut and windowed, streams are chunked and mixed, and
//! the playback buffer feeds a pull-based audio callback.
//!
//! Everything here works on whole numbers. The containers of this crate are
//! generic in the type of a sample: samples pass through them untouched, and
//! where samples have to be combined, the caller hands in the function that
//! does it.

pub mod config;
pub mod grain;
pub mod mixer;
pub mod playback;
mod random;
pub mod ringbuf;
pub mod wav;
