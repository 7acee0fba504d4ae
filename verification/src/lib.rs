//! A terminal client for servers that speak the raw filesystem API: the
//! navigation and rendering engine.
//!
//! The library computes; the program around it reads keys, talks to the
//! server and writes to the terminal.
//!
//! The library's own functions are verified against their contracts. What
//! it has from the `url`, `time`, `itertools`, `tabwriter` and `rfsapi`
//! crates, and from `std` where it is not specified, it calls through
//! wrappers whose contracts are trusted, not proved: each says so where it
//! stands.

pub mod location;
pub mod ops;
mod options;
pub mod text;
pub mod timestamp;
pub mod util;

pub use self::options::Options;
