//! A local process bridge between a browser-style native-messaging channel
//! and the raw standard streams of an embedded terminal subprocess.
//!
//! The host side of the bridge speaks length-prefixed, JSON-enveloped
//! messages; the subprocess side speaks an unframed byte stream.  The crate
//! holds the framing codec, the two single-direction pump algorithms, and
//! the path and manifest computations of the installer; the process
//! spawning and the real stream reads and writes live outside it.

pub mod codec;
pub mod endian;
pub mod envelope;
pub mod install;
pub mod pump;
