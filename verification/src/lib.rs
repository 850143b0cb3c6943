//! Verified core of an audio-reactive visualizer: parsing the operator's
//! device selection, negotiating a stream buffer size against a device's
//! advertised configurations, and the bridge that carries per-buffer loudness
//! samples from the audio callback to the polling render loop in production
//! order.
//!
//! Device enumeration, the live stream, and the floating-point reduction and
//! remap live outside this crate; they hand plain values in and take plain
//! values back out.

pub mod bridge;
pub mod negotiate;
pub mod selection;
