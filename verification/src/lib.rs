//! Reassembly of media samples from transport packets that may arrive
//! reordered, duplicated or not at all.
//!
//! A [`SampleBuilder`] buffers packets by sequence number, decides when the
//! run of packets that share one timestamp is complete, and hands out one
//! [`Sample`] per run. Every function is verified against the mathematical
//! model in [`model`]; the laws that relate several calls are proved in
//! [`laws`].

pub mod sequence;
pub mod duration;
pub mod packet;
pub mod depacketizer;
pub mod model;
pub mod window;
pub mod builder;
pub mod laws;

pub use builder::SampleBuilder;
pub use depacketizer::{DepacketizeError, Depacketizer, FakeDepacketizer};
pub use duration::MediaDuration;
pub use packet::{Packet, Sample};
pub use window::{PacketWindow, Run};
