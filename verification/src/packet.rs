//! The packets that go into a sample builder and the samples that come out.

use vstd::prelude::*;
use crate::duration::MediaDuration;

verus! {

/// One transport packet as the builder reads it.
#[derive(Clone, Debug, Default, PartialEq, Eq)]
pub struct Packet {
    /// Position of the packet in the stream, cyclic over 65536 values.
    pub sequence_number: u16,
    /// Media clock at capture; all packets of one sample share it.
    pub timestamp: u32,
    /// Transport flag that hints at the last packet of a sample.
    pub marker: bool,
    /// Bytes as received, read only through a depacketizer.
    pub payload: Vec<u8>,
}

/// One reassembled media unit.
#[derive(Clone, Debug, Default, PartialEq, Eq)]
pub struct Sample {
    /// Media bytes of the contributing packets, in sequence order.
    pub data: Vec<u8>,
    /// Media time from this sample to the next buffered packet.
    pub duration: MediaDuration,
    /// Timestamp shared by the contributing packets.
    pub packet_timestamp: u32,
    /// Sequence positions given up between the previous sample and this one.
    pub prev_dropped_packets: u16,
}

/// Mathematical value of a [`Sample`].
pub struct SampleView {
    pub data: Seq<u8>,
    pub duration: MediaDuration,
    pub packet_timestamp: u32,
    pub prev_dropped_packets: u16,
}

impl View for Sample {
    type V = SampleView;

    open spec fn view(&self) -> SampleView {
        SampleView {
            data: self.data@,
            duration: self.duration,
            packet_timestamp: self.packet_timestamp,
            prev_dropped_packets: self.prev_dropped_packets,
        }
    }
}

} // verus!
