//! The sample builder: a reordering window and the depacketizer that reads
//! the packets in it.

use vstd::prelude::*;
use crate::depacketizer::Depacketizer;
use crate::duration::MediaDuration;
use crate::model::{given_up, joined, made_of, sample_of, Entry, State};
use crate::packet::{Packet, Sample};
use crate::window::{PacketWindow, Run};

verus! {

/// The model of what a depacketizer read out of the payloads of a run.
pub open spec fn parts_view(parts: Seq<Option<Vec<u8>>>) -> Seq<Option<Seq<u8>>> {
    Seq::new(
        parts.len(),
        |k: int|
            match parts[k] {
                Some(bytes) => Some(bytes@),
                None => None,
            },
    )
}

/// What the depacketizer `d` says of `packet`.
pub open spec fn classified<D: Depacketizer>(d: D, packet: Packet) -> Entry {
    Entry {
        timestamp: packet.timestamp,
        head: d.partition_head(packet.payload@),
        tail: d.partition_tail(packet.marker, packet.payload@),
        payload: packet.payload@,
    }
}

/// What the depacketizer `d` reads out of each of `payloads`.
pub open spec fn extracted<D: Depacketizer>(d: D, payloads: Seq<Seq<u8>>) -> Seq<Option<Seq<u8>>> {
    Seq::new(payloads.len(), |k: int| d.media(payloads[k]))
}

/// Puts the sample of `run` together from what a depacketizer read out of
/// each of its payloads. A payload that could not be read adds nothing.
pub fn assemble(run: &Run, parts: &Vec<Option<Vec<u8>>>) -> (sample: Sample)
    ensures
        sample@ == sample_of(run@, parts_view(parts@)),
{
    let mut data: Vec<u8> = Vec::new();
    let mut i: usize = 0;
    while i < parts.len()
        invariant
            i <= parts@.len(),
            data@ == joined(parts_view(parts@).take(i as int)),
        decreases parts@.len() - i,
    {
        assert(parts_view(parts@).take(i as int + 1).drop_last() =~= parts_view(parts@).take(
            i as int,
        ));
        match &parts[i] {
            Some(bytes) => {
                data.extend_from_slice(bytes.as_slice());
            },
            None => {
            },
        }
        i += 1;
    }
    assert(parts_view(parts@).take(parts@.len() as int) =~= parts_view(parts@));
    Sample {
        data,
        duration: run.duration,
        packet_timestamp: run.packet_timestamp,
        prev_dropped_packets: run.prev_dropped_packets,
    }
}

/// Buffers packets until the samples they belong to are complete.
pub struct SampleBuilder<D: Depacketizer> {
    window: PacketWindow,
    depacketizer: D,
}

impl<D: Depacketizer> View for SampleBuilder<D> {
    type V = State;

    closed spec fn view(&self) -> State {
        self.window@
    }
}

impl<D: Depacketizer> SampleBuilder<D> {
    /// The depacketizer that the builder consults.
    pub closed spec fn depacketizer(&self) -> D {
        self.depacketizer
    }

    /// A builder that waits for a missing packet until its buffer spans more
    /// than `max_late` sequence positions, reads payloads with
    /// `depacketizer`, and measures time on a media clock of `sample_rate`
    /// ticks per second.
    pub fn new(max_late: u16, depacketizer: D, sample_rate: u32) -> (b: SampleBuilder<D>)
        requires
            sample_rate > 0,
        ensures
            b@ == State::init(max_late, sample_rate),
            b@.wf(),
            b.depacketizer() == depacketizer,
    {
        SampleBuilder { window: PacketWindow::new(max_late, sample_rate), depacketizer }
    }

    /// Makes the builder give packets up as well once the buffered
    /// timestamps span more than the ticks in `max_late_duration`.
    pub fn with_max_time_delay(self, max_late_duration: MediaDuration) -> (b: SampleBuilder<D>)
        requires
            self@.wf(),
        ensures
            b@ == self@.with_max_time_delay(max_late_duration),
            b@.wf(),
            b.depacketizer() == self.depacketizer(),
    {
        SampleBuilder {
            window: self.window.with_max_time_delay(max_late_duration),
            depacketizer: self.depacketizer,
        }
    }

    /// The reordering window of the builder.
    pub fn window(&self) -> (w: &PacketWindow)
        ensures
            w@ == self@,
    {
        &self.window
    }

    /// Buffers `packet`. The depacketizer is asked whether the payload can
    /// start a sample and whether it ends one, and the answers stay with the
    /// packet. A packet that lies behind the cursor is ignored.
    pub fn push(&mut self, packet: Packet)
        requires
            old(self)@.wf(),
        ensures
            final(self)@.wf(),
            final(self).depacketizer() == old(self).depacketizer(),
            exists|head: bool, tail: bool|
                final(self)@ == old(self)@.insert(
                    packet.sequence_number,
                    Entry { timestamp: packet.timestamp, head, tail, payload: packet.payload@ },
                ),
            old(self).depacketizer().exact() ==> final(self)@ == old(self)@.insert(
                packet.sequence_number,
                classified(old(self).depacketizer(), packet),
            ),
    {
        let head = self.depacketizer.is_partition_head(packet.payload.as_slice());
        let tail = self.depacketizer.is_partition_tail(packet.marker, packet.payload.as_slice());
        self.window.insert(packet, head, tail);
    }

    /// Hands out the next complete sample, if there is one. While the buffer
    /// is over budget and no sample can leave, the position at the cursor is
    /// given up and counted. A poll that has given a position up goes on past
    /// every packet that cannot start a sample, so the sample that follows
    /// lost positions starts with a packet that can. The payloads of the
    /// sample are read in sequence order, and one that the depacketizer
    /// rejects adds nothing to it.
    pub fn pop(&mut self) -> (r: Option<Sample>)
        requires
            old(self)@.wf(),
        ensures
            final(self)@.wf(),
            final(self)@ == old(self)@.pop().0,
            r is Some <==> old(self)@.pop().1 is Some,
            r is Some && (old(self)@.over_budget() || given_up(old(self)@) > 0) ==> old(
                self,
            )@.slots[given_up(old(self)@)].unwrap().head,
            r is Some ==> exists|parts: Seq<Option<Seq<u8>>>| #[trigger]
                made_of(r.unwrap()@, old(self)@.pop().1.unwrap(), parts),
            old(self).depacketizer().exact() ==> final(self).depacketizer() == old(
                self,
            ).depacketizer(),
            old(self).depacketizer().exact() && r is Some ==> r.unwrap()@
                == sample_of(
                old(self)@.pop().1.unwrap(),
                extracted(old(self).depacketizer(), old(self)@.pop().1.unwrap().payloads),
            ),
    {
        let run = match self.window.pop_run() {
            Some(run) => run,
            None => {
                return None;
            },
        };
        let mut parts: Vec<Option<Vec<u8>>> = Vec::new();
        let mut i: usize = 0;
        while i < run.payloads.len()
            invariant
                i <= run.payloads@.len(),
                parts@.len() == i,
                self.window@.wf(),
                self.window@ == old(self).window@.pop().0,
                old(self).window@.pop().1 == Some(run@),
                old(self).window@.over_budget() || given_up(old(self).window@) > 0 ==> old(
                    self,
                ).window@.slots[given_up(old(self).window@)].unwrap().head,
                old(self).depacketizer.exact() ==> self.depacketizer == old(self).depacketizer,
                old(self).depacketizer.exact() ==> forall|k: int|
                    0 <= k < i ==> match #[trigger] parts@[k] {
                        Some(bytes) => old(self).depacketizer.media(run.payloads@[k]@) == Some(
                            bytes@,
                        ),
                        None => old(self).depacketizer.media(run.payloads@[k]@) is None,
                    },
            decreases run.payloads@.len() - i,
        {
            let part = match self.depacketizer.depacketize(run.payloads[i].as_slice()) {
                Ok(bytes) => Some(bytes),
                Err(_) => None,
            };
            parts.push(part);
            i += 1;
        }
        let r = Some(assemble(&run, &parts));
        proof {
            assert(made_of(
                r.unwrap()@,
                old(self)@.pop().1.unwrap(),
                parts_view(parts@),
            ));
            if old(self).depacketizer.exact() {
                assert(parts_view(parts@) =~= extracted(old(self).depacketizer, run@.payloads));
            }
        }
        r
    }
}

} // verus!
