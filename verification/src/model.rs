//! The mathematical model of a sample builder.
//!
//! A [`State`] is what a builder holds, written with sequences and integers:
//! the slots from the low-water cursor up to the highest buffered packet, the
//! drop counter and the limits it was made with. The functions here say what
//! every operation of the builder does to it.

use vstd::prelude::*;
use crate::duration::MediaDuration;
use crate::packet::SampleView;
use crate::sequence::{advanced, forward_distance, ticks_between};

verus! {

/// What a builder keeps of one buffered packet.
pub struct Entry {
    /// Media clock of the packet.
    pub timestamp: u32,
    /// Whether a sample can start with this packet.
    pub head: bool,
    /// Whether this packet is the last of its sample.
    pub tail: bool,
    /// Bytes of the packet as received.
    pub payload: Seq<u8>,
}

/// The packets of one complete sample, before their payloads are read.
pub struct RunView {
    /// Payloads of the contributing packets, in sequence order.
    pub payloads: Seq<Seq<u8>>,
    /// Timestamp shared by the contributing packets.
    pub packet_timestamp: u32,
    /// Media time from this run to the next buffered packet.
    pub duration: MediaDuration,
    /// Sequence positions given up since the run before.
    pub prev_dropped_packets: u16,
}

/// Everything a builder holds.
pub struct State {
    /// Most positions that the slots may span before packets are given up.
    pub max_late: u16,
    /// Most ticks that the buffered timestamps may span; zero switches the
    /// limit off.
    pub max_late_timestamp: u32,
    /// Ticks per second of the media clock.
    pub sample_rate: u32,
    /// Low-water cursor: the first position that is neither released nor
    /// given up. `None` until the first packet arrives.
    pub cursor: Option<u16>,
    /// Slot `k` is the position `k` steps after the cursor; the last slot is
    /// the highest buffered packet.
    pub slots: Seq<Option<Entry>>,
    /// Positions given up since the last released run.
    pub dropped: u16,
    /// Timestamp of the last released run.
    pub last_sample_timestamp: Option<u32>,
}

/// The media bytes of a run put together: the parts in order, one after the
/// other, a part that could not be read left out.
pub open spec fn joined(parts: Seq<Option<Seq<u8>>>) -> Seq<u8>
    decreases parts.len(),
{
    if parts.len() == 0 {
        Seq::empty()
    } else {
        joined(parts.drop_last()) + match parts.last() {
            Some(bytes) => bytes,
            None => Seq::empty(),
        }
    }
}

/// The sample made of `run`, given what a depacketizer read out of each of
/// its payloads.
pub open spec fn sample_of(run: RunView, parts: Seq<Option<Seq<u8>>>) -> SampleView {
    SampleView {
        data: joined(parts),
        duration: run.duration,
        packet_timestamp: run.packet_timestamp,
        prev_dropped_packets: run.prev_dropped_packets,
    }
}

/// Whether `sample` is the sample of `run` for the readings `parts`, one for
/// each payload of the run.
pub open spec fn made_of(sample: SampleView, run: RunView, parts: Seq<Option<Seq<u8>>>) -> bool {
    parts.len() == run.payloads.len() && sample == sample_of(run, parts)
}

/// `count` empty slots.
pub open spec fn holes(count: int) -> Seq<Option<Entry>> {
    Seq::new(count as nat, |k: int| None::<Entry>)
}

/// Index of the first buffered slot at or after `from`, or the number of
/// slots where there is none.
pub open spec fn next_filled(slots: Seq<Option<Entry>>, from: int) -> int
    decreases slots.len() - from,
{
    if from < 0 || from >= slots.len() {
        slots.len() as int
    } else if slots[from] is Some {
        from
    } else {
        next_filled(slots, from + 1)
    }
}

/// Scans the slots from index `i` for the end of the run with timestamp
/// `ts`: a packet with another timestamp ends the run before itself, a tail
/// packet ends it with itself, and an empty slot or the end of the slots
/// leaves it open.
pub open spec fn run_end(slots: Seq<Option<Entry>>, ts: u32, i: int) -> Option<int>
    decreases slots.len() - i,
{
    if i < 0 || i >= slots.len() {
        None
    } else {
        match slots[i] {
            None => None,
            Some(e) => if e.timestamp != ts {
                Some(i)
            } else if e.tail {
                Some(i + 1)
            } else {
                run_end(slots, ts, i + 1)
            },
        }
    }
}

/// Whether the first `n` slots are buffered packets of one timestamp of which
/// none but the last may be a tail.
pub open spec fn is_run(slots: Seq<Option<Entry>>, n: int) -> bool {
    &&& 1 <= n <= slots.len()
    &&& forall|k: int| 0 <= k < n ==> (#[trigger] slots[k]) is Some
    &&& forall|k: int| 0 <= k < n ==> (#[trigger] slots[k]).unwrap().timestamp == slots[0].unwrap().timestamp
    &&& forall|k: int| 0 <= k < n - 1 ==> !(#[trigger] slots[k]).unwrap().tail
}

/// Whether the first `n` slots are a run that is known to be complete: its
/// last packet is a tail, or the packet after it has another timestamp.
pub open spec fn is_closed_run(slots: Seq<Option<Entry>>, n: int) -> bool {
    &&& is_run(slots, n)
    &&& {
        ||| slots[n - 1].unwrap().tail
        ||| (n < slots.len() && slots[n] is Some && slots[n].unwrap().timestamp
            != slots[0].unwrap().timestamp)
    }
}

/// The first buffered slot at or after `from` is buffered, lies at or after
/// `from`, and no buffered slot lies between the two.
pub proof fn lemma_next_filled(slots: Seq<Option<Entry>>, from: int)
    requires
        0 <= from,
    ensures
        from <= next_filled(slots, from) || next_filled(slots, from) == slots.len(),
        next_filled(slots, from) <= slots.len(),
        next_filled(slots, from) < slots.len() ==> slots[next_filled(slots, from)] is Some,
        forall|k: int| from <= k < next_filled(slots, from) ==> (#[trigger] slots[k]) is None,
    decreases slots.len() - from,
{
    if from < slots.len() && slots[from] is None {
        lemma_next_filled(slots, from + 1);
    }
}

/// A buffered slot at `at` bounds the first buffered slot from `from` on.
pub proof fn lemma_next_filled_before(slots: Seq<Option<Entry>>, from: int, at: int)
    requires
        0 <= from <= at < slots.len(),
        slots[at] is Some,
    ensures
        from <= next_filled(slots, from) <= at,
{
    lemma_next_filled(slots, from);
}

/// Where the scan from slot `i` ends at `n`, the slots from `i` up to `n` are
/// buffered packets with timestamp `ts`, none but the last of them is a
/// tail, and the run is closed at `n`.
pub proof fn lemma_run_end(slots: Seq<Option<Entry>>, ts: u32, i: int, n: int)
    requires
        0 <= i,
        run_end(slots, ts, i) == Some(n),
    ensures
        i <= n <= slots.len(),
        forall|k: int| i <= k < n ==> (#[trigger] slots[k]) is Some,
        forall|k: int| i <= k < n ==> (#[trigger] slots[k]).unwrap().timestamp == ts,
        forall|k: int| i <= k < n - 1 ==> !(#[trigger] slots[k]).unwrap().tail,
        i < n ==> slots[n - 1].unwrap().tail || (n < slots.len() && slots[n] is Some
            && slots[n].unwrap().timestamp != ts),
        i == n ==> slots[n] is Some && slots[n].unwrap().timestamp != ts,
    decreases slots.len() - i,
{
    let e = slots[i].unwrap();
    if e.timestamp == ts && !e.tail {
        lemma_run_end(slots, ts, i + 1, n);
    }
}

/// The scan from the cursor finds a closed run.
pub proof fn lemma_run_end_is_closed_run(slots: Seq<Option<Entry>>, n: int)
    requires
        slots.len() > 0,
        slots[0] is Some,
        run_end(slots, slots[0].unwrap().timestamp, 0) == Some(n),
    ensures
        is_closed_run(slots, n),
{
    lemma_run_end(slots, slots[0].unwrap().timestamp, 0, n);
}

impl State {
    /// A builder that has seen no packet.
    pub open spec fn init(max_late: u16, sample_rate: u32) -> State {
        State {
            max_late,
            max_late_timestamp: 0,
            sample_rate,
            cursor: None,
            slots: Seq::empty(),
            dropped: 0,
            last_sample_timestamp: None,
        }
    }

    /// What every reachable state satisfies: the slots end with a buffered
    /// packet and span at most half of the sequence space.
    pub open spec fn wf(self) -> bool {
        &&& self.sample_rate > 0
        &&& self.slots.len() <= 32768
        &&& self.slots.len() > 0 ==> self.cursor is Some && self.slots.last() is Some
    }

    /// The same builder with the timestamp limit set to the ticks in `delay`.
    pub open spec fn with_max_time_delay(self, delay: MediaDuration) -> State {
        State { max_late_timestamp: delay.ticks_at(self.sample_rate), ..self }
    }

    /// The state after a packet numbered `seq` has arrived. The first packet
    /// sets the cursor; later a packet behind the cursor is ignored, one
    /// within the slots takes its slot, and one beyond them extends them.
    pub open spec fn insert(self, seq: u16, entry: Entry) -> State {
        match self.cursor {
            None => State { cursor: Some(seq), slots: seq![Some(entry)], ..self },
            Some(cursor) => {
                let d = forward_distance(cursor, seq);
                if d >= 32768 {
                    self
                } else if d < self.slots.len() {
                    State { slots: self.slots.update(d, Some(entry)), ..self }
                } else {
                    State {
                        slots: (self.slots + holes(d - self.slots.len())).push(Some(entry)),
                        ..self
                    }
                }
            },
        }
    }

    /// Ticks from the oldest buffered packet to the newest.
    pub open spec fn timestamp_span(self) -> int {
        let first = next_filled(self.slots, 0);
        if first < self.slots.len() && self.slots.last() is Some {
            ticks_between(
                self.slots[first].unwrap().timestamp,
                self.slots.last().unwrap().timestamp,
            )
        } else {
            0
        }
    }

    /// Whether the buffer is over one of its two limits.
    pub open spec fn over_budget(self) -> bool {
        ||| self.slots.len() > self.max_late
        ||| (self.max_late_timestamp != 0 && self.timestamp_span() > self.max_late_timestamp)
    }

    /// Length of the complete run at the cursor, if there is one.
    pub open spec fn closed_run(self) -> Option<int> {
        if self.slots.len() > 0 && self.slots[0] is Some {
            run_end(self.slots, self.slots[0].unwrap().timestamp, 0)
        } else {
            None
        }
    }

    /// Whether the packet at the cursor can start a sample.
    pub open spec fn head_at_cursor(self) -> bool {
        self.slots.len() > 0 && self.slots[0] is Some && self.slots[0].unwrap().head
    }

    /// Length of the run that may leave now, if there is one; `evicting` says
    /// whether the poll has already given a position up. Within budget a
    /// complete run leaves once the slot after it is buffered. Over budget it
    /// leaves at once. Over budget, and in a poll that has given a position
    /// up, its first packet must be able to start a sample.
    pub open spec fn releasable(self, evicting: bool) -> Option<int> {
        match self.closed_run() {
            Some(n) => if self.over_budget() {
                if self.head_at_cursor() {
                    Some(n)
                } else {
                    None
                }
            } else if n < self.slots.len() && self.slots[n] is Some && (evicting
                ==> self.head_at_cursor()) {
                Some(n)
            } else {
                None
            },
            None => None,
        }
    }

    /// Whether the slot at the cursor is given up now. Over budget it is,
    /// unless a run may leave. Once a poll has given a position up, it goes
    /// on past every buffered packet that cannot start a sample; within
    /// budget it stops at an empty slot and at a packet that can.
    pub open spec fn gives_up(self, evicting: bool) -> bool {
        &&& self.slots.len() > 0
        &&& self.releasable(evicting) is None
        &&& (self.over_budget() || (evicting && self.slots[0] is Some && !self.head_at_cursor()))
    }

    /// The state after the slot at the cursor has been given up.
    pub open spec fn discard(self) -> State {
        State {
            cursor: Some(advanced(self.cursor.unwrap(), 1)),
            slots: self.slots.skip(1),
            dropped: if self.dropped < u16::MAX {
                (self.dropped + 1) as u16
            } else {
                u16::MAX
            },
            ..self
        }
    }

    /// Timestamp of the first buffered packet from slot `n` on, or `ts` where
    /// there is none.
    pub open spec fn timestamp_after(self, n: int, ts: u32) -> u32 {
        let next = next_filled(self.slots, n);
        if 0 <= next < self.slots.len() {
            self.slots[next].unwrap().timestamp
        } else {
            ts
        }
    }

    /// The run made of the first `n` slots.
    pub open spec fn run(self, n: int) -> RunView {
        let ts = self.slots[0].unwrap().timestamp;
        RunView {
            payloads: Seq::new(n as nat, |k: int| self.slots[k].unwrap().payload),
            packet_timestamp: ts,
            duration: MediaDuration::of_ticks(
                ticks_between(ts, self.timestamp_after(n, ts)),
                self.sample_rate as int,
            ),
            prev_dropped_packets: self.dropped,
        }
    }

    /// The state after the first `n` slots have left as a run.
    pub open spec fn release(self, n: int) -> State {
        State {
            cursor: Some(advanced(self.cursor.unwrap(), n)),
            slots: self.slots.skip(n),
            dropped: 0,
            last_sample_timestamp: Some(self.slots[0].unwrap().timestamp),
            ..self
        }
    }

    /// A poll of the builder from the point where it stands: the state after
    /// it and the run that left, if one did; `evicting` says whether the poll
    /// has already given a position up. As long as the slot at the cursor is
    /// to be given up it is, and then the run at the cursor leaves, if it
    /// may.
    pub open spec fn poll(self, evicting: bool) -> (State, Option<RunView>)
        decreases self.slots.len(),
    {
        match self.releasable(evicting) {
            Some(n) => (self.release(n), Some(self.run(n))),
            None => if self.gives_up(evicting) {
                self.discard().poll(true)
            } else {
                (self, None)
            },
        }
    }

    /// One poll of the builder: the state after it and the run that left, if
    /// one did.
    pub open spec fn pop(self) -> (State, Option<RunView>) {
        self.poll(false)
    }
}

/// The drop counter after `more` further positions were given up: it stops
/// at the largest value it can hold.
pub open spec fn counted(dropped: u16, more: int) -> u16 {
    if dropped + more > u16::MAX {
        u16::MAX
    } else {
        (dropped + more) as u16
    }
}

/// Number of packets in what a poll handed out.
pub open spec fn released(run: Option<RunView>) -> int {
    match run {
        Some(r) => r.payloads.len() as int,
        None => 0,
    }
}

/// Number of positions that a poll of `s` gives up before it hands out a run
/// or stops.
pub open spec fn given_up(s: State) -> int {
    s.slots.len() - s.pop().0.slots.len() - released(s.pop().1)
}

} // verus!
