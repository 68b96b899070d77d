//! The reordering window: the buffer of a sample builder together with its
//! cursor, its limits and its drop counter, without the depacketizer.

use std::collections::VecDeque;
use vstd::prelude::*;
use crate::duration::MediaDuration;
use crate::model::{
    given_up, holes, is_run, lemma_next_filled_before, lemma_run_end_is_closed_run, next_filled, run_end,
    Entry, RunView, State,
};
use crate::packet::Packet;
use crate::sequence::{seq_advance, seq_distance, timestamp_distance, HALF_SPACE};

verus! {

/// One buffered packet with the two answers that a depacketizer gave of it.
struct Buffered {
    timestamp: u32,
    head: bool,
    tail: bool,
    payload: Vec<u8>,
}

/// The model of a buffered packet.
spec fn entry_of(b: Buffered) -> Entry {
    Entry { timestamp: b.timestamp, head: b.head, tail: b.tail, payload: b.payload@ }
}

/// The model of one slot of the buffer.
spec fn slot_view(slot: Option<Buffered>) -> Option<Entry> {
    match slot {
        Some(b) => Some(entry_of(b)),
        None => None,
    }
}

/// The model of a row of slots.
spec fn slots_view(slots: Seq<Option<Buffered>>) -> Seq<Option<Entry>> {
    Seq::new(slots.len(), |k: int| slot_view(slots[k]))
}

/// The packets of one complete sample, in sequence order, with what the
/// sample will say of them.
#[derive(Clone, Debug)]
pub struct Run {
    pub payloads: Vec<Vec<u8>>,
    pub packet_timestamp: u32,
    pub duration: MediaDuration,
    pub prev_dropped_packets: u16,
}

impl View for Run {
    type V = RunView;

    open spec fn view(&self) -> RunView {
        RunView {
            payloads: Seq::new(self.payloads@.len(), |k: int| self.payloads@[k]@),
            packet_timestamp: self.packet_timestamp,
            duration: self.duration,
            prev_dropped_packets: self.prev_dropped_packets,
        }
    }
}

/// The model of what a poll hands out.
pub open spec fn run_view(run: Option<Run>) -> Option<RunView> {
    match run {
        Some(r) => Some(r@),
        None => None,
    }
}

/// Puts `slot` in place of the slot at index `i`.
fn replace_slot(slots: &mut VecDeque<Option<Buffered>>, i: usize, slot: Option<Buffered>)
    requires
        i < old(slots)@.len(),
    ensures
        final(slots)@ == old(slots)@.update(i as int, slot),
{
    let _ = slots.remove(i);
    slots.insert(i, slot);
}

/// Appends `count` empty slots and then `slot`.
fn extend_slots(slots: &mut VecDeque<Option<Buffered>>, count: usize, slot: Option<Buffered>)
    ensures
        final(slots)@ == (old(slots)@ + Seq::new(count as nat, |k: int| None::<Buffered>)).push(
            slot,
        ),
{
    let mut i: usize = 0;
    while i < count
        invariant
            i <= count,
            slots@ == old(slots)@ + Seq::new(i as nat, |k: int| None::<Buffered>),
        decreases count - i,
    {
        slots.push_back(None);
        i += 1;
    }
    slots.push_back(slot);
}

/// Index of the first buffered slot at or after `from`, or the number of
/// slots where there is none.
fn first_filled(slots: &VecDeque<Option<Buffered>>, from: usize) -> (i: usize)
    ensures
        i == next_filled(slots_view(slots@), from as int),
        i <= slots@.len(),
        i < slots@.len() ==> slots@[i as int] is Some,
{
    let mut i: usize = from;
    while i < slots.len()
        invariant
            from <= i,
            next_filled(slots_view(slots@), from as int)
                == next_filled(slots_view(slots@), i as int),
        decreases slots@.len() - i,
    {
        if slots[i].is_some() {
            return i;
        }
        i += 1;
    }
    slots.len()
}

/// Index at which the run with timestamp `ts` that starts at slot 0 is known
/// to end, if it is.
fn scan_run(slots: &VecDeque<Option<Buffered>>, ts: u32) -> (r: Option<usize>)
    ensures
        match r {
            Some(n) => run_end(slots_view(slots@), ts, 0) == Some(n as int) && n
                <= slots@.len(),
            None => run_end(slots_view(slots@), ts, 0) is None,
        },
{
    let mut i: usize = 0;
    while i < slots.len()
        invariant
            run_end(slots_view(slots@), ts, 0) == run_end(
                slots_view(slots@),
                ts,
                i as int,
            ),
        decreases slots@.len() - i,
    {
        match &slots[i] {
            None => {
                return None;
            },
            Some(b) => {
                if b.timestamp != ts {
                    return Some(i);
                }
                if b.tail {
                    return Some(i + 1);
                }
            },
        }
        i += 1;
    }
    None
}

/// What a poll does next with the slot at the cursor.
enum Verdict {
    /// The run of this many packets leaves.
    Release(usize),
    /// The slot is given up and counted.
    GiveUp,
    /// Nothing more happens until a packet arrives.
    Wait,
}

/// A bounded window of buffered packets that hands out complete runs.
pub struct PacketWindow {
    max_late: u16,
    max_late_timestamp: u32,
    sample_rate: u32,
    cursor: Option<u16>,
    slots: VecDeque<Option<Buffered>>,
    dropped: u16,
    last_sample_timestamp: Option<u32>,
}

impl View for PacketWindow {
    type V = State;

    closed spec fn view(&self) -> State {
        State {
            max_late: self.max_late,
            max_late_timestamp: self.max_late_timestamp,
            sample_rate: self.sample_rate,
            cursor: self.cursor,
            slots: slots_view(self.slots@),
            dropped: self.dropped,
            last_sample_timestamp: self.last_sample_timestamp,
        }
    }
}

impl PacketWindow {
    /// An empty window that gives packets up once it spans more than
    /// `max_late` positions, on a media clock of `sample_rate` ticks per
    /// second.
    pub fn new(max_late: u16, sample_rate: u32) -> (w: PacketWindow)
        requires
            sample_rate > 0,
        ensures
            w@ == State::init(max_late, sample_rate),
            w@.wf(),
    {
        let w = PacketWindow {
            max_late,
            max_late_timestamp: 0,
            sample_rate,
            cursor: None,
            slots: VecDeque::new(),
            dropped: 0,
            last_sample_timestamp: None,
        };
        assert(w@.slots =~= Seq::empty());
        w
    }
    /// Sets the timestamp limit to the ticks that the media clock makes in
    /// `delay`. A limit of 0 ticks is no limit.
    pub fn with_max_time_delay(self, delay: MediaDuration) -> (w: PacketWindow)
        requires
            self@.wf(),
        ensures
            w@ == self@.with_max_time_delay(delay),
            w@.wf(),
    {
        let ticks = delay.to_ticks(self.sample_rate);
        PacketWindow {
            max_late: self.max_late,
            max_late_timestamp: ticks,
            sample_rate: self.sample_rate,
            cursor: self.cursor,
            slots: self.slots,
            dropped: self.dropped,
            last_sample_timestamp: self.last_sample_timestamp,
        }
    }

    /// The low-water cursor: the first sequence number that is neither
    /// released nor given up, or `None` before the first packet.
    pub fn cursor(&self) -> (c: Option<u16>)
        ensures
            c == self@.cursor,
    {
        self.cursor
    }

    /// Number of sequence positions from the cursor up to the highest
    /// buffered packet.
    pub fn span(&self) -> (n: usize)
        ensures
            n == self@.slots.len(),
    {
        self.slots.len()
    }

    /// Positions given up since the last run left.
    pub fn dropped_packets(&self) -> (n: u16)
        ensures
            n == self@.dropped,
    {
        self.dropped
    }

    /// Timestamp of the last run that left, or `None` before the first.
    pub fn last_sample_timestamp(&self) -> (ts: Option<u32>)
        ensures
            ts == self@.last_sample_timestamp,
    {
        self.last_sample_timestamp
    }

    /// Buffers `packet` together with the answers `head` and `tail` that a
    /// depacketizer gave of its payload. The first packet sets the cursor. A
    /// later packet that lies behind the cursor is ignored.
    pub fn insert(&mut self, packet: Packet, head: bool, tail: bool)
        requires
            old(self)@.wf(),
        ensures
            final(self)@ == old(self)@.insert(
                packet.sequence_number,
                Entry { timestamp: packet.timestamp, head, tail, payload: packet.payload@ },
            ),
            final(self)@.wf(),
    {
        let seq = packet.sequence_number;
        let buffered = Buffered { timestamp: packet.timestamp, head, tail, payload: packet.payload };
        let ghost entry = entry_of(buffered);
        match self.cursor {
            None => {
                self.slots.push_back(Some(buffered));
                self.cursor = Some(seq);
                assert(self@.slots =~= seq![Some(entry)]);
            },
            Some(cursor) => {
                let d = seq_distance(cursor, seq);
                if d >= HALF_SPACE {
                    return ;
                }
                let len = self.slots.len();
                if (d as usize) < len {
                    replace_slot(&mut self.slots, d as usize, Some(buffered));
                    assert(self@.slots =~= old(self)@.slots.update(d as int, Some(entry)));
                } else {
                    extend_slots(&mut self.slots, d as usize - len, Some(buffered));
                    assert(self@.slots =~= (old(self)@.slots + holes(d - len)).push(
                        Some(entry),
                    ));
                }
            },
        }
    }

    /// Whether the window is over one of its two limits.
    pub fn over_budget(&self) -> (b: bool)
        requires
            self@.wf(),
        ensures
            b == self@.over_budget(),
    {
        let len = self.slots.len();
        if len > self.max_late as usize {
            return true;
        }
        if self.max_late_timestamp == 0 || len == 0 {
            return false;
        }
        let first = first_filled(&self.slots, 0);
        proof {
            lemma_next_filled_before(self@.slots, 0, len - 1);
        }
        match (&self.slots[first], &self.slots[len - 1]) {
            (Some(oldest), Some(newest)) => timestamp_distance(oldest.timestamp, newest.timestamp)
                > self.max_late_timestamp,
            _ => false,
        }
    }

    /// Length of the run that may leave at the start of a poll, if there is
    /// one.
    pub fn releasable(&self) -> (r: Option<usize>)
        requires
            self@.wf(),
        ensures
            match r {
                Some(n) => self@.releasable(false) == Some(n as int),
                None => self@.releasable(false) is None,
            },
    {
        match self.judge(false) {
            Verdict::Release(n) => Some(n),
            _ => None,
        }
    }

    /// What a poll does next; `evicting` says whether it has already given a
    /// position up.
    fn judge(&self, evicting: bool) -> (v: Verdict)
        requires
            self@.wf(),
        ensures
            match v {
                Verdict::Release(n) => self@.releasable(evicting) == Some(n as int),
                Verdict::GiveUp => self@.gives_up(evicting),
                Verdict::Wait => self@.releasable(evicting) is None && !self@.gives_up(evicting),
            },
    {
        if self.slots.len() == 0 {
            return Verdict::Wait;
        }
        let over = self.over_budget();
        let (ts, head) = match &self.slots[0] {
            Some(first) => (first.timestamp, first.head),
            None => {
                return if over {
                    Verdict::GiveUp
                } else {
                    Verdict::Wait
                };
            },
        };
        if !head && (over || evicting) {
            return Verdict::GiveUp;
        }
        match scan_run(&self.slots, ts) {
            Some(n) if over || (n < self.slots.len() && self.slots[n].is_some()) => {
                Verdict::Release(n)
            },
            _ => if over {
                Verdict::GiveUp
            } else {
                Verdict::Wait
            },
        }
    }

    /// Gives up the slot at the cursor and counts it as dropped.
    fn discard(&mut self)
        requires
            old(self)@.wf(),
            old(self)@.slots.len() > 0,
        ensures
            final(self)@ == old(self)@.discard(),
            final(self)@.wf(),
    {
        let _ = self.slots.pop_front();
        if let Some(cursor) = self.cursor {
            self.cursor = Some(seq_advance(cursor, 1));
        }
        if self.dropped < u16::MAX {
            self.dropped = self.dropped + 1;
        }
        assert(self@.slots =~= old(self)@.slots.skip(1));
    }

    /// Takes the first `n` slots out as a run and moves the cursor past them.
    fn release(&mut self, n: usize) -> (run: Run)
        requires
            old(self)@.wf(),
            is_run(old(self)@.slots, n as int),
        ensures
            final(self)@ == old(self)@.release(n as int),
            run@ == old(self)@.run(n as int),
            final(self)@.wf(),
    {
        let ts = match &self.slots[0] {
            Some(first) => first.timestamp,
            None => 0,
        };
        let next = first_filled(&self.slots, n);
        let after = if next < self.slots.len() {
            match &self.slots[next] {
                Some(b) => b.timestamp,
                None => ts,
            }
        } else {
            ts
        };
        let duration = MediaDuration::from_ticks(timestamp_distance(ts, after), self.sample_rate);
        let mut payloads: Vec<Vec<u8>> = Vec::new();
        let mut i: usize = 0;
        while i < n
            invariant
                i <= n <= old(self)@.slots.len(),
                is_run(old(self)@.slots, n as int),
                self.slots@ == old(self).slots@.skip(i as int),
                self.cursor == old(self).cursor,
                self.dropped == old(self).dropped,
                self.max_late == old(self).max_late,
                self.max_late_timestamp == old(self).max_late_timestamp,
                self.sample_rate == old(self).sample_rate,
                payloads@.len() == i,
                forall|k: int|
                    0 <= k < i ==> (#[trigger] payloads@[k])@ == old(self)@.slots[k].unwrap().payload,
            decreases n - i,
        {
            assert(old(self)@.slots[i as int] is Some);
            match self.slots.pop_front() {
                Some(Some(b)) => {
                    payloads.push(b.payload);
                },
                _ => {},
            }
            i += 1;
        }
        if let Some(cursor) = self.cursor {
            self.cursor = Some(seq_advance(cursor, n as u16));
        }
        let run = Run {
            payloads,
            packet_timestamp: ts,
            duration,
            prev_dropped_packets: self.dropped,
        };
        self.dropped = 0;
        self.last_sample_timestamp = Some(ts);
        assert(self@.slots =~= old(self)@.slots.skip(n as int));
        assert(run@.payloads =~= old(self)@.run(n as int).payloads);
        run
    }

    /// Polls the window once. Over budget, with no run that may leave, the
    /// slot at the cursor is given up and counted. A poll that has given a
    /// position up goes on past every packet that cannot start a sample, and
    /// stops within budget at an empty slot or at a packet that can. Then the
    /// run at the cursor leaves, if it may.
    pub fn pop_run(&mut self) -> (r: Option<Run>)
        requires
            old(self)@.wf(),
        ensures
            (final(self)@, run_view(r)) == old(self)@.pop(),
            final(self)@.wf(),
            r is Some && (old(self)@.over_budget() || given_up(old(self)@) > 0) ==> old(
                self,
            )@.slots[given_up(old(self)@)].unwrap().head,
    {
        let mut evicting = false;
        loop
            invariant
                old(self)@.wf(),
                self@.wf(),
                self@.poll(evicting) == old(self)@.pop(),
            decreases self@.slots.len(),
        {
            match self.judge(evicting) {
                Verdict::Release(n) => {
                    proof {
                        lemma_run_end_is_closed_run(self@.slots, n as int);
                        crate::laws::released_run_is_closed(old(self)@);
                    }
                    let run = self.release(n);
                    return Some(run);
                },
                Verdict::GiveUp => {
                    self.discard();
                    evicting = true;
                },
                Verdict::Wait => {
                    return None;
                },
            }
        }
    }
}

} // verus!
