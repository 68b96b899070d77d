//! What holds of a sample builder over any sequence of calls, proved of the
//! model that every method is verified against.

use vstd::prelude::*;
use crate::duration::MediaDuration;
use crate::model::{
    counted, given_up, is_closed_run, is_run, joined, lemma_run_end, released, run_end, Entry,
    RunView, State,
};
use crate::sequence::{advanced, forward_distance, lies_behind};

verus! {

/// The scan from slot `i` of a closed run of length `n` ends at `n`.
proof fn lemma_closed_run_scan(slots: Seq<Option<Entry>>, n: int, i: int)
    requires
        is_closed_run(slots, n),
        0 <= i < n,
    ensures
        run_end(slots, slots[0].unwrap().timestamp, i) == Some(n),
    decreases n - i,
{
    let ts = slots[0].unwrap().timestamp;
    if i < n - 1 {
        lemma_closed_run_scan(slots, n, i + 1);
    } else if !slots[i].unwrap().tail {
        assert(run_end(slots, ts, n) == Some(n));
    }
}

/// Going forward by `a` and then by `b` is going forward by `a + b`.
proof fn lemma_advanced_twice(seq: u16, a: int, b: int)
    requires
        0 <= a,
        0 <= b,
    ensures
        advanced(advanced(seq, a), b) == advanced(seq, a + b),
{
}

/// A step forward of less than the whole sequence space is the forward
/// distance between its two ends.
proof fn lemma_distance_of_advanced(seq: u16, by: int)
    requires
        0 <= by < 65536,
    ensures
        forward_distance(seq, advanced(seq, by)) == by,
{
}

/// The bytes of a sample are the readings of its payloads, one after the
/// other in sequence order, wherever every payload could be read.
pub proof fn sample_data_is_concatenation(parts: Seq<Option<Seq<u8>>>)
    requires
        forall|k: int| 0 <= k < parts.len() ==> (#[trigger] parts[k]) is Some,
    ensures
        joined(parts) == Seq::new(parts.len(), |k: int| parts[k].unwrap()).flatten(),
    decreases parts.len(),
{
    let read = Seq::new(parts.len(), |k: int| parts[k].unwrap());
    read.lemma_flatten_and_flatten_alt_are_equivalent();
    if parts.len() > 0 {
        let front = Seq::new(parts.drop_last().len(), |k: int| parts.drop_last()[k].unwrap());
        sample_data_is_concatenation(parts.drop_last());
        front.lemma_flatten_and_flatten_alt_are_equivalent();
        assert(read.drop_last() =~= front);
    }
}

/// A payload that could not be read adds nothing to a sample, and one that
/// could adds its reading at the end.
pub proof fn sample_data_grows_by_part(parts: Seq<Option<Seq<u8>>>, part: Option<Seq<u8>>)
    ensures
        joined(parts.push(part)) == match part {
            Some(bytes) => joined(parts) + bytes,
            None => joined(parts),
        },
{
    assert(parts.push(part).drop_last() =~= parts);
}

/// Buffering a packet keeps the state well formed.
pub proof fn insert_keeps_well_formed(s: State, seq: u16, entry: Entry)
    requires
        s.wf(),
    ensures
        s.insert(seq, entry).wf(),
{
}

/// A poll from any point keeps the state well formed and leaves the limits
/// as they were.
proof fn lemma_poll_keeps_well_formed(s: State, evicting: bool)
    requires
        s.wf(),
    ensures
        s.poll(evicting).0.wf(),
        s.poll(evicting).0.max_late == s.max_late,
        s.poll(evicting).0.max_late_timestamp == s.max_late_timestamp,
        s.poll(evicting).0.sample_rate == s.sample_rate,
        s.cursor is Some ==> s.poll(evicting).0.cursor is Some,
    decreases s.slots.len(),
{
    match s.releasable(evicting) {
        Some(n) => {
            lemma_run_end(s.slots, s.slots[0].unwrap().timestamp, 0, n);
        },
        None => {
            if s.gives_up(evicting) {
                lemma_poll_keeps_well_formed(s.discard(), true);
            }
        },
    }
}

/// A poll keeps the state well formed and leaves the limits as they were.
pub proof fn pop_keeps_well_formed(s: State)
    requires
        s.wf(),
    ensures
        s.pop().0.wf(),
        s.pop().0.max_late == s.max_late,
        s.pop().0.max_late_timestamp == s.max_late_timestamp,
        s.pop().0.sample_rate == s.sample_rate,
        s.cursor is Some ==> s.pop().0.cursor is Some,
{
    lemma_poll_keeps_well_formed(s, false);
}

/// The cursor, once set, is moved by no arriving packet, and a packet that
/// lies behind it changes nothing: a position that was released or given up
/// is never taken up again.
pub proof fn insert_keeps_cursor(s: State, seq: u16, entry: Entry)
    requires
        s.wf(),
        s.cursor is Some,
    ensures
        s.insert(seq, entry).cursor == s.cursor,
        s.insert(seq, entry).dropped == s.dropped,
        lies_behind(seq, s.cursor.unwrap()) ==> s.insert(seq, entry) == s,
        !lies_behind(seq, s.cursor.unwrap()) ==> s.insert(seq, entry).slots[forward_distance(
            s.cursor.unwrap(),
            seq,
        )] == Some(entry),
{
}

/// No premature release: a builder that has seen a single packet hands out
/// nothing, whether the packet is a tail or not, as long as it may buffer at
/// least one position.
pub proof fn single_packet_yields_nothing(
    max_late: u16,
    sample_rate: u32,
    delay: MediaDuration,
    seq: u16,
    entry: Entry,
)
    requires
        max_late >= 1,
        sample_rate > 0,
    ensures
        ({
            let s = State::init(max_late, sample_rate).with_max_time_delay(delay).insert(
                seq,
                entry,
            );
            s.pop() == (s, None::<RunView>)
        }),
{
    let s = State::init(max_late, sample_rate).with_max_time_delay(delay).insert(seq, entry);
    let ts = entry.timestamp;
    assert(run_end(s.slots, ts, 1) is None);
}

/// Timestamp grouping: where the slots at the cursor hold a run of `n`
/// packets with one timestamp that is closed by a tail or by a packet with
/// another timestamp, one poll hands out exactly that run, its payloads in
/// sequence order, and moves the cursor past it. Within budget the slot
/// after the run must be buffered; over budget the first packet must be able
/// to start a sample.
pub proof fn closed_run_is_released(s: State, n: int)
    requires
        s.wf(),
        is_closed_run(s.slots, n),
        if s.over_budget() {
            s.slots[0].unwrap().head
        } else {
            n < s.slots.len() && s.slots[n] is Some
        },
    ensures
        s.pop() == (s.release(n), Some(s.run(n))),
        s.run(n).packet_timestamp == s.slots[0].unwrap().timestamp,
        s.run(n).payloads.len() == n,
        forall|k: int| 0 <= k < n ==> s.run(n).payloads[k] == s.slots[k].unwrap().payload,
        s.release(n).slots == s.slots.skip(n),
        s.release(n).cursor == Some(advanced(s.cursor.unwrap(), n)),
{
    lemma_closed_run_scan(s.slots, n, 0);
}

/// The scan from slot `i` of a run of length `gap` that a gap follows ends
/// at the gap, or nowhere.
proof fn lemma_open_run_scan(slots: Seq<Option<Entry>>, gap: int, i: int)
    requires
        is_run(slots, gap),
        gap == slots.len() || slots[gap] is None,
        0 <= i < gap,
    ensures
        run_end(slots, slots[0].unwrap().timestamp, i) is None || run_end(
            slots,
            slots[0].unwrap().timestamp,
            i,
        ) == Some(gap),
    decreases gap - i,
{
    let ts = slots[0].unwrap().timestamp;
    if i < gap - 1 {
        lemma_open_run_scan(slots, gap, i + 1);
    } else if !slots[i].unwrap().tail {
        assert(run_end(slots, ts, gap) is None);
    }
}

/// Gap tolerance: within budget nothing leaves while a gap blocks the run at
/// the cursor. The slots before `gap` are a run that no other timestamp has
/// closed, and slot `gap` is empty: the poll hands out nothing and changes
/// nothing.
pub proof fn gap_blocks_release(s: State, gap: int)
    requires
        s.wf(),
        !s.over_budget(),
        0 <= gap <= s.slots.len(),
        gap > 0 ==> is_run(s.slots, gap),
        gap < s.slots.len() ==> s.slots[gap] is None,
    ensures
        s.pop() == (s, None::<RunView>),
{
    if gap > 0 {
        lemma_open_run_scan(s.slots, gap, 0);
    }
}

/// Number of positions that a poll from any point gives up before it hands
/// out a run or stops.
spec fn gone(s: State, evicting: bool) -> int {
    s.slots.len() - s.poll(evicting).0.slots.len() - released(s.poll(evicting).1)
}

/// Drop accounting of a poll from any point.
proof fn lemma_poll_counts(s: State, evicting: bool)
    requires
        s.wf(),
        s.cursor is Some,
    ensures
        0 <= gone(s, evicting),
        0 <= released(s.poll(evicting).1),
        s.poll(evicting).0.slots == s.slots.skip(
            gone(s, evicting) + released(s.poll(evicting).1),
        ),
        s.poll(evicting).0.cursor == Some(
            advanced(s.cursor.unwrap(), gone(s, evicting) + released(s.poll(evicting).1)),
        ),
        match s.poll(evicting).1 {
            Some(r) => r.prev_dropped_packets == counted(s.dropped, gone(s, evicting))
                && s.poll(evicting).0.dropped == 0 && r.payloads.len() >= 1,
            None => s.poll(evicting).0.dropped == counted(s.dropped, gone(s, evicting)),
        },
    decreases s.slots.len(),
{
    let cursor = s.cursor.unwrap();
    match s.releasable(evicting) {
        Some(n) => {
            lemma_run_end(s.slots, s.slots[0].unwrap().timestamp, 0, n);
        },
        None => {
            if s.gives_up(evicting) {
                let rest = s.discard();
                lemma_poll_counts(rest, true);
                lemma_advanced_twice(cursor, 1, gone(rest, true) + released(s.poll(evicting).1));
            }
        },
    }
}

/// Drop accounting: a poll gives up `k` positions and then hands out a run of
/// `n` packets (`n` is 0 where it hands out nothing). The cursor moves
/// forward by `k + n`, counted round the sequence space. The run reports
/// the counter as it stood plus `k`, and the counter starts again at zero;
/// where nothing leaves, the counter itself stands at that sum.
pub proof fn drops_are_counted(s: State)
    requires
        s.wf(),
        s.cursor is Some,
    ensures
        0 <= given_up(s),
        0 <= released(s.pop().1),
        s.pop().0.slots == s.slots.skip(given_up(s) + released(s.pop().1)),
        s.pop().0.cursor == Some(
            advanced(s.cursor.unwrap(), given_up(s) + released(s.pop().1)),
        ),
        forward_distance(s.cursor.unwrap(), s.pop().0.cursor.unwrap()) == given_up(s) + released(
            s.pop().1,
        ),
        match s.pop().1 {
            Some(r) => r.prev_dropped_packets == counted(s.dropped, given_up(s))
                && s.pop().0.dropped == 0 && r.payloads.len() >= 1,
            None => s.pop().0.dropped == counted(s.dropped, given_up(s)),
        },
{
    lemma_poll_counts(s, false);
    lemma_distance_of_advanced(s.cursor.unwrap(), given_up(s) + released(s.pop().1));
}

/// One call on a builder.
pub enum Event {
    /// A packet with this sequence number arrives.
    Push(u16, Entry),
    /// The builder is polled.
    Poll,
}

/// The state after one call.
pub open spec fn step(s: State, event: Event) -> State {
    match event {
        Event::Push(seq, entry) => s.insert(seq, entry),
        Event::Poll => s.pop().0,
    }
}

/// The state after the calls `events`, made in order.
pub open spec fn after(s: State, events: Seq<Event>) -> State
    decreases events.len(),
{
    if events.len() == 0 {
        s
    } else {
        step(after(s, events.drop_last()), events.last())
    }
}

/// Whether none of the polls among `events` hands out a run.
pub open spec fn hands_out_nothing(s: State, events: Seq<Event>) -> bool
    decreases events.len(),
{
    if events.len() == 0 {
        true
    } else {
        &&& hands_out_nothing(s, events.drop_last())
        &&& events.last() is Poll ==> after(s, events.drop_last()).pop().1 is None
    }
}

/// Number of positions that the polls among `events` give up, all together.
pub open spec fn given_up_over(s: State, events: Seq<Event>) -> int
    decreases events.len(),
{
    if events.len() == 0 {
        0
    } else {
        given_up_over(s, events.drop_last()) + if events.last() is Poll {
            given_up(after(s, events.drop_last()))
        } else {
            0
        }
    }
}

/// Over calls of which none hands out a run, the cursor moves forward by the
/// positions given up and the counter grows by them.
proof fn lemma_drops_add_up(s: State, events: Seq<Event>)
    requires
        s.wf(),
        s.cursor is Some,
        hands_out_nothing(s, events),
    ensures
        after(s, events).wf(),
        0 <= given_up_over(s, events),
        after(s, events).cursor == Some(advanced(s.cursor.unwrap(), given_up_over(s, events))),
        after(s, events).dropped == counted(s.dropped, given_up_over(s, events)),
    decreases events.len(),
{
    if events.len() > 0 {
        let before = after(s, events.drop_last());
        let lost = given_up_over(s, events.drop_last());
        lemma_drops_add_up(s, events.drop_last());
        match events.last() {
            Event::Push(seq, entry) => {
                insert_keeps_cursor(before, seq, entry);
            },
            Event::Poll => {
                pop_keeps_well_formed(before);
                drops_are_counted(before);
                lemma_advanced_twice(s.cursor.unwrap(), lost, given_up(before));
            },
        }
    }
}

/// Drop accounting from sample to sample. Over any calls of which none
/// hands out a run, every position that a poll gives up is counted once:
/// the cursor stands that many positions further on, round the sequence
/// space, and the counter has grown by as many. The run that the next poll
/// hands out reports all of them, those of that poll included. Reckoned
/// from a state in which the counter is zero, as it is when a run has just
/// left, and as long as no more than 65535 positions are lost, the report
/// is the forward distance from the cursor then to the first packet of the
/// run.
pub proof fn drops_between_samples(s: State, events: Seq<Event>)
    requires
        s.wf(),
        s.cursor is Some,
        hands_out_nothing(s, events),
    ensures
        ({
            let t = after(s, events);
            let lost = given_up_over(s, events);
            let first = advanced(s.cursor.unwrap(), lost + given_up(t));
            &&& t.wf()
            &&& 0 <= lost
            &&& 0 <= given_up(t)
            &&& t.cursor == Some(advanced(s.cursor.unwrap(), lost))
            &&& t.dropped == counted(s.dropped, lost)
            &&& first == advanced(t.cursor.unwrap(), given_up(t))
            &&& match t.pop().1 {
                Some(run) => {
                    &&& t.pop().0.slots == t.slots.skip(given_up(t) + run.payloads.len())
                    &&& run.prev_dropped_packets == counted(s.dropped, lost + given_up(t))
                    &&& t.pop().0.dropped == 0
                    &&& s.dropped == 0 && lost + given_up(t) <= u16::MAX
                        ==> run.prev_dropped_packets == forward_distance(
                        s.cursor.unwrap(),
                        first,
                    )
                },
                None => t.pop().0.dropped == counted(s.dropped, lost + given_up(t)),
            }
        }),
{
    let t = after(s, events);
    let lost = given_up_over(s, events);
    lemma_drops_add_up(s, events);
    drops_are_counted(t);
    lemma_advanced_twice(s.cursor.unwrap(), lost, given_up(t));
    if lost + given_up(t) <= u16::MAX {
        lemma_distance_of_advanced(s.cursor.unwrap(), lost + given_up(t));
    }
}

/// What a poll from any point hands out is a complete run, and its first
/// packet can start a sample wherever the poll was over budget or had given
/// a position up.
proof fn lemma_poll_run_is_closed(s: State, evicting: bool)
    requires
        s.wf(),
        s.poll(evicting).1 is Some,
    ensures
        ({
            let run = s.poll(evicting).1.unwrap();
            let rest = s.slots.skip(gone(s, evicting));
            &&& 0 <= gone(s, evicting) < s.slots.len()
            &&& rest[0] == s.slots[gone(s, evicting)]
            &&& is_closed_run(rest, run.payloads.len() as int)
            &&& run.packet_timestamp == rest[0].unwrap().timestamp
            &&& forall|k: int|
                0 <= k < run.payloads.len() ==> #[trigger] run.payloads[k]
                    == rest[k].unwrap().payload
            &&& evicting || s.over_budget() || gone(s, evicting) > 0 ==> rest[0].unwrap().head
        }),
    decreases s.slots.len(),
{
    match s.releasable(evicting) {
        Some(n) => {
            lemma_run_end(s.slots, s.slots[0].unwrap().timestamp, 0, n);
            assert(s.slots.skip(0) =~= s.slots);
        },
        None => {
            let rest = s.discard();
            lemma_poll_run_is_closed(rest, true);
            assert(s.slots.skip(1).skip(gone(rest, true)) =~= s.slots.skip(1 + gone(rest, true)));
        },
    }
}

/// No partial sample: what a poll hands out is a complete run. It starts
/// where the positions that the poll gave up end, holds the payloads of its
/// packets in sequence order, and carries their timestamp. Where the poll
/// began over budget or gave a position up, the first packet of the run can
/// start a sample.
pub proof fn released_run_is_closed(s: State)
    requires
        s.wf(),
        s.pop().1 is Some,
    ensures
        ({
            let run = s.pop().1.unwrap();
            let rest = s.slots.skip(given_up(s));
            &&& 0 <= given_up(s) < s.slots.len()
            &&& rest[0] == s.slots[given_up(s)]
            &&& is_closed_run(rest, run.payloads.len() as int)
            &&& run.packet_timestamp == rest[0].unwrap().timestamp
            &&& forall|k: int|
                0 <= k < run.payloads.len() ==> #[trigger] run.payloads[k]
                    == rest[k].unwrap().payload
            &&& s.over_budget() || given_up(s) > 0 ==> rest[0].unwrap().head
        }),
{
    lemma_poll_run_is_closed(s, false);
}

/// Eviction goes on to a head: a poll that gives a position up passes every
/// buffered packet that cannot start a sample. Where it stops without a
/// run, the slot at the cursor is empty or holds a packet that can start
/// one.
pub proof fn eviction_stops_at_a_head(s: State)
    requires
        s.wf(),
        s.pop().1 is None,
        given_up(s) > 0,
    ensures
        s.pop().0.slots.len() == 0 || s.pop().0.slots[0] is None || s.pop().0.head_at_cursor(),
{
    lemma_poll_stops_at_a_head(s, false);
}

/// Where a poll that has given a position up stops without a run, the slot
/// at the cursor is empty or holds a packet that can start a sample.
proof fn lemma_poll_stops_at_a_head(s: State, evicting: bool)
    requires
        s.wf(),
        s.poll(evicting).1 is None,
        evicting || gone(s, evicting) > 0,
    ensures
        ({
            let after = s.poll(evicting).0;
            after.slots.len() == 0 || after.slots[0] is None || after.head_at_cursor()
        }),
    decreases s.slots.len(),
{
    if s.gives_up(evicting) {
        lemma_poll_stops_at_a_head(s.discard(), true);
    }
}

/// Where a poll from any point hands out nothing, the buffer is within
/// budget and a fresh poll leaves it as it is.
proof fn lemma_poll_drained(s: State, evicting: bool)
    requires
        s.wf(),
        s.poll(evicting).1 is None,
    ensures
        !s.poll(evicting).0.over_budget(),
        s.poll(evicting).0.pop() == (s.poll(evicting).0, None::<RunView>),
    decreases s.slots.len(),
{
    if s.gives_up(evicting) {
        lemma_poll_drained(s.discard(), true);
    }
}

/// Budget: once a poll hands out nothing, the buffer is within both of its
/// limits, so it spans at most `max_late` positions.
pub proof fn drained_is_within_budget(s: State)
    requires
        s.wf(),
        s.pop().1 is None,
    ensures
        !s.pop().0.over_budget(),
        s.pop().0.slots.len() <= s.max_late,
{
    lemma_poll_drained(s, false);
    lemma_poll_keeps_well_formed(s, false);
}

/// Idempotent draining: once a poll hands out nothing, every further poll
/// hands out nothing and changes nothing, until a packet arrives.
pub proof fn drained_stays_drained(s: State)
    requires
        s.wf(),
        s.pop().1 is None,
    ensures
        s.pop().0.pop() == (s.pop().0, None::<RunView>),
{
    lemma_poll_drained(s, false);
}

} // verus!
