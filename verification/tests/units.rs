use sample_builder::builder::assemble;
use sample_builder::depacketizer::{copy_bytes, same_bytes};
use sample_builder::sequence::{seq_advance, seq_distance, seq_lies_behind, timestamp_distance};
use sample_builder::{
    Depacketizer, FakeDepacketizer, MediaDuration, Packet, PacketWindow, Run, Sample,
};

fn packet(sequence_number: u16, timestamp: u32, payload: Vec<u8>) -> Packet {
    Packet { sequence_number, timestamp, marker: false, payload }
}

#[test]
fn sequence_distance_goes_round() {
    assert_eq!(seq_distance(2, 5000), 4998);
    assert_eq!(seq_distance(5000, 5000), 0);
    assert_eq!(seq_distance(65535, 0), 1);
    assert_eq!(seq_distance(65530, 3), 9);
    assert_eq!(seq_distance(5000, 2), 60538);
    assert_eq!(seq_distance(0, 65535), 65535);
}

#[test]
fn sequence_advance_goes_round() {
    assert_eq!(seq_advance(5000, 1), 5001);
    assert_eq!(seq_advance(65535, 1), 0);
    assert_eq!(seq_advance(65530, 10), 4);
    assert_eq!(seq_advance(7, 0), 7);
}

#[test]
fn half_of_the_space_ahead_counts_as_behind() {
    assert!(!seq_lies_behind(100, 100));
    assert!(!seq_lies_behind(101, 100));
    assert!(!seq_lies_behind(100 + 32767, 100));
    assert!(seq_lies_behind(100 + 32768, 100));
    assert!(seq_lies_behind(99, 100));
    assert!(seq_lies_behind(65535, 0));
    assert!(!seq_lies_behind(0, 65535));
}

#[test]
fn timestamp_distance_goes_round() {
    assert_eq!(timestamp_distance(5, 7), 2);
    assert_eq!(timestamp_distance(u32::MAX, 1), 2);
    assert_eq!(timestamp_distance(7, 5), u32::MAX - 1);
}

#[test]
fn duration_of_ticks() {
    assert_eq!(MediaDuration::from_ticks(2, 1), MediaDuration::from_secs(2));
    assert_eq!(MediaDuration::from_ticks(0, 90000).nanos, 0);
    assert_eq!(MediaDuration::from_ticks(3000, 90000).nanos, 33_333_333);
    assert_eq!(MediaDuration::from_ticks(960, 48000).nanos, 20_000_000);
    assert_eq!(MediaDuration::from_ticks(1, 3).nanos, 333_333_333);
    assert_eq!(MediaDuration::from_ticks(u32::MAX, 1).nanos, 4_294_967_295_000_000_000);
    assert_eq!(MediaDuration::from_ticks(u32::MAX, u32::MAX).nanos, 1_000_000_000);
}

#[test]
fn duration_of_seconds_is_capped() {
    assert_eq!(MediaDuration::from_secs(0).nanos, 0);
    assert_eq!(MediaDuration::from_secs(2000).nanos, 2_000_000_000_000);
    assert_eq!(MediaDuration::from_secs(18_446_744_073).nanos, 18_446_744_073_000_000_000);
    assert_eq!(MediaDuration::from_secs(18_446_744_074).nanos, u64::MAX);
    assert_eq!(MediaDuration::from_secs(u64::MAX).nanos, u64::MAX);
}

#[test]
fn ticks_in_a_duration() {
    assert_eq!(MediaDuration::from_secs(2000).to_ticks(1), 2000);
    assert_eq!(MediaDuration { nanos: 500_000_000 }.to_ticks(90000), 45000);
    // counted over whole milliseconds
    assert_eq!(MediaDuration { nanos: 1_999_999 }.to_ticks(48000), 48);
    assert_eq!(MediaDuration { nanos: 999_999 }.to_ticks(48000), 0);
    assert_eq!(MediaDuration { nanos: 999_000_000 }.to_ticks(1), 0);
    assert_eq!(MediaDuration::from_secs(5_000_000).to_ticks(1000), u32::MAX);
    assert_eq!(MediaDuration { nanos: u64::MAX }.to_ticks(u32::MAX), u32::MAX);
    assert_eq!(MediaDuration { nanos: u64::MAX }.to_ticks(0), 0);
}

#[test]
fn bytes_are_compared_and_copied() {
    assert!(same_bytes(&[], &[]));
    assert!(same_bytes(&[1, 2, 3], &[1, 2, 3]));
    assert!(!same_bytes(&[1, 2, 3], &[1, 2]));
    assert!(!same_bytes(&[1, 2, 3], &[1, 2, 4]));
    assert_eq!(copy_bytes(&[7, 8, 9]), vec![7u8, 8, 9]);
    assert_eq!(copy_bytes(&[]), Vec::<u8>::new());
}

#[test]
fn fake_depacketizer_hands_the_payload_back() {
    let mut d = FakeDepacketizer { head_checker: true, head_bytes: vec![] };
    assert_eq!(d.depacketize(&[1u8, 2u8]), Ok(vec![1u8, 2u8]));
    assert_eq!(d.depacketize(&[]), Ok(vec![]));
}

#[test]
fn fake_depacketizer_without_head_check_accepts_every_payload() {
    let d = FakeDepacketizer { head_checker: false, head_bytes: vec![vec![4u8]] };
    assert!(d.is_partition_head(&[1u8]));
    assert!(d.is_partition_head(&[4u8]));
    assert!(d.is_partition_head(&[]));
}

#[test]
fn fake_depacketizer_with_head_check_accepts_listed_payloads() {
    let d = FakeDepacketizer { head_checker: true, head_bytes: vec![vec![4u8], vec![7u8, 8u8]] };
    assert!(d.is_partition_head(&[4u8]));
    assert!(d.is_partition_head(&[7u8, 8u8]));
    assert!(!d.is_partition_head(&[7u8]));
    assert!(!d.is_partition_head(&[8u8, 7u8]));
    assert!(!d.is_partition_head(&[]));
    let none = FakeDepacketizer { head_checker: true, head_bytes: vec![] };
    assert!(!none.is_partition_head(&[4u8]));
}

#[test]
fn fake_depacketizer_takes_the_marker_for_the_tail() {
    let d = FakeDepacketizer::default();
    assert!(d.is_partition_tail(true, &[1u8]));
    assert!(!d.is_partition_tail(false, &[1u8]));
}

#[test]
fn assemble_joins_the_parts_that_were_read() {
    let run = Run {
        payloads: vec![vec![0u8], vec![0u8], vec![0u8]],
        packet_timestamp: 77,
        duration: MediaDuration { nanos: 5 },
        prev_dropped_packets: 3,
    };
    let parts = vec![Some(vec![1u8, 2u8]), None, Some(vec![3u8])];
    assert_eq!(
        assemble(&run, &parts),
        Sample {
            data: vec![1u8, 2u8, 3u8],
            duration: MediaDuration { nanos: 5 },
            packet_timestamp: 77,
            prev_dropped_packets: 3,
        }
    );
    assert_eq!(assemble(&run, &vec![]).data, Vec::<u8>::new());
}

#[test]
fn window_starts_empty() {
    let mut w = PacketWindow::new(50, 90000);
    assert_eq!(w.cursor(), None);
    assert_eq!(w.span(), 0);
    assert_eq!(w.dropped_packets(), 0);
    assert_eq!(w.last_sample_timestamp(), None);
    assert!(!w.over_budget());
    assert_eq!(w.releasable(), None);
    assert!(w.pop_run().is_none());
}

#[test]
fn window_spans_from_the_cursor_to_the_highest_packet() {
    let mut w = PacketWindow::new(50, 1);
    w.insert(packet(65534, 1, vec![1u8]), true, false);
    assert_eq!(w.cursor(), Some(65534));
    assert_eq!(w.span(), 1);
    w.insert(packet(3, 2, vec![2u8]), true, false);
    assert_eq!(w.cursor(), Some(65534));
    assert_eq!(w.span(), 6);
    w.insert(packet(0, 1, vec![3u8]), true, false);
    assert_eq!(w.span(), 6);
    // half of the sequence space ahead of the cursor lies behind it
    w.insert(packet(65534u16.wrapping_add(32768), 9, vec![4u8]), true, true);
    assert_eq!(w.span(), 6);
    w.insert(packet(65534u16.wrapping_add(32767), 9, vec![5u8]), true, true);
    assert_eq!(w.span(), 32768);
}

#[test]
fn window_decides_on_the_recorded_answers() {
    let mut w = PacketWindow::new(50, 1);
    // the recorded tail ends the run, whatever the marker says
    w.insert(packet(1, 10, vec![1u8]), true, false);
    w.insert(packet(2, 10, vec![2u8]), true, true);
    w.insert(packet(3, 10, vec![3u8]), true, false);
    assert_eq!(w.releasable(), Some(2));
    let run = w.pop_run().unwrap();
    assert_eq!(run.payloads, vec![vec![1u8], vec![2u8]]);
    assert_eq!(run.packet_timestamp, 10);
    assert_eq!(run.duration, MediaDuration::from_secs(0));
    assert_eq!(run.prev_dropped_packets, 0);
    assert_eq!(w.cursor(), Some(3));
    assert_eq!(w.span(), 1);
    assert_eq!(w.last_sample_timestamp(), Some(10));
    assert!(w.pop_run().is_none());
}

#[test]
fn window_over_budget_gives_up_what_cannot_start_a_sample() {
    let mut w = PacketWindow::new(2, 1);
    w.insert(packet(1, 10, vec![1u8]), false, false);
    w.insert(packet(2, 11, vec![2u8]), false, false);
    assert!(!w.over_budget());
    w.insert(packet(3, 12, vec![3u8]), true, false);
    w.insert(packet(4, 13, vec![4u8]), false, false);
    assert!(w.over_budget());
    assert_eq!(w.releasable(), None);
    let run = w.pop_run().unwrap();
    assert_eq!(run.payloads, vec![vec![3u8]]);
    assert_eq!(run.packet_timestamp, 12);
    assert_eq!(run.duration, MediaDuration::from_secs(1));
    assert_eq!(run.prev_dropped_packets, 2);
    assert_eq!(w.dropped_packets(), 0);
    assert_eq!(w.cursor(), Some(4));
    assert!(w.pop_run().is_none());
    assert_eq!(w.cursor(), Some(4));
    assert_eq!(w.span(), 1);
}

#[test]
fn window_counts_what_it_gives_up() {
    let mut w = PacketWindow::new(2, 1);
    w.insert(packet(10, 1, vec![1u8]), true, false);
    w.insert(packet(20, 2, vec![2u8]), true, false);
    assert_eq!(w.span(), 11);
    assert!(w.pop_run().is_none());
    assert_eq!(w.cursor(), Some(19));
    assert_eq!(w.span(), 2);
    assert_eq!(w.dropped_packets(), 9);
    assert_eq!(w.last_sample_timestamp(), None);
}

#[test]
fn window_timestamp_limit_is_off_at_zero() {
    let mut w = PacketWindow::new(50, 1).with_max_time_delay(MediaDuration::from_secs(0));
    w.insert(packet(1, 0, vec![1u8]), true, false);
    w.insert(packet(3, 4_000_000_000, vec![3u8]), true, false);
    assert!(!w.over_budget());
    let mut limited = PacketWindow::new(50, 1).with_max_time_delay(MediaDuration::from_secs(9));
    limited.insert(packet(1, 0, vec![1u8]), true, false);
    limited.insert(packet(3, 9, vec![3u8]), true, false);
    assert!(!limited.over_budget());
    limited.insert(packet(4, 10, vec![4u8]), true, false);
    assert!(limited.over_budget());
}

#[test]
fn window_that_gave_a_position_up_passes_what_cannot_start_a_sample() {
    let mut w = PacketWindow::new(2, 1);
    w.insert(packet(1, 10, vec![1u8]), true, false);
    w.insert(packet(3, 11, vec![3u8]), false, false);
    w.insert(packet(4, 12, vec![4u8]), false, false);
    // 1 and the hole at 2 are given up over budget; 3 and 4 are within
    // budget, and are given up because neither can start a sample
    assert!(w.pop_run().is_none());
    assert_eq!(w.cursor(), Some(5));
    assert_eq!(w.span(), 0);
    assert_eq!(w.dropped_packets(), 4);
}

#[test]
fn window_within_budget_lets_any_closed_run_leave() {
    let mut w = PacketWindow::new(5, 1);
    w.insert(packet(3, 11, vec![3u8]), false, false);
    w.insert(packet(4, 12, vec![4u8]), false, false);
    assert_eq!(w.releasable(), Some(1));
    let run = w.pop_run().unwrap();
    assert_eq!(run.payloads, vec![vec![3u8]]);
    assert_eq!(run.prev_dropped_packets, 0);
}
