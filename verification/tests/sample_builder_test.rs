use sample_builder::{FakeDepacketizer, MediaDuration, Packet, Sample, SampleBuilder};

#[derive(Default)]
pub struct SampleBuilderTest {
    message: String,
    packets: Vec<Packet>,
    with_head_checker: bool,
    head_bytes: Vec<Vec<u8>>,
    samples: Vec<Sample>,
    max_late: u16,
    max_late_timestamp: MediaDuration,
}

fn packet(sequence_number: u16, timestamp: u32, marker: bool, payload: Vec<u8>) -> Packet {
    Packet { sequence_number, timestamp, marker, payload }
}

fn sample(data: Vec<u8>, secs: u64, packet_timestamp: u32, prev_dropped_packets: u16) -> Sample {
    Sample {
        data,
        duration: MediaDuration::from_secs(secs),
        packet_timestamp,
        prev_dropped_packets,
    }
}

fn spaced_by_two(first_marker: bool, second_marker: bool) -> Vec<Packet> {
    vec![
        packet(5000, 5, first_marker, vec![1u8]),
        packet(5002, 7, second_marker, vec![2u8]),
        packet(5004, 9, false, vec![3u8]),
        packet(5006, 11, false, vec![4u8]),
        packet(5008, 13, false, vec![5u8]),
        packet(5010, 15, false, vec![6u8]),
        packet(5012, 17, false, vec![7u8]),
    ]
}

fn gap_before_valid() -> Vec<Packet> {
    vec![
        packet(5000, 5, true, vec![1u8]),
        packet(5007, 6, true, vec![2u8]),
        packet(5008, 7, false, vec![3u8]),
    ]
}

fn run_table(test_data: Vec<SampleBuilderTest>) {
    for t in test_data {
        let d = FakeDepacketizer { head_checker: t.with_head_checker, head_bytes: t.head_bytes };

        let mut s = {
            let sample_builder = SampleBuilder::new(t.max_late, d, 1);
            if t.max_late_timestamp != MediaDuration::from_secs(0) {
                sample_builder.with_max_time_delay(t.max_late_timestamp)
            } else {
                sample_builder
            }
        };

        let mut samples = Vec::<Sample>::new();
        for p in t.packets {
            s.push(p)
        }

        while let Some(sample) = s.pop() {
            samples.push(sample)
        }

        assert_eq!(t.samples, samples, "{}", t.message);
    }
}

#[test]
pub fn test_sample_builder() {
    let test_data: Vec<SampleBuilderTest> = vec![
        SampleBuilderTest {
            message: "Sample builder shouldn't emit anything if only one RTP packet has been pushed".into(),
            packets: vec![packet(5000, 5, false, vec![1u8])],
            samples: vec![],
            max_late: 50,
            max_late_timestamp: MediaDuration::from_secs(0),
            ..Default::default()
        },
        SampleBuilderTest {
            message: "Sample builder shouldn't emit anything if only one RTP packet has been pushed even if the marker bit is set".into(),
            packets: vec![packet(5000, 5, true, vec![1u8])],
            samples: vec![],
            max_late: 50,
            max_late_timestamp: MediaDuration::from_secs(0),
            ..Default::default()
        },
        SampleBuilderTest {
            message: "Sample builder should emit two packets, we had three packets with unique timestamps".into(),
            packets: vec![
                packet(5000, 5, false, vec![1u8]),
                packet(5001, 6, false, vec![2u8]),
                packet(5002, 7, false, vec![3u8]),
            ],
            samples: vec![sample(vec![1u8], 1, 5, 0), sample(vec![2u8], 1, 6, 0)],
            max_late: 50,
            max_late_timestamp: MediaDuration::from_secs(0),
            ..Default::default()
        },
        SampleBuilderTest {
            message: "Sample builder should emit one packet, we had a packet end of sequence marker and run out of space".into(),
            packets: spaced_by_two(true, false),
            samples: vec![sample(vec![1u8], 2, 5, 0)],
            max_late: 5,
            max_late_timestamp: MediaDuration::from_secs(0),
            ..Default::default()
        },
        SampleBuilderTest {
            message: "Sample builder shouldn't emit any packet, we do not have a valid end of sequence and run out of space".into(),
            packets: spaced_by_two(false, false),
            samples: vec![],
            max_late: 5,
            max_late_timestamp: MediaDuration::from_secs(0),
            ..Default::default()
        },
        SampleBuilderTest {
            message: "Sample builder should emit one packet, we had a packet end of sequence marker and run out of space".into(),
            packets: spaced_by_two(true, true),
            samples: vec![sample(vec![1u8], 2, 5, 0), sample(vec![2u8], 2, 7, 1)],
            max_late: 5,
            max_late_timestamp: MediaDuration::from_secs(0),
            ..Default::default()
        },
        SampleBuilderTest {
            message: "Sample builder should emit one packet, we had two packets but with duplicate timestamps".into(),
            packets: vec![
                packet(5000, 5, true, vec![1u8]),
                packet(5001, 6, true, vec![2u8]),
                packet(5002, 6, false, vec![3u8]),
                packet(5003, 7, false, vec![4u8]),
            ],
            samples: vec![
                sample(vec![1u8], 1, 5, 0),
                // the tail closes the run, and the packet left over with the
                // same timestamp makes a sample of its own
                sample(vec![2u8], 0, 6, 0),
                sample(vec![3u8], 1, 6, 0),
            ],
            max_late: 50,
            max_late_timestamp: MediaDuration::from_secs(0),
            ..Default::default()
        },
        SampleBuilderTest {
            message: "Sample builder shouldn't emit a packet because we have a gap before a valid one".into(),
            packets: gap_before_valid(),
            samples: vec![],
            max_late: 50,
            max_late_timestamp: MediaDuration::from_secs(0),
            ..Default::default()
        },
        SampleBuilderTest {
            message: "Sample builder shouldn't emit a packet after a gap as there are gaps and have not reached maxLate yet".into(),
            packets: gap_before_valid(),
            with_head_checker: true,
            head_bytes: vec![vec![2u8]],
            samples: vec![],
            max_late: 50,
            max_late_timestamp: MediaDuration::from_secs(0),
            ..Default::default()
        },
        SampleBuilderTest {
            message: "Sample builder shouldn't emit a packet after a gap if PartitionHeadChecker doesn't assume it head".into(),
            packets: gap_before_valid(),
            with_head_checker: true,
            head_bytes: vec![],
            samples: vec![],
            max_late: 50,
            max_late_timestamp: MediaDuration::from_secs(0),
            ..Default::default()
        },
        SampleBuilderTest {
            message: "Sample builder should emit multiple valid packets".into(),
            packets: vec![
                packet(5000, 1, false, vec![1u8]),
                packet(5001, 2, false, vec![2u8]),
                packet(5002, 3, false, vec![3u8]),
                packet(5003, 4, false, vec![4u8]),
                packet(5004, 5, false, vec![5u8]),
                packet(5005, 6, false, vec![6u8]),
            ],
            samples: vec![
                sample(vec![1u8], 1, 1, 0),
                sample(vec![2u8], 1, 2, 0),
                sample(vec![3u8], 1, 3, 0),
                sample(vec![4u8], 1, 4, 0),
                sample(vec![5u8], 1, 5, 0),
            ],
            max_late: 50,
            max_late_timestamp: MediaDuration::from_secs(0),
            ..Default::default()
        },
        SampleBuilderTest {
            message: "Sample builder should skipt time stamps too old".into(),
            packets: vec![
                packet(5000, 1, false, vec![1u8]),
                packet(5001, 2, false, vec![2u8]),
                packet(5002, 3, false, vec![3u8]),
                packet(5013, 4000, false, vec![4u8]),
                packet(5014, 4000, false, vec![5u8]),
                packet(5015, 4002, false, vec![6u8]),
                packet(5016, 7000, false, vec![4u8]),
                packet(5017, 7001, false, vec![5u8]),
            ],
            samples: vec![
                sample(vec![4u8, 5u8], 2, 4000, 13),
                // 5015 cannot start a sample and is given up; the cursor
                // then stands on 5016, which can, and 5017 closes its run
                sample(vec![4u8], 1, 7000, 1),
            ],
            with_head_checker: true,
            head_bytes: vec![vec![4u8]],
            max_late: 50,
            max_late_timestamp: MediaDuration::from_secs(2000),
            ..Default::default()
        },
    ];
    run_table(test_data);
}

// SampleBuilder should respect maxLate if we popped successfully but then have a gap larger then maxLate
#[test]
fn test_sample_builder_max_late() {
    let mut s =
        SampleBuilder::new(50, FakeDepacketizer { head_bytes: vec![], head_checker: false }, 1);

    s.push(packet(0, 1, false, vec![0x01]));
    s.push(packet(1, 2, false, vec![0x01]));
    s.push(packet(2, 3, false, vec![0x01]));
    assert_eq!(Some(sample(vec![0x01], 1, 1, 0)), s.pop(), "Failed to build samples before gap");

    s.push(packet(5000, 500, false, vec![0x02]));
    s.push(packet(5001, 501, false, vec![0x02]));
    s.push(packet(5002, 502, false, vec![0x02]));

    assert_eq!(
        Some(sample(vec![0x01], 1, 2, 0)),
        s.pop(),
        "Failed to build samples after large gap"
    );
    assert_eq!(None, s.pop(), "Failed to build samples after large gap");

    s.push(packet(6000, 600, false, vec![0x03]));
    assert_eq!(
        Some(sample(vec![0x02], 1, 500, 4998)),
        s.pop(),
        "Failed to build samples after large gap"
    );
    assert_eq!(
        Some(sample(vec![0x02], 1, 501, 0)),
        s.pop(),
        "Failed to build samples after large gap"
    );
}
