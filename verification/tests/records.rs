use tasdview::record::{collect_port_inputs, count_inputs, detect_ports, Record};

#[test]
fn ports_default_to_one() {
    let records = vec![Record::Other, Record::TotalFrames { frames: 3 }];
    assert_eq!(detect_ports(&records), vec![1]);
    assert_eq!(detect_ports(&Vec::new()), vec![1]);
}

#[test]
fn ports_are_sorted_and_deduplicated() {
    let records = vec![
        Record::InputChunk { port: 3, inputs: vec![1] },
        Record::InputMoment { port: 1 },
        Record::PortController { port: 3 },
        Record::InputChunk { port: 2, inputs: vec![] },
        Record::InputMoment { port: 1 },
    ];
    assert_eq!(detect_ports(&records), vec![1, 2, 3]);
}

#[test]
fn ports_are_order_independent() {
    // A permutation of the records yields the same sorted port list.
    let a = vec![
        Record::InputChunk { port: 4, inputs: vec![9] },
        Record::PortController { port: 2 },
        Record::InputMoment { port: 7 },
    ];
    let b = vec![
        Record::InputMoment { port: 7 },
        Record::InputChunk { port: 4, inputs: vec![9] },
        Record::PortController { port: 2 },
    ];
    assert_eq!(detect_ports(&a), detect_ports(&b));
    assert_eq!(detect_ports(&a), vec![2, 4, 7]);
}

#[test]
fn total_frames_record_wins() {
    // The declared frame count takes priority over chunks and moments.
    let records = vec![
        Record::InputChunk { port: 1, inputs: vec![0; 500] },
        Record::TotalFrames { frames: 1000 },
        Record::InputMoment { port: 1 },
        Record::InputMoment { port: 1 },
    ];
    assert_eq!(count_inputs(&records), 1000);
}

#[test]
fn first_total_frames_record_decides() {
    let records = vec![
        Record::TotalFrames { frames: 42 },
        Record::TotalFrames { frames: 9000 },
    ];
    assert_eq!(count_inputs(&records), 42);
}

#[test]
fn chunk_lengths_sum_per_port_and_max_wins() {
    // Port 1 holds 3 + 2 = 5 bytes, port 2 holds 7: the maximum wins.
    let records = vec![
        Record::InputChunk { port: 1, inputs: vec![1, 2, 3] },
        Record::InputChunk { port: 2, inputs: vec![0; 7] },
        Record::InputChunk { port: 1, inputs: vec![4, 5] },
    ];
    assert_eq!(count_inputs(&records), 7);
}

#[test]
fn chunks_outside_ports_one_to_four_do_not_count() {
    let records = vec![Record::InputChunk { port: 9, inputs: vec![0; 6] }];
    assert_eq!(count_inputs(&records), 0);
}

#[test]
fn moments_are_the_fallback() {
    let records = vec![
        Record::InputMoment { port: 1 },
        Record::Other,
        Record::InputMoment { port: 2 },
        Record::InputMoment { port: 1 },
    ];
    assert_eq!(count_inputs(&records), 3);
}

#[test]
fn empty_stream_counts_zero() {
    assert_eq!(count_inputs(&Vec::new()), 0);
}

#[test]
fn port_inputs_concatenate_in_record_order() {
    let records = vec![
        Record::InputChunk { port: 1, inputs: vec![10, 11] },
        Record::InputChunk { port: 2, inputs: vec![99] },
        Record::InputChunk { port: 1, inputs: vec![12] },
    ];
    assert_eq!(collect_port_inputs(&records, 1), vec![10, 11, 12]);
    assert_eq!(collect_port_inputs(&records, 2), vec![99]);
    assert_eq!(collect_port_inputs(&records, 3), Vec::<u8>::new());
}

#[test]
fn port_inputs_recompute_identically() {
    let records = vec![
        Record::InputChunk { port: 1, inputs: vec![1, 2] },
        Record::InputMoment { port: 1 },
        Record::InputChunk { port: 1, inputs: vec![3] },
    ];
    assert_eq!(collect_port_inputs(&records, 1), collect_port_inputs(&records, 1));
    assert_eq!(detect_ports(&records), detect_ports(&records));
    assert_eq!(count_inputs(&records), count_inputs(&records));
}
