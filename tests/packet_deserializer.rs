use packet_ingress::accumulator::PacketBatchAccumulator;
use packet_ingress::pipeline::{PacketDeserializer, ReceivePacketResults};
use packet_ingress::stats::{
    classify, DeserializedPacketError, Packet, PacketFilterFailure, PacketReceiverStats,
    StatBucket,
};

/// A stand-in transaction decoder: a leading signature count, then that many
/// 64-byte signatures and at least one byte of message.
fn sanitize(packet: &Packet) -> Result<Vec<u8>, DeserializedPacketError> {
    let data = &packet.data;
    if data.is_empty() {
        return Err(DeserializedPacketError::ShortVecError);
    }
    let count = data[0] as usize;
    if count == 0 {
        return Err(DeserializedPacketError::SanitizeError);
    }
    if data.len() < 1 + 64 * count + 1 {
        return Err(DeserializedPacketError::DeserializationError);
    }
    Ok(data.clone())
}

fn transfer(tag: u8) -> Packet {
    let mut data = vec![1u8];
    data.extend(std::iter::repeat(tag).take(64));
    data.extend([2u8, 0, tag]);
    Packet::new(data)
}

fn collect(
    batches: &[Vec<Vec<Packet>>],
    filter: impl Fn(Vec<u8>) -> Result<Vec<u8>, PacketFilterFailure>,
) -> ReceivePacketResults<Vec<u8>> {
    let packet_count: usize = batches.iter().flatten().map(|b| b.len()).sum();
    PacketDeserializer::deserialize_and_collect_packets(packet_count, batches, sanitize, filter)
}

fn zero_stats() -> PacketReceiverStats {
    PacketReceiverStats::default()
}

#[test]
fn test_deserialize_and_collect_packets_empty() {
    let results = PacketDeserializer::deserialize_and_collect_packets(0, &[], sanitize, Ok);
    assert_eq!(results.deserialized_packets.len(), 0);
    assert_eq!(results.packet_stats.passed_sigverify_count, 0);
    assert_eq!(results.packet_stats.failed_sigverify_count, 0);
    assert_eq!(results.packet_stats, zero_stats());
}

#[test]
fn test_deserialize_and_collect_packets_simple_batches() {
    let packet_batches = vec![vec![transfer(1)], vec![transfer(2)]];
    assert_eq!(packet_batches.len(), 2);

    let packet_count: usize = packet_batches.iter().map(|x| x.len()).sum();
    let results = PacketDeserializer::deserialize_and_collect_packets(
        packet_count,
        &[packet_batches],
        sanitize,
        Ok,
    );
    assert_eq!(results.deserialized_packets.len(), 2);
    assert_eq!(results.packet_stats.passed_sigverify_count, 2);
    assert_eq!(results.packet_stats.failed_sigverify_count, 0);
    let expected = PacketReceiverStats { passed_sigverify_count: 2, ..zero_stats() };
    assert_eq!(results.packet_stats, expected);
}

#[test]
fn test_deserialize_and_collect_packets_simple_batches_with_failure() {
    let mut packet_batches = vec![vec![transfer(1)], vec![transfer(2)]];
    assert_eq!(packet_batches.len(), 2);
    packet_batches[0][0].set_discard(true);

    let packet_count: usize = packet_batches.iter().map(|x| x.len()).sum();
    let results = PacketDeserializer::deserialize_and_collect_packets(
        packet_count,
        &[packet_batches],
        sanitize,
        Ok,
    );
    assert_eq!(results.deserialized_packets.len(), 1);
    assert_eq!(results.packet_stats.passed_sigverify_count, 1);
    assert_eq!(results.packet_stats.failed_sigverify_count, 1);
    assert_eq!(results.deserialized_packets[0], transfer(2).data);
}

#[test]
fn filter_prioritization_failure_is_tallied() {
    let results = collect(&[vec![vec![transfer(7)]]], |_| {
        Err(PacketFilterFailure::PrioritizationFailure)
    });
    assert_eq!(results.deserialized_packets.len(), 0);
    assert_eq!(results.packet_stats.passed_sigverify_count, 1);
    assert_eq!(results.packet_stats.failed_prioritization_count, 1);
    let expected = PacketReceiverStats {
        passed_sigverify_count: 1,
        failed_prioritization_count: 1,
        ..zero_stats()
    };
    assert_eq!(results.packet_stats, expected);
}

#[test]
fn each_filter_failure_has_its_counter() {
    let batches = vec![vec![vec![transfer(1), transfer(2), transfer(3), transfer(4), transfer(5)]]];
    let results = collect(&batches, |d: Vec<u8>| match d[67] {
        1 => Err(PacketFilterFailure::VoteTransaction),
        2 => Err(PacketFilterFailure::ExcessivePrecompiles),
        3 => Err(PacketFilterFailure::InsufficientComputeLimit),
        4 => Err(PacketFilterFailure::PrioritizationFailure),
        _ => Ok(d),
    });
    assert_eq!(results.deserialized_packets, vec![transfer(5).data]);
    let expected = PacketReceiverStats {
        passed_sigverify_count: 5,
        invalid_vote_count: 1,
        excessive_precompile_count: 1,
        insufficient_compute_limit_count: 1,
        failed_prioritization_count: 1,
        ..zero_stats()
    };
    assert_eq!(results.packet_stats, expected);
}

#[test]
fn malformed_packets_count_as_sanitization_failures() {
    let empty = Packet::new(vec![]);
    let no_signatures = Packet::new(vec![0u8; 80]);
    let truncated = Packet::new(vec![1u8, 9, 9]);
    let mut flagged_malformed = Packet::new(vec![]);
    flagged_malformed.set_discard(true);
    let batches = vec![
        vec![vec![empty, transfer(1)], vec![no_signatures]],
        vec![vec![truncated, flagged_malformed]],
    ];
    let results = collect(&batches, Ok);
    assert_eq!(results.deserialized_packets, vec![transfer(1).data]);
    let expected = PacketReceiverStats {
        passed_sigverify_count: 4,
        failed_sigverify_count: 1,
        failed_sanitization_count: 3,
        ..zero_stats()
    };
    assert_eq!(results.packet_stats, expected);
}

#[test]
fn admitted_packets_keep_batch_then_index_order() {
    let mut flagged = transfer(9);
    flagged.set_discard(true);
    let batches = vec![
        vec![vec![transfer(1), flagged, transfer(2)], vec![transfer(3)]],
        vec![vec![], vec![transfer(4)]],
    ];
    let results = collect(&batches, Ok);
    let tags: Vec<u8> = results.deserialized_packets.iter().map(|d| d[67]).collect();
    assert_eq!(tags, vec![1, 2, 3, 4]);
    assert_eq!(results.packet_stats.passed_sigverify_count, 4);
    assert_eq!(results.packet_stats.failed_sigverify_count, 1);
}

#[test]
fn sigverify_counts_add_up_to_packets_received() {
    let mut batches = vec![
        vec![vec![transfer(1), transfer(2), Packet::new(vec![3])]],
        vec![vec![transfer(4)], vec![transfer(5), transfer(6)]],
    ];
    batches[0][0][1].set_discard(true);
    batches[1][1][0].set_discard(true);
    batches[1][1][1].set_discard(true);
    let total: u64 = 6;
    let results = collect(&batches, |_| Err(PacketFilterFailure::VoteTransaction));
    let stats = &results.packet_stats;
    assert_eq!(stats.passed_sigverify_count + stats.failed_sigverify_count, total);
    assert_eq!(stats.failed_sigverify_count, 3);
    assert!(results.deserialized_packets.len() as u64 <= stats.passed_sigverify_count);
    assert_eq!(stats.invalid_vote_count, 2);
    assert_eq!(stats.failed_sanitization_count, 1);
}

#[test]
fn flagged_packets_never_reach_the_decoder() {
    let mut a = Packet::new(vec![]);
    a.set_discard(true);
    let mut b = transfer(1);
    b.set_discard(true);
    let results = collect(&[vec![vec![a, b]]], |_| {
        Err(PacketFilterFailure::ExcessivePrecompiles)
    });
    let expected = PacketReceiverStats { failed_sigverify_count: 2, ..zero_stats() };
    assert_eq!(results.packet_stats, expected);
    assert!(results.deserialized_packets.is_empty());
}

#[test]
fn generate_packet_indexes_skips_flagged() {
    let mut batch = vec![transfer(1), transfer(2), transfer(3), transfer(4)];
    batch[1].set_discard(true);
    batch[3].set_discard(true);
    assert_eq!(PacketDeserializer::generate_packet_indexes(&batch), vec![0, 2]);
    assert_eq!(PacketDeserializer::generate_packet_indexes(&vec![]), Vec::<usize>::new());
}

#[test]
fn classification_is_fixed_per_cause() {
    let cases = [
        (DeserializedPacketError::ShortVecError, StatBucket::FailedSanitization),
        (DeserializedPacketError::DeserializationError, StatBucket::FailedSanitization),
        (DeserializedPacketError::SignatureOverflowed, StatBucket::FailedSanitization),
        (DeserializedPacketError::SanitizeError, StatBucket::FailedSanitization),
        (DeserializedPacketError::PrioritizationFailure, StatBucket::FailedPrioritization),
        (DeserializedPacketError::VoteTransactionError, StatBucket::InvalidVote),
        (
            DeserializedPacketError::FailedFilter(PacketFilterFailure::ExcessivePrecompiles),
            StatBucket::ExcessivePrecompile,
        ),
        (
            DeserializedPacketError::FailedFilter(PacketFilterFailure::InsufficientComputeLimit),
            StatBucket::InsufficientComputeLimit,
        ),
        (
            DeserializedPacketError::FailedFilter(PacketFilterFailure::PrioritizationFailure),
            StatBucket::FailedPrioritization,
        ),
        (
            DeserializedPacketError::FailedFilter(PacketFilterFailure::VoteTransaction),
            StatBucket::InvalidVote,
        ),
    ];
    for (err, bucket) in cases {
        assert_eq!(classify(&err), bucket);
        assert_eq!(classify(&err), classify(&err));
    }
}

#[test]
fn increment_error_count_moves_one_counter() {
    let mut stats = PacketReceiverStats::default();
    stats.increment_error_count(&DeserializedPacketError::ShortVecError);
    stats.increment_error_count(&DeserializedPacketError::SignatureOverflowed);
    stats.increment_error_count(&DeserializedPacketError::VoteTransactionError);
    stats.increment_error_count(&DeserializedPacketError::PrioritizationFailure);
    stats.increment_error_count(&DeserializedPacketError::FailedFilter(
        PacketFilterFailure::InsufficientComputeLimit,
    ));
    let expected = PacketReceiverStats {
        failed_sanitization_count: 2,
        invalid_vote_count: 1,
        failed_prioritization_count: 1,
        insufficient_compute_limit_count: 1,
        ..zero_stats()
    };
    assert_eq!(stats, expected);
}

#[test]
fn counters_saturate_at_max() {
    let mut stats = PacketReceiverStats {
        excessive_precompile_count: u64::MAX - 1,
        ..zero_stats()
    };
    let err = DeserializedPacketError::FailedFilter(PacketFilterFailure::ExcessivePrecompiles);
    for _ in 0..5 {
        stats.increment_error_count(&err);
    }
    assert_eq!(stats.excessive_precompile_count, u64::MAX);
    assert_eq!(stats.failed_sanitization_count, 0);

    let mut stats = PacketReceiverStats {
        passed_sigverify_count: u64::MAX - 1,
        ..zero_stats()
    };
    stats.add_sigverify_counts(5, 3);
    assert_eq!(stats.passed_sigverify_count, u64::MAX);
    assert_eq!(stats.failed_sigverify_count, 3);
}

#[test]
fn accumulation_stops_once_ceiling_is_met() {
    let delivery = |n: usize| vec![(0..n).map(|i| transfer(i as u8)).collect::<Vec<_>>()];
    let mut acc = PacketBatchAccumulator::new(delivery(2), 5);
    assert!(acc.should_poll(false));
    acc.push(delivery(2));
    assert!(acc.should_poll(false));
    acc.push(delivery(3));
    assert!(!acc.should_poll(false));
    let (count, deliveries) = acc.into_parts();
    assert_eq!(count, 7);
    assert_eq!(deliveries.len(), 3);
}

#[test]
fn accumulation_stops_at_the_deadline() {
    let acc = PacketBatchAccumulator::new(vec![vec![transfer(1)]], 100);
    assert!(acc.should_poll(false));
    assert!(!acc.should_poll(true));
    let (count, deliveries) = acc.into_parts();
    assert_eq!(count, 1);
    assert_eq!(deliveries.len(), 1);
}

#[test]
fn oversized_first_delivery_is_kept_whole() {
    let big = vec![vec![transfer(1), transfer(2)], vec![transfer(3), transfer(4)]];
    let acc = PacketBatchAccumulator::new(big, 3);
    assert!(!acc.should_poll(false));
    assert_eq!(PacketBatchAccumulator::delivery_len(&vec![vec![transfer(1)], vec![]]), 1);
    let (count, deliveries) = acc.into_parts();
    assert_eq!(count, 4);
    assert_eq!(deliveries[0].len(), 2);
}

#[test]
fn flagged_payloads_do_not_change_results() {
    let build = |flagged_payload: Vec<u8>| {
        let mut hidden = Packet::new(flagged_payload);
        hidden.set_discard(true);
        vec![vec![vec![transfer(1), hidden, transfer(2)]]]
    };
    let seen = std::cell::RefCell::new(Vec::new());
    let filter = |d: Vec<u8>| {
        seen.borrow_mut().push(d.clone());
        Ok(d)
    };
    let a = collect(&build(vec![]), &filter);
    let calls_a = seen.borrow_mut().split_off(0);
    let b = collect(&build(transfer(9).data), &filter);
    let calls_b = seen.borrow_mut().split_off(0);
    assert_eq!(a.deserialized_packets, b.deserialized_packets);
    assert_eq!(a.packet_stats, b.packet_stats);
    assert_eq!(calls_a, calls_b);
    assert_eq!(calls_a.len(), 2);
}

#[test]
fn deliveries_after_the_first_start_under_the_ceiling() {
    let one = || vec![vec![transfer(1)]];
    let mut acc = PacketBatchAccumulator::new(one(), 3);
    while acc.should_poll(false) {
        acc.push(one());
    }
    let (count, deliveries) = acc.into_parts();
    assert_eq!(count, 3);
    assert_eq!(deliveries.len(), 3);
}
