//! From received packet batches to admitted packets: the index filter, the
//! deserializer and the admission filter, with every drop tallied.
use vstd::prelude::*;
use crate::stats::{
    error_bucket, is_error_bucket, sat, DeserializedPacketError, Packet,
    PacketFilterFailure, PacketReceiverStats, StatBucket,
};

verus! {

/// Admitted packets of one call, with the counts of that call.
pub struct ReceivePacketResults<D> {
    /// The packets admitted, in the order of batches and of positions.
    pub deserialized_packets: Vec<D>,
    /// Counts of packets received and of the causes of drops.
    pub packet_stats: PacketReceiverStats,
}

/// The packets of a batch that are not flagged, in order.
pub open spec fn survivors(b: Seq<Packet>) -> Seq<Packet>
    decreases b.len(),
{
    if b.len() == 0 {
        Seq::empty()
    } else if b.last().discard {
        survivors(b.drop_last())
    } else {
        survivors(b.drop_last()).push(b.last())
    }
}

/// How many packets of a batch are flagged.
pub open spec fn discarded(b: Seq<Packet>) -> nat
    decreases b.len(),
{
    if b.len() == 0 {
        0
    } else if b.last().discard {
        discarded(b.drop_last()) + 1
    } else {
        discarded(b.drop_last())
    }
}

/// The positions of a batch whose packets are not flagged, in order.
pub open spec fn kept_indexes(b: Seq<Packet>) -> Seq<int>
    decreases b.len(),
{
    if b.len() == 0 {
        Seq::empty()
    } else if b.last().discard {
        kept_indexes(b.drop_last())
    } else {
        kept_indexes(b.drop_last()).push(b.len() - 1)
    }
}

/// The packets of a batch at the given positions, in the order given.
pub open spec fn packets_at(b: Seq<Packet>, indexes: Seq<usize>) -> Seq<Packet> {
    indexes.map_values(|i: usize| b[i as int])
}

/// The packets of a sequence of batches, batch after batch.
pub open spec fn batches_packets(bs: Seq<Vec<Packet>>) -> Seq<Packet>
    decreases bs.len(),
{
    if bs.len() == 0 {
        Seq::empty()
    } else {
        batches_packets(bs.drop_last()) + bs.last()@
    }
}

/// The packets of a sequence of deliveries, delivery after delivery.
pub open spec fn deliveries_packets(ds: Seq<Vec<Vec<Packet>>>) -> Seq<Packet>
    decreases ds.len(),
{
    if ds.len() == 0 {
        Seq::empty()
    } else {
        deliveries_packets(ds.drop_last()) + batches_packets(ds.last()@)
    }
}

/// The admitted packets among a sequence of outcomes, in order.
pub open spec fn admitted<D>(outs: Seq<Result<D, DeserializedPacketError>>) -> Seq<D>
    decreases outs.len(),
{
    if outs.len() == 0 {
        Seq::empty()
    } else {
        match outs.last() {
            Ok(d) => admitted(outs.drop_last()).push(d),
            Err(_) => admitted(outs.drop_last()),
        }
    }
}

/// How many outcomes are drops tallied under counter `b`.
pub open spec fn tally<D>(outs: Seq<Result<D, DeserializedPacketError>>, b: StatBucket) -> nat
    decreases outs.len(),
{
    if outs.len() == 0 {
        0
    } else {
        let t = tally(outs.drop_last(), b);
        match outs.last() {
            Ok(_) => t,
            Err(e) => if error_bucket(e) == b { t + 1 } else { t },
        }
    }
}

/// Whether `o` is a possible outcome of deserializing `p` with `sanitize`
/// and handing the result to `filter`: the filter's packet where both
/// succeed, else the first failure.
pub open spec fn outcome_of<D, S, F>(
    sanitize: S,
    filter: F,
    p: &Packet,
    o: Result<D, DeserializedPacketError>,
) -> bool where
    S: Fn(&Packet) -> Result<D, DeserializedPacketError>,
    F: Fn(D) -> Result<D, PacketFilterFailure>,
 {
    match o {
        Ok(d) => exists|d0: D|
            #![trigger filter.ensures((d0,), Ok::<D, PacketFilterFailure>(d))]
            sanitize.ensures((p,), Ok::<D, DeserializedPacketError>(d0))
                && filter.ensures((d0,), Ok::<D, PacketFilterFailure>(d)),
        Err(e) => sanitize.ensures((p,), Err::<D, DeserializedPacketError>(e)) || exists|d0: D, ff: PacketFilterFailure|
            sanitize.ensures((p,), Ok::<D, DeserializedPacketError>(d0))
                && #[trigger] filter.ensures((d0,), Err::<D, PacketFilterFailure>(ff))
                && e == DeserializedPacketError::FailedFilter(ff),
    }
}

/// Whether `outs` holds one possible outcome for each packet of `ps`.
pub open spec fn outcomes_of<D, S, F>(
    sanitize: S,
    filter: F,
    ps: Seq<Packet>,
    outs: Seq<Result<D, DeserializedPacketError>>,
) -> bool where
    S: Fn(&Packet) -> Result<D, DeserializedPacketError>,
    F: Fn(D) -> Result<D, PacketFilterFailure>,
 {
    &&& outs.len() == ps.len()
    &&& forall|k: int| 0 <= k < ps.len() ==> outcome_of(sanitize, filter, &ps[k], #[trigger] outs[k])
}

/// Whether both functions accept every argument.
pub open spec fn total<D, S, F>(sanitize: S, filter: F) -> bool where
    S: Fn(&Packet) -> Result<D, DeserializedPacketError>,
    F: Fn(D) -> Result<D, PacketFilterFailure>,
 {
    &&& forall|p: &Packet| #[trigger] sanitize.requires((p,))
    &&& forall|d: D| #[trigger] filter.requires((d,))
}

/// Whether `r` holds what one call makes of the packets `ps`: the counts
/// of flagged and unflagged packets, and for some outcome of each
/// unflagged packet, the admitted packets and the tally of each cause.
pub open spec fn results_for<D, S, F>(
    sanitize: S,
    filter: F,
    ps: Seq<Packet>,
    r: ReceivePacketResults<D>,
) -> bool where
    S: Fn(&Packet) -> Result<D, DeserializedPacketError>,
    F: Fn(D) -> Result<D, PacketFilterFailure>,
 {
    &&& r.packet_stats.passed_sigverify_count == sat(survivors(ps).len() as int)
    &&& r.packet_stats.failed_sigverify_count == sat(discarded(ps) as int)
    &&& exists|outs: Seq<Result<D, DeserializedPacketError>>| {
        &&& outcomes_of(sanitize, filter, survivors(ps), outs)
        &&& r.deserialized_packets@ == admitted(outs)
        &&& forall|b: StatBucket| is_error_bucket(b) ==> #[trigger] r.packet_stats.counter(b) == sat(tally(outs, b) as int)
    }
}

/// A packet that decodes and that the filter keeps has an admitted outcome.
proof fn lemma_admitted_outcome<D, S, F>(sanitize: S, filter: F, p: &Packet, d0: D, d: D) where
    S: Fn(&Packet) -> Result<D, DeserializedPacketError>,
    F: Fn(D) -> Result<D, PacketFilterFailure>,

    requires
        sanitize.ensures((p,), Ok::<D, DeserializedPacketError>(d0)),
        filter.ensures((d0,), Ok::<D, PacketFilterFailure>(d)),
    ensures
        outcome_of(sanitize, filter, p, Ok::<D, DeserializedPacketError>(d)),
{
    let o = Ok::<D, DeserializedPacketError>(d);
    assert(o matches Ok(x) && x == d);
}

/// The survivors and the flagged count of two runs of packets, one after
/// the other, are those of each run, joined.
pub proof fn lemma_survivors_concat(a: Seq<Packet>, b: Seq<Packet>)
    ensures
        survivors(a + b) == survivors(a) + survivors(b),
        discarded(a + b) == discarded(a) + discarded(b),
    decreases b.len(),
{
    if b.len() == 0 {
        assert(a + b =~= a);
        assert(survivors(a) + survivors(b) =~= survivors(a));
    } else {
        lemma_survivors_concat(a, b.drop_last());
        assert((a + b).drop_last() =~= a + b.drop_last());
        if !b.last().discard {
            assert(survivors(a) + survivors(b) =~= (survivors(a) + survivors(b.drop_last())).push(b.last()));
        }
    }
}

/// The admitted packets and the tallies of two runs of outcomes, one after
/// the other, are those of each run, joined.
pub proof fn lemma_outcomes_concat<D>(
    a: Seq<Result<D, DeserializedPacketError>>,
    b: Seq<Result<D, DeserializedPacketError>>,
)
    ensures
        admitted(a + b) == admitted(a) + admitted(b),
        forall|k: StatBucket| #[trigger] tally(a + b, k) == tally(a, k) + tally(b, k),
    decreases b.len(),
{
    if b.len() == 0 {
        assert(a + b =~= a);
        assert(admitted(a) + admitted(b) =~= admitted(a));
    } else {
        lemma_outcomes_concat(a, b.drop_last());
        assert((a + b).drop_last() =~= a + b.drop_last());
        assert((a + b).last() == b.last());
        assert forall|k: StatBucket| #[trigger] tally(a + b, k) == tally(a, k) + tally(b, k) by {
            assert(tally(a + b.drop_last(), k) == tally(a, k) + tally(b.drop_last(), k));
        }
        match b.last() {
            Ok(d) => {
                assert(admitted(a) + admitted(b) =~= (admitted(a) + admitted(b.drop_last())).push(d));
            },
            Err(_) => {},
        }
    }
}

proof fn lemma_admitted_len<D>(outs: Seq<Result<D, DeserializedPacketError>>)
    ensures
        admitted(outs).len() <= outs.len(),
    decreases outs.len(),
{
    if outs.len() > 0 {
        lemma_admitted_len(outs.drop_last());
    }
}

/// The kept positions are in range, and pick out exactly the survivors;
/// every packet is a survivor or flagged.
pub proof fn lemma_kept_indexes(b: Seq<Packet>)
    ensures
        kept_indexes(b).len() == survivors(b).len(),
        survivors(b).len() + discarded(b) == b.len(),
        forall|k: int| 0 <= k < kept_indexes(b).len() ==> 0 <= #[trigger] kept_indexes(b)[k] < b.len()
            && b[kept_indexes(b)[k]] == survivors(b)[k],
    decreases b.len(),
{
    if b.len() > 0 {
        lemma_kept_indexes(b.drop_last());
    }
}

/// No flagged packet is among the survivors of a batch, and the flagged
/// packets are counted apart from them.
pub proof fn lemma_flagged_never_survive(b: Seq<Packet>)
    ensures
        forall|k: int| 0 <= k < survivors(b).len() ==> !(#[trigger] survivors(b)[k]).discard,
        survivors(b).len() + discarded(b) == b.len(),
    decreases b.len(),
{
    lemma_kept_indexes(b);
    if b.len() > 0 {
        lemma_flagged_never_survive(b.drop_last());
    }
}


/// Every packet of a call is counted once under the two counters of
/// signature verification: passed plus failed is the number of packets
/// received, where that number fits in a `u64`.
pub proof fn lemma_sigverify_counts_cover_all_packets<D, S, F>(
    sanitize: S,
    filter: F,
    banking_batches: Seq<Vec<Vec<Packet>>>,
    r: ReceivePacketResults<D>,
) where
    S: Fn(&Packet) -> Result<D, DeserializedPacketError>,
    F: Fn(D) -> Result<D, PacketFilterFailure>,

    requires
        results_for(sanitize, filter, deliveries_packets(banking_batches), r),
        deliveries_packets(banking_batches).len() <= u64::MAX,
    ensures
        r.packet_stats.passed_sigverify_count + r.packet_stats.failed_sigverify_count
            == deliveries_packets(banking_batches).len(),
{
    lemma_kept_indexes(deliveries_packets(banking_batches));
}

/// The packets admitted in a call are at most those that passed signature
/// verification.
pub proof fn lemma_admitted_at_most_passed<D, S, F>(
    sanitize: S,
    filter: F,
    banking_batches: Seq<Vec<Vec<Packet>>>,
    r: ReceivePacketResults<D>,
) where
    S: Fn(&Packet) -> Result<D, DeserializedPacketError>,
    F: Fn(D) -> Result<D, PacketFilterFailure>,

    requires
        results_for(sanitize, filter, deliveries_packets(banking_batches), r),
        r.deserialized_packets@.len() <= u64::MAX,
    ensures
        r.deserialized_packets@.len() <= r.packet_stats.passed_sigverify_count,
{
    let outs = choose|outs: Seq<Result<D, DeserializedPacketError>>| {
        &&& outcomes_of(sanitize, filter, survivors(deliveries_packets(banking_batches)), outs)
        &&& r.deserialized_packets@ == admitted(outs)
        &&& forall|b: StatBucket| is_error_bucket(b) ==> #[trigger] r.packet_stats.counter(b) == sat(tally(outs, b) as int)
    };
    lemma_admitted_len(outs);
}

/// Whether two runs of packets differ at most in the contents of flagged
/// packets: same length, same flags, and the same unflagged packets.
pub open spec fn differ_only_in_flagged(a: Seq<Packet>, b: Seq<Packet>) -> bool {
    &&& a.len() == b.len()
    &&& forall|i: int| 0 <= i < a.len() ==> (#[trigger] a[i]).discard == b[i].discard
    &&& forall|i: int| 0 <= i < a.len() && !(#[trigger] a[i]).discard ==> a[i] == b[i]
}

/// Flagged packets never reach the decoder or the filter: packets that
/// differ only in what flagged packets hold have the same survivors and the
/// same flagged count, and so admit exactly the same call results.
pub proof fn lemma_flagged_contents_are_ignored<D, S, F>(
    sanitize: S,
    filter: F,
    a: Seq<Packet>,
    b: Seq<Packet>,
    r: ReceivePacketResults<D>,
) where
    S: Fn(&Packet) -> Result<D, DeserializedPacketError>,
    F: Fn(D) -> Result<D, PacketFilterFailure>,

    requires
        differ_only_in_flagged(a, b),
    ensures
        survivors(a) == survivors(b),
        discarded(a) == discarded(b),
        results_for(sanitize, filter, a, r) == results_for(sanitize, filter, b, r),
    decreases a.len(),
{
    if a.len() > 0 {
        assert(differ_only_in_flagged(a.drop_last(), b.drop_last())) by {
            assert forall|i: int| 0 <= i < a.drop_last().len() implies (#[trigger] a.drop_last()[i]).discard
                == b.drop_last()[i].discard by {
                assert(a[i].discard == b[i].discard);
            }
            assert forall|i: int| 0 <= i < a.drop_last().len() && !(#[trigger] a.drop_last()[i]).discard
                implies a.drop_last()[i] == b.drop_last()[i] by {
                assert(a[i].discard == b[i].discard);
                assert(!a[i].discard);
            }
        }
        lemma_flagged_contents_are_ignored(sanitize, filter, a.drop_last(), b.drop_last(), r);
        assert(a.last().discard == b.last().discard);
        if !a.last().discard {
            assert(a.last() == b.last());
        }
    }
}

/// Turns packet batches received from signature verification into
/// admitted packets.
pub struct PacketDeserializer;

impl PacketDeserializer {
    /// The positions of `packet_batch` whose packets are not flagged, in order.
    pub fn generate_packet_indexes(packet_batch: &Vec<Packet>) -> (r: Vec<usize>)
        ensures
            r@.len() == kept_indexes(packet_batch@).len(),
            forall|k: int| 0 <= k < r@.len() ==> r@[k] as int == #[trigger] kept_indexes(packet_batch@)[k],
    {
        let mut r: Vec<usize> = Vec::new();
        let mut i: usize = 0;
        while i < packet_batch.len()
            invariant
                i <= packet_batch@.len(),
                r@.len() == kept_indexes(packet_batch@.take(i as int)).len(),
                forall|k: int| 0 <= k < r@.len() ==> r@[k] as int == #[trigger] kept_indexes(packet_batch@.take(i as int))[k],
            decreases packet_batch@.len() - i,
        {
            if !packet_batch[i].discard {
                r.push(i);
            }
            i = i + 1;
            assert(packet_batch@.take(i as int).drop_last() =~= packet_batch@.take(i - 1));
        }
        assert(packet_batch@.take(i as int) =~= packet_batch@);
        r
    }

    /// Deserializes one packet and hands it to the admission filter.
    fn process_packet<D, S, F>(packet: &Packet, sanitize: &S, packet_filter: &F) -> (r: Result<D, DeserializedPacketError>) where
        S: Fn(&Packet) -> Result<D, DeserializedPacketError>,
        F: Fn(D) -> Result<D, PacketFilterFailure>,

        requires
            total(*sanitize, *packet_filter),
        ensures
            outcome_of(*sanitize, *packet_filter, packet, r),
    {
        match sanitize(packet) {
            Ok(d) => {
                let ghost d0 = d;
                match packet_filter(d) {
                    Ok(d1) => {
                        proof {
                            lemma_admitted_outcome(*sanitize, *packet_filter, packet, d0, d1);
                        }
                        Ok(d1)
                    },
                    Err(f) => Err(DeserializedPacketError::from_filter(f)),
                }
            },
            Err(e) => Err(e),
        }
    }

    /// Deserializes and filters the packets of `packet_batch` at
    /// `packet_indexes`, appending the admitted ones to `out` and tallying
    /// each drop; returns the outcome of each packet.
    fn deserialize_packets<D, S, F>(
        packet_batch: &Vec<Packet>,
        packet_indexes: &Vec<usize>,
        packet_stats: &mut PacketReceiverStats,
        sanitize: &S,
        packet_filter: &F,
        out: &mut Vec<D>,
    ) -> (outs: Ghost<Seq<Result<D, DeserializedPacketError>>>) where
        S: Fn(&Packet) -> Result<D, DeserializedPacketError>,
        F: Fn(D) -> Result<D, PacketFilterFailure>,

        requires
            total(*sanitize, *packet_filter),
            forall|k: int| 0 <= k < packet_indexes@.len() ==> #[trigger] packet_indexes@[k] < packet_batch@.len(),
        ensures
            outcomes_of(*sanitize, *packet_filter, packets_at(packet_batch@, packet_indexes@), outs@),
            final(out)@ == old(out)@ + admitted(outs@),
            final(packet_stats).passed_sigverify_count == old(packet_stats).passed_sigverify_count,
            final(packet_stats).failed_sigverify_count == old(packet_stats).failed_sigverify_count,
            forall|b: StatBucket| is_error_bucket(b) ==> #[trigger] final(packet_stats).counter(b)
                == sat(old(packet_stats).counter(b) + tally(outs@, b)),
    {
        let ghost surv = packets_at(packet_batch@, packet_indexes@);
        let ghost mut outs: Seq<Result<D, DeserializedPacketError>> = Seq::empty();
        let mut k: usize = 0;
        while k < packet_indexes.len()
            invariant
                total(*sanitize, *packet_filter),
                packet_indexes@.len() == surv.len(),
                surv == packets_at(packet_batch@, packet_indexes@),
                forall|j: int| 0 <= j < packet_indexes@.len() ==> 0 <= #[trigger] packet_indexes@[j] < packet_batch@.len()
                    && packet_batch@[packet_indexes@[j] as int] == surv[j],
                k <= packet_indexes@.len(),
                outs.len() == k,
                forall|j: int| 0 <= j < k ==> outcome_of(*sanitize, *packet_filter, &surv[j], #[trigger] outs[j]),
                out@ == old(out)@ + admitted(outs),
                packet_stats.passed_sigverify_count == old(packet_stats).passed_sigverify_count,
                packet_stats.failed_sigverify_count == old(packet_stats).failed_sigverify_count,
                forall|b: StatBucket| is_error_bucket(b) ==> #[trigger] packet_stats.counter(b)
                    == sat(old(packet_stats).counter(b) + tally(outs, b)),
            decreases packet_indexes@.len() - k,
        {
            assert(packet_batch@[packet_indexes@[k as int] as int] == surv[k as int]);
            let o = Self::process_packet(&packet_batch[packet_indexes[k]], sanitize, packet_filter);
            let ghost og = o;
            let ghost prev = outs;
            let ghost s_prev = *packet_stats;
            let ghost out_prev = out@;
            proof {
                outs = outs.push(og);
                assert(outs.drop_last() =~= prev);
            }
            match o {
                Ok(d) => {
                    out.push(d);
                    assert(out@ =~= old(out)@ + admitted(outs));
                },
                Err(e) => {
                    packet_stats.increment_error_count(&e);
                    assert(outs.last() == Err::<D, DeserializedPacketError>(e));
                    assert forall|b: StatBucket| is_error_bucket(b) implies #[trigger] packet_stats.counter(b)
                        == sat(old(packet_stats).counter(b) + tally(outs, b)) by {
                        assert(tally(outs, b) == tally(prev, b) + (if error_bucket(e) == b { 1nat } else { 0nat }));
                        assert(s_prev.counter(b) == sat(old(packet_stats).counter(b) + tally(prev, b)));
                    }
                },
            }
            k = k + 1;
        }
        Ghost(outs)
    }

    /// Runs every packet of `banking_batches` through the pipeline: flagged
    /// packets are counted and dropped; the others are deserialized with
    /// `sanitize` and handed to `packet_filter`, and each is admitted or
    /// tallied under the cause of its drop.
    pub fn deserialize_and_collect_packets<D, S, F>(
        packet_count: usize,
        banking_batches: &[Vec<Vec<Packet>>],
        sanitize: S,
        packet_filter: F,
    ) -> (r: ReceivePacketResults<D>) where
        S: Fn(&Packet) -> Result<D, DeserializedPacketError>,
        F: Fn(D) -> Result<D, PacketFilterFailure>,

        requires
            total(sanitize, packet_filter),
        ensures
            results_for(sanitize, packet_filter, deliveries_packets(banking_batches@), r),
            r.deserialized_packets@.len() <= r.packet_stats.passed_sigverify_count,
    {
        let mut packet_stats = PacketReceiverStats::new();
        let mut deserialized_packets: Vec<D> = Vec::with_capacity(packet_count);
        let ghost mut outs: Seq<Result<D, DeserializedPacketError>> = Seq::empty();
        let ghost mut seen: Seq<Packet> = Seq::empty();
        assert(packet_stats.counter(StatBucket::PassedSigverify) == 0);
        assert(packet_stats.counter(StatBucket::FailedSigverify) == 0);
        assert(banking_batches@.take(0) =~= Seq::<Vec<Vec<Packet>>>::empty());
        let mut i: usize = 0;
        while i < banking_batches.len()
            invariant
                total(sanitize, packet_filter),
                i <= banking_batches@.len(),
                seen == deliveries_packets(banking_batches@.take(i as int)),
                packet_stats.passed_sigverify_count == sat(survivors(seen).len() as int),
                packet_stats.failed_sigverify_count == sat(discarded(seen) as int),
                outcomes_of(sanitize, packet_filter, survivors(seen), outs),
                deserialized_packets@ == admitted(outs),
                forall|b: StatBucket| is_error_bucket(b) ==> #[trigger] packet_stats.counter(b) == sat(tally(outs, b) as int),
            decreases banking_batches@.len() - i,
        {
            let banking_batch = &banking_batches[i];
            let ghost seen_at_start = seen;
            let mut j: usize = 0;
            while j < banking_batch.len()
                invariant
                    total(sanitize, packet_filter),
                    i < banking_batches@.len(),
                    banking_batch == banking_batches@[i as int],
                    j <= banking_batch@.len(),
                    seen_at_start == deliveries_packets(banking_batches@.take(i as int)),
                    seen == seen_at_start + batches_packets(banking_batch@.take(j as int)),
                    packet_stats.passed_sigverify_count == sat(survivors(seen).len() as int),
                    packet_stats.failed_sigverify_count == sat(discarded(seen) as int),
                    outcomes_of(sanitize, packet_filter, survivors(seen), outs),
                    deserialized_packets@ == admitted(outs),
                    forall|b: StatBucket| is_error_bucket(b) ==> #[trigger] packet_stats.counter(b) == sat(tally(outs, b) as int),
                decreases banking_batch@.len() - j,
            {
                let packet_batch = &banking_batch[j];
                let packet_indexes = Self::generate_packet_indexes(packet_batch);
                proof {
                    lemma_kept_indexes(packet_batch@);
                    assert forall|k: int| 0 <= k < packet_indexes@.len() implies #[trigger] packet_indexes@[k] < packet_batch@.len() by {
                        assert(packet_indexes@[k] as int == kept_indexes(packet_batch@)[k]);
                    }
                    assert(packets_at(packet_batch@, packet_indexes@) =~= survivors(packet_batch@)) by {
                        assert forall|k: int| 0 <= k < packet_indexes@.len() implies
                            #[trigger] packets_at(packet_batch@, packet_indexes@)[k] == survivors(packet_batch@)[k] by {
                            assert(packet_indexes@[k] as int == kept_indexes(packet_batch@)[k]);
                        }
                    }
                }
                let passed = packet_indexes.len() as u64;
                let failed = (packet_batch.len() - packet_indexes.len()) as u64;
                packet_stats.add_sigverify_counts(passed, failed);
                let ghost prev_outs = outs;
                let ghost prev_seen = seen;
                let ghost prev_admitted = deserialized_packets@;
                let batch_outs = Self::deserialize_packets(
                    packet_batch,
                    &packet_indexes,
                    &mut packet_stats,
                    &sanitize,
                    &packet_filter,
                    &mut deserialized_packets,
                );
                proof {
                    let bo = batch_outs@;
                    outs = prev_outs + bo;
                    seen = prev_seen + packet_batch@;
                    lemma_survivors_concat(prev_seen, packet_batch@);
                    lemma_outcomes_concat(prev_outs, bo);
                    assert(banking_batch@.take(j + 1).drop_last() =~= banking_batch@.take(j as int));
                    assert(seen =~= seen_at_start + batches_packets(banking_batch@.take(j + 1)));
                    let sp = survivors(prev_seen);
                    let sb = survivors(packet_batch@);
                    assert(survivors(seen) =~= sp + sb);
                    assert forall|k: int| 0 <= k < survivors(seen).len() implies
                        outcome_of(sanitize, packet_filter, &survivors(seen)[k], #[trigger] outs[k]) by {
                        if k < sp.len() {
                            assert(outs[k] == prev_outs[k]);
                        } else {
                            assert(outs[k] == bo[k - sp.len()]);
                            assert(survivors(seen)[k] == sb[k - sp.len()]);
                        }
                    }
                }
                j = j + 1;
            }
            proof {
                assert(banking_batch@.take(j as int) =~= banking_batch@);
                assert(banking_batches@.take(i + 1).drop_last() =~= banking_batches@.take(i as int));
            }
            i = i + 1;
        }
        let n_admitted = deserialized_packets.len();
        proof {
            assert(banking_batches@.take(i as int) =~= banking_batches@);
            lemma_admitted_len(outs);
            assert(deserialized_packets@.len() <= outs.len());
            assert(n_admitted as int <= u64::MAX);
        }
        ReceivePacketResults { deserialized_packets, packet_stats }
    }
}

} // verus!
