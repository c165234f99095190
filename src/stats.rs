//! Packets, the causes for which a packet is dropped, and the counters
//! that tally them.
use vstd::prelude::*;

verus! {

/// A packet as it arrives from signature verification: its bytes and the
/// flag by which that stage asks that it be dropped.
#[derive(Clone, Debug)]
pub struct Packet {
    pub data: Vec<u8>,
    pub discard: bool,
}

impl Packet {
    /// A packet holding `data`, not flagged.
    pub fn new(data: Vec<u8>) -> (r: Packet)
        ensures
            r.data@ == data@,
            !r.discard,
    {
        Packet { data, discard: false }
    }

    /// Whether the upstream stage flagged this packet for dropping.
    pub fn discard(&self) -> (r: bool)
        ensures
            r == self.discard,
    {
        self.discard
    }

    /// Sets the flag by which the packet is dropped.
    pub fn set_discard(&mut self, discard: bool)
        ensures
            final(self).discard == discard,
            final(self).data@ == old(self).data@,
    {
        self.discard = discard;
    }
}

/// Why an admission filter refused a deserialized packet.
#[derive(Clone, Copy, Debug, PartialEq, Eq, Structural)]
pub enum PacketFilterFailure {
    PrioritizationFailure,
    VoteTransaction,
    ExcessivePrecompiles,
    InsufficientComputeLimit,
}

/// Why a packet was dropped after it passed signature verification.
#[derive(Clone, Copy, Debug, PartialEq, Eq, Structural)]
pub enum DeserializedPacketError {
    /// A length prefix is malformed.
    ShortVecError,
    /// The bytes do not decode as a transaction.
    DeserializationError,
    /// The signature count does not fit.
    SignatureOverflowed,
    /// The transaction breaks a structural rule.
    SanitizeError,
    /// Fees or priority could not be computed.
    PrioritizationFailure,
    /// A vote transaction where votes are not taken.
    VoteTransactionError,
    /// The admission filter refused the packet.
    FailedFilter(PacketFilterFailure),
}

impl DeserializedPacketError {
    /// The error that a refusal of the admission filter becomes.
    pub fn from_filter(f: PacketFilterFailure) -> (r: DeserializedPacketError)
        ensures
            r == DeserializedPacketError::FailedFilter(f),
    {
        DeserializedPacketError::FailedFilter(f)
    }
}

/// The counters of `PacketReceiverStats`, one each.
#[derive(Clone, Copy, Debug, PartialEq, Eq, Structural)]
pub enum StatBucket {
    PassedSigverify,
    FailedSigverify,
    FailedSanitization,
    FailedPrioritization,
    InvalidVote,
    ExcessivePrecompile,
    InsufficientComputeLimit,
}

/// The counter that a dropped packet's cause is tallied under.
pub open spec fn error_bucket(e: DeserializedPacketError) -> StatBucket {
    match e {
        DeserializedPacketError::ShortVecError
        | DeserializedPacketError::DeserializationError
        | DeserializedPacketError::SignatureOverflowed
        | DeserializedPacketError::SanitizeError => StatBucket::FailedSanitization,
        DeserializedPacketError::PrioritizationFailure => StatBucket::FailedPrioritization,
        DeserializedPacketError::VoteTransactionError => StatBucket::InvalidVote,
        DeserializedPacketError::FailedFilter(f) => match f {
            PacketFilterFailure::PrioritizationFailure => StatBucket::FailedPrioritization,
            PacketFilterFailure::VoteTransaction => StatBucket::InvalidVote,
            PacketFilterFailure::ExcessivePrecompiles => StatBucket::ExcessivePrecompile,
            PacketFilterFailure::InsufficientComputeLimit => StatBucket::InsufficientComputeLimit,
        },
    }
}

/// Whether a counter tallies dropped packets' causes (all but the two of
/// signature verification).
pub open spec fn is_error_bucket(b: StatBucket) -> bool {
    b != StatBucket::PassedSigverify && b != StatBucket::FailedSigverify
}

/// `n` held in a `u64`, saturating at its largest value.
pub open spec fn sat(n: int) -> u64 {
    if n > u64::MAX { u64::MAX } else { n as u64 }
}

/// The counter under which `err` is tallied.
pub fn classify(err: &DeserializedPacketError) -> (b: StatBucket)
    ensures
        b == error_bucket(*err),
        is_error_bucket(b),
{
    match err {
        DeserializedPacketError::ShortVecError
        | DeserializedPacketError::DeserializationError
        | DeserializedPacketError::SignatureOverflowed
        | DeserializedPacketError::SanitizeError => StatBucket::FailedSanitization,
        DeserializedPacketError::PrioritizationFailure => StatBucket::FailedPrioritization,
        DeserializedPacketError::VoteTransactionError => StatBucket::InvalidVote,
        DeserializedPacketError::FailedFilter(f) => match f {
            PacketFilterFailure::PrioritizationFailure => StatBucket::FailedPrioritization,
            PacketFilterFailure::VoteTransaction => StatBucket::InvalidVote,
            PacketFilterFailure::ExcessivePrecompiles => StatBucket::ExcessivePrecompile,
            PacketFilterFailure::InsufficientComputeLimit => StatBucket::InsufficientComputeLimit,
        },
    }
}

/// Counts of the packets received in one call, and of why each dropped
/// packet was dropped.
#[derive(Debug, PartialEq, Eq, Structural)]
pub struct PacketReceiverStats {
    /// Packets not flagged by signature verification.
    pub passed_sigverify_count: u64,
    /// Packets flagged by signature verification.
    pub failed_sigverify_count: u64,
    /// Packets dropped for a sanitization error.
    pub failed_sanitization_count: u64,
    /// Packets dropped for a prioritization error.
    pub failed_prioritization_count: u64,
    /// Vote packets dropped.
    pub invalid_vote_count: u64,
    /// Packets dropped for too many precompiles.
    pub excessive_precompile_count: u64,
    /// Packets dropped for too low a compute limit.
    pub insufficient_compute_limit_count: u64,
}

impl PacketReceiverStats {
    /// The value of counter `b`.
    pub open spec fn counter(self, b: StatBucket) -> u64 {
        match b {
            StatBucket::PassedSigverify => self.passed_sigverify_count,
            StatBucket::FailedSigverify => self.failed_sigverify_count,
            StatBucket::FailedSanitization => self.failed_sanitization_count,
            StatBucket::FailedPrioritization => self.failed_prioritization_count,
            StatBucket::InvalidVote => self.invalid_vote_count,
            StatBucket::ExcessivePrecompile => self.excessive_precompile_count,
            StatBucket::InsufficientComputeLimit => self.insufficient_compute_limit_count,
        }
    }

    /// Whether every counter is zero.
    pub open spec fn is_zero(self) -> bool {
        &&& self.passed_sigverify_count == 0
        &&& self.failed_sigverify_count == 0
        &&& self.failed_sanitization_count == 0
        &&& self.failed_prioritization_count == 0
        &&& self.invalid_vote_count == 0
        &&& self.excessive_precompile_count == 0
        &&& self.insufficient_compute_limit_count == 0
    }

    /// These counters after one saturating increment of counter `b`.
    pub open spec fn bumped(self, b: StatBucket) -> PacketReceiverStats {
        let v = if self.counter(b) == u64::MAX { u64::MAX } else { (self.counter(b) + 1) as u64 };
        match b {
            StatBucket::PassedSigverify => PacketReceiverStats { passed_sigverify_count: v, ..self },
            StatBucket::FailedSigverify => PacketReceiverStats { failed_sigverify_count: v, ..self },
            StatBucket::FailedSanitization => PacketReceiverStats { failed_sanitization_count: v, ..self },
            StatBucket::FailedPrioritization => PacketReceiverStats { failed_prioritization_count: v, ..self },
            StatBucket::InvalidVote => PacketReceiverStats { invalid_vote_count: v, ..self },
            StatBucket::ExcessivePrecompile => PacketReceiverStats { excessive_precompile_count: v, ..self },
            StatBucket::InsufficientComputeLimit => PacketReceiverStats { insufficient_compute_limit_count: v, ..self },
        }
    }

    /// All counters zero.
    pub fn new() -> (r: PacketReceiverStats)
        ensures
            r.is_zero(),
    {
        PacketReceiverStats {
            passed_sigverify_count: 0,
            failed_sigverify_count: 0,
            failed_sanitization_count: 0,
            failed_prioritization_count: 0,
            invalid_vote_count: 0,
            excessive_precompile_count: 0,
            insufficient_compute_limit_count: 0,
        }
    }

    /// Tallies one dropped packet under the counter of its cause,
    /// saturating at the largest `u64`; the other counters stay as they were.
    pub fn increment_error_count(&mut self, err: &DeserializedPacketError)
        ensures
            *final(self) == old(self).bumped(error_bucket(*err)),
    {
        match classify(err) {
            StatBucket::PassedSigverify => {
                self.passed_sigverify_count = self.passed_sigverify_count.saturating_add(1);
            },
            StatBucket::FailedSigverify => {
                self.failed_sigverify_count = self.failed_sigverify_count.saturating_add(1);
            },
            StatBucket::FailedSanitization => {
                self.failed_sanitization_count = self.failed_sanitization_count.saturating_add(1);
            },
            StatBucket::FailedPrioritization => {
                self.failed_prioritization_count =
                self.failed_prioritization_count.saturating_add(1);
            },
            StatBucket::InvalidVote => {
                self.invalid_vote_count = self.invalid_vote_count.saturating_add(1);
            },
            StatBucket::ExcessivePrecompile => {
                self.excessive_precompile_count = self.excessive_precompile_count.saturating_add(1);
            },
            StatBucket::InsufficientComputeLimit => {
                self.insufficient_compute_limit_count =
                self.insufficient_compute_limit_count.saturating_add(1);
            },
        }
    }

    /// Tallies one packet batch: `passed` packets not flagged and `failed`
    /// flagged, each added with saturation.
    pub fn add_sigverify_counts(&mut self, passed: u64, failed: u64)
        ensures
            final(self).passed_sigverify_count == sat(old(self).passed_sigverify_count + passed),
            final(self).failed_sigverify_count == sat(old(self).failed_sigverify_count + failed),
            forall|b: StatBucket| is_error_bucket(b) ==> #[trigger] final(self).counter(b) == old(self).counter(b),
    {
        self.passed_sigverify_count = self.passed_sigverify_count.saturating_add(passed);
        self.failed_sigverify_count = self.failed_sigverify_count.saturating_add(failed);
    }
}

impl Default for PacketReceiverStats {
    fn default() -> (r: PacketReceiverStats)
        ensures
            r.is_zero(),
    {
        PacketReceiverStats::new()
    }
}

/// The counter tallying a cause depends on the cause alone, and is one of
/// the five error counters; an increment for that cause moves that counter
/// and no other.
pub proof fn lemma_classification_is_a_function(s: PacketReceiverStats, e: DeserializedPacketError)
    ensures
        is_error_bucket(error_bucket(e)),
        forall|b: StatBucket| b != error_bucket(e) ==> #[trigger] s.bumped(error_bucket(e)).counter(b) == s.counter(b),
        s.counter(error_bucket(e)) < u64::MAX ==> s.bumped(error_bucket(e)).counter(error_bucket(e)) == s.counter(error_bucket(e)) + 1,
{
}

/// Increments saturate: a counter one below the largest `u64`, incremented
/// five times for the same cause, settles at the largest `u64`.
pub proof fn lemma_counters_saturate(s: PacketReceiverStats, e: DeserializedPacketError)
    requires
        s.counter(error_bucket(e)) == u64::MAX - 1,
    ensures
        ({
            let b = error_bucket(e);
            s.bumped(b).bumped(b).bumped(b).bumped(b).bumped(b).counter(b) == u64::MAX
        }),
{
}

} // verus!
