//! The capability that tells a sample builder what a payload holds.

use vstd::prelude::*;

verus! {

/// A payload that a depacketizer could not turn into media bytes.
#[derive(Clone, Copy, Debug, PartialEq, Eq, Structural)]
pub struct DepacketizeError;

/// Codec knowledge that a sample builder consults: which payloads can start
/// a sample, which end one, and what media bytes a payload carries.
///
/// The three methods may answer anything; a builder records each answer when
/// it gets it and decides on what it has recorded. An implementation whose
/// answers are functions of the payload can say so: it defines the three spec
/// functions, sets [`Depacketizer::exact`], and proves that its methods
/// compute them. A builder over such a depacketizer is specified down to the
/// bytes of every sample.
pub trait Depacketizer: Sized {
    /// Whether the methods are proved to compute the three spec functions
    /// below and to leave the depacketizer as it was.
    open spec fn exact(&self) -> bool {
        false
    }

    /// Whether a sample can start with `payload`.
    open spec fn partition_head(&self, payload: Seq<u8>) -> bool {
        true
    }

    /// Whether `payload`, received with the transport flag `marker`, is the
    /// last of its sample.
    open spec fn partition_tail(&self, marker: bool, payload: Seq<u8>) -> bool {
        marker
    }

    /// The media bytes inside `payload`, or `None` where it cannot be read.
    open spec fn media(&self, payload: Seq<u8>) -> Option<Seq<u8>> {
        Some(payload)
    }

    /// Strips the packetization header from `payload`.
    fn depacketize(&mut self, payload: &[u8]) -> (r: Result<Vec<u8>, DepacketizeError>)
        ensures
            old(self).exact() ==> *final(self) == *old(self),
            old(self).exact() ==> match r {
                Ok(bytes) => old(self).media(payload@) == Some(bytes@),
                Err(_) => old(self).media(payload@) is None,
            },
    ;

    /// Answers whether a sample can start with `payload`. An implementation
    /// that cannot tell answers `true`.
    fn is_partition_head(&self, payload: &[u8]) -> (b: bool)
        ensures
            self.exact() ==> b == self.partition_head(payload@),
    ;

    /// Answers whether `payload`, received with the transport flag `marker`,
    /// is the last of its sample.
    fn is_partition_tail(&self, marker: bool, payload: &[u8]) -> (b: bool)
        ensures
            self.exact() ==> b == self.partition_tail(marker, payload@),
    ;
}

/// Whether two byte strings hold the same bytes.
pub fn same_bytes(a: &[u8], b: &[u8]) -> (r: bool)
    ensures
        r == (a@ == b@),
{
    if a.len() != b.len() {
        return false;
    }
    let mut i: usize = 0;
    while i < a.len()
        invariant
            a@.len() == b@.len(),
            i <= a@.len(),
            forall|k: int| 0 <= k < i ==> a@[k] == b@[k],
        decreases a@.len() - i,
    {
        if a[i] != b[i] {
            return false;
        }
        i += 1;
    }
    assert(a@ =~= b@);
    true
}

/// A copy of `bytes`.
pub fn copy_bytes(bytes: &[u8]) -> (r: Vec<u8>)
    ensures
        r@ == bytes@,
{
    let mut out: Vec<u8> = Vec::new();
    let mut i: usize = 0;
    while i < bytes.len()
        invariant
            i <= bytes@.len(),
            out@ == bytes@.take(i as int),
        decreases bytes@.len() - i,
    {
        out.push(bytes[i]);
        i += 1;
    }
    out
}

/// A depacketizer for streams without a packetization header: the payload is
/// the media, and the transport flag alone ends a sample. Its head check can
/// be switched off, and then every payload may start a sample.
#[derive(Clone, Debug, Default)]
pub struct FakeDepacketizer {
    /// Whether `head_bytes` is consulted at all.
    pub head_checker: bool,
    /// The payloads that may start a sample while the check is on.
    pub head_bytes: Vec<Vec<u8>>,
}

impl FakeDepacketizer {
    /// Whether `payload` is one of the first `n` listed head payloads.
    pub open spec fn listed(&self, payload: Seq<u8>, n: int) -> bool {
        exists|k: int| 0 <= k < n && #[trigger] self.head_bytes@[k]@ == payload
    }
}

impl Depacketizer for FakeDepacketizer {
    open spec fn exact(&self) -> bool {
        true
    }

    /// With the head check off every payload may start a sample; with it on,
    /// the listed payloads may.
    open spec fn partition_head(&self, payload: Seq<u8>) -> bool {
        !self.head_checker || self.listed(payload, self.head_bytes@.len() as int)
    }

    /// The transport flag alone ends a sample.
    open spec fn partition_tail(&self, marker: bool, payload: Seq<u8>) -> bool {
        marker
    }

    /// The payload is the media.
    open spec fn media(&self, payload: Seq<u8>) -> Option<Seq<u8>> {
        Some(payload)
    }

    fn depacketize(&mut self, payload: &[u8]) -> (r: Result<Vec<u8>, DepacketizeError>) {
        Ok(copy_bytes(payload))
    }

    fn is_partition_head(&self, payload: &[u8]) -> (b: bool) {
        if !self.head_checker {
            return true;
        }
        let mut i: usize = 0;
        while i < self.head_bytes.len()
            invariant
                i <= self.head_bytes@.len(),
                !self.listed(payload@, i as int),
            decreases self.head_bytes@.len() - i,
        {
            if same_bytes(self.head_bytes[i].as_slice(), payload) {
                return true;
            }
            i += 1;
        }
        false
    }

    fn is_partition_tail(&self, marker: bool, payload: &[u8]) -> (b: bool) {
        marker
    }
}

} // verus!
