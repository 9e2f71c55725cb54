use vstd::prelude::*;
use vstd::multiset::Multiset;

use hdrhistogram::serialization::{Serializer, V2Serializer};
use hdrhistogram::Histogram;

verus! {

/// An hdrhistogram histogram of `u64` samples, held opaquely: Verus sees
/// nothing of the value inside.
#[verifier::external_body]
pub struct Hist {
    h: Histogram<u64>,
}

/// The V2 wire form of a histogram, where serialization succeeds: a pure
/// function of the histogram's value alone.
pub uninterp spec fn hist_encoding(h: Hist) -> Option<Seq<u8>>;

/// Relies on hdrhistogram::Histogram::new: builds an auto-resizing histogram
/// with the given number of significant figures; two significant figures are
/// always accepted.
#[verifier::external_body]
fn hist_new() -> Hist {
    Hist { h: Histogram::<u64>::new(2).expect("two significant figures are in range") }
}

/// Relies on hdrhistogram::Histogram::record and saturating_record: the
/// auto-resizing histogram grows to take the value; a value beyond what
/// resizing can track is recorded clamped instead, and no call fails.
#[verifier::external_body]
fn hist_record(h: &mut Hist, value: u64) {
    if h.h.record(value).is_err() {
        h.h.saturating_record(value);
    }
}

/// Relies on hdrhistogram's V2Serializer: serializes the histogram into its
/// compressed V2 wire form, a deterministic function of the histogram.
#[verifier::external_body]
fn hist_serialize(h: &Hist) -> (r: Option<Vec<u8>>)
    ensures
        match r {
            Some(v) => hist_encoding(*h) == Some(v@),
            None => hist_encoding(*h) is None,
        },
{
    let mut serializer = V2Serializer::new();
    let mut buf = Vec::new();
    match serializer.serialize(&h.h, &mut buf) {
        Ok(_) => Some(buf),
        Err(_) => None,
    }
}

/// The poll-duration histogram, two significant figures, together with the
/// mathematical multiset of the samples recorded into it.
pub struct PollHist {
    pub hist: Hist,
    pub samples: Ghost<Multiset<u64>>,
}

impl View for PollHist {
    type V = Multiset<u64>;

    open spec fn view(&self) -> Multiset<u64> {
        self.samples@
    }
}

impl PollHist {
    pub fn new() -> (r: PollHist)
        ensures
            r@ == Multiset::<u64>::empty(),
    {
        PollHist { hist: hist_new(), samples: Ghost(Multiset::empty()) }
    }

    /// Record one completed poll's duration in nanoseconds.
    pub fn record(&mut self, value: u64)
        ensures
            final(self)@ == old(self)@.insert(value),
    {
        hist_record(&mut self.hist, value);
        let ghost s = self.samples@.insert(value);
        self.samples = Ghost(s);
    }

    /// The compressed V2 wire form of the histogram.
    pub fn serialized(&self) -> (r: Option<Vec<u8>>)
        ensures
            match r {
                Some(v) => hist_encoding(self.hist) == Some(v@),
                None => hist_encoding(self.hist) is None,
            },
    {
        hist_serialize(&self.hist)
    }
}

} // verus!
