//! The execution interface: the batch delivered per height, the
//! message-routing collaborator that accepts batches in strict height order,
//! and an in-memory routing implementation.

use crate::chain::{BatchPayload, BatchPayloadView};
use crate::types::{response_views, Response, ResponseView};
use vstd::prelude::*;

verus! {

/// One deliverable unit: everything execution needs for one height.
#[derive(Clone, Debug, PartialEq, Eq)]
pub struct Batch {
    pub batch_number: u64,
    pub requires_full_state_hash: bool,
    pub payload: BatchPayload,
    pub randomness: Vec<u8>,
    pub ecdsa_subnet_public_keys: Vec<(u64, Vec<u8>)>,
    pub registry_version: u64,
    pub time: u64,
    pub consensus_responses: Vec<Response>,
}

/// The contents of a sequence of key entries.
pub open spec fn key_entry_views(s: Seq<(u64, Vec<u8>)>) -> Seq<(u64, Seq<u8>)> {
    s.map(|i: int, e: (u64, Vec<u8>)| (e.0, e.1@))
}

/// Mathematical value of a `Batch`.
pub struct BatchView {
    pub batch_number: u64,
    pub requires_full_state_hash: bool,
    pub payload: BatchPayloadView,
    pub randomness: Seq<u8>,
    pub ecdsa_subnet_public_keys: Seq<(u64, Seq<u8>)>,
    pub registry_version: u64,
    pub time: u64,
    pub consensus_responses: Seq<ResponseView>,
}

impl View for Batch {
    type V = BatchView;

    open spec fn view(&self) -> BatchView {
        BatchView {
            batch_number: self.batch_number,
            requires_full_state_hash: self.requires_full_state_hash,
            payload: self.payload@,
            randomness: self.randomness@,
            ecdsa_subnet_public_keys: key_entry_views(self.ecdsa_subnet_public_keys@),
            registry_version: self.registry_version,
            time: self.time,
            consensus_responses: response_views(self.consensus_responses@),
        }
    }
}

/// The contents of a sequence of batches.
pub open spec fn batch_views(s: Seq<Batch>) -> Seq<BatchView> {
    s.map(|i: int, b: Batch| b@)
}

/// Pushing a batch appends its value to the sequence's contents.
pub proof fn lemma_batch_views_push(s: Seq<Batch>, x: Batch)
    ensures
        batch_views(s.push(x)) == batch_views(s).push(x@),
{
    assert forall|l: int| 0 <= l < s.push(x).len() implies #[trigger] batch_views(s.push(x))[l]
        == batch_views(s).push(x@)[l] by {
        if l < s.len() {
            assert(s.push(x)[l] == s[l]);
        } else {
            assert(s.push(x)[l] == x);
        }
    }
    assert(batch_views(s.push(x)) =~= batch_views(s).push(x@));
}

/// The typed error the routing collaborator reports for a rejected batch.
#[derive(Clone, Copy, Debug, PartialEq, Eq)]
pub enum MessageRoutingError {
    QueueIsFull,
}

/// The execution/message-routing collaborator: accepts one batch per height,
/// in strict order, and reports the next height it expects.
pub trait MessageRouting: Sized {
    /// The batches accepted so far, in order.
    spec fn delivered(&self) -> Seq<BatchView>;

    /// The next batch height this collaborator expects.
    spec fn next_expected(&self) -> u64;

    /// Reports the next expected batch height.
    fn expected_batch_height(&self) -> (h: u64)
        ensures
            h == self.next_expected(),
    ;

    /// Hands one batch over; on success it is appended to the accepted
    /// batches and the expected height advances, on failure nothing changes.
    fn deliver_batch(&mut self, batch: Batch) -> (r: Result<(), MessageRoutingError>)
        requires
            batch.batch_number == old(self).next_expected(),
            old(self).next_expected() < u64::MAX,
        ensures
            match r {
                Ok(_) => final (self).delivered() == old(self).delivered().push(batch@)
                    && final (self).next_expected() == old(self).next_expected() + 1,
                Err(_) => final (self).delivered() == old(self).delivered()
                    && final (self).next_expected() == old(self).next_expected(),
            },
    ;
}

/// An in-memory routing collaborator: keeps the accepted batches, and can be
/// told to report a full queue at one height.
pub struct MemoryRouting {
    pub next: u64,
    pub accepted: Vec<Batch>,
    pub reject_at: Option<u64>,
}

impl MemoryRouting {
    /// A routing collaborator expecting `next` and accepting every batch.
    pub fn new(next: u64) -> (r: MemoryRouting)
        ensures
            r.next_expected() == next,
            r.delivered() == Seq::<BatchView>::empty(),
            r.reject_at is None,
    {
        let r = MemoryRouting { next, accepted: Vec::new(), reject_at: None };
        proof {
            assert(r.delivered() =~= Seq::<BatchView>::empty());
        }
        r
    }

    /// A routing collaborator that reports a full queue at `reject_at`.
    pub fn new_rejecting_at(next: u64, reject_at: u64) -> (r: MemoryRouting)
        ensures
            r.next_expected() == next,
            r.delivered() == Seq::<BatchView>::empty(),
            r.reject_at == Some(reject_at),
    {
        let r = MemoryRouting { next, accepted: Vec::new(), reject_at: Some(reject_at) };
        proof {
            assert(r.delivered() =~= Seq::<BatchView>::empty());
        }
        r
    }
}

impl MessageRouting for MemoryRouting {
    open spec fn delivered(&self) -> Seq<BatchView> {
        batch_views(self.accepted@)
    }

    open spec fn next_expected(&self) -> u64 {
        self.next
    }

    fn expected_batch_height(&self) -> (h: u64) {
        self.next
    }

    fn deliver_batch(&mut self, batch: Batch) -> (r: Result<(), MessageRoutingError>) {
        let reject = match self.reject_at {
            Some(h) => h == batch.batch_number,
            None => false,
        };
        if reject {
            Err(MessageRoutingError::QueueIsFull)
        } else {
            let ghost prev = self.accepted@;
            self.accepted.push(batch);
            self.next = self.next + 1;
            proof {
                lemma_batch_views_push(prev, batch);
            }
            Ok(())
        }
    }
}

} // verus!
