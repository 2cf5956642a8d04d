//! Finalized blocks, the artifact pool they are read from, and the registry
//! that resolves replica versions. The pool holds one slot per height; a slot
//! may lack its block or its random tape while the replica is catching up.

use crate::dkg::DkgSummary;
use crate::ecdsa::EcdsaPayload;
use crate::http::{CanisterHttpPayload, CanisterHttpPayloadView, CanisterHttpReject,
    CanisterHttpResponse, CanisterHttpResponseContent, CanisterHttpShare,
    CanisterHttpDivergenceResponse};
use crate::ingress::IngressPayload;
use crate::types::copy_bytes;
use vstd::prelude::*;

verus! {

/// Context a block was validated under.
#[derive(Clone, Copy, Debug, PartialEq, Eq)]
pub struct ValidationContext {
    pub registry_version: u64,
    pub time: u64,
}

/// The portion of a data payload handed to execution: ingress messages,
/// cross-subnet bytes, and canister-http outcomes.
#[derive(Clone, Debug, PartialEq, Eq)]
pub struct BatchPayload {
    pub ingress: IngressPayload,
    pub xnet: Vec<u8>,
    pub canister_http: CanisterHttpPayload,
}

/// Mathematical value of a `BatchPayload`.
pub struct BatchPayloadView {
    pub ingress: Seq<u8>,
    pub xnet: Seq<u8>,
    pub canister_http: CanisterHttpPayloadView,
}

impl View for BatchPayload {
    type V = BatchPayloadView;

    open spec fn view(&self) -> BatchPayloadView {
        BatchPayloadView {
            ingress: self.ingress@,
            xnet: self.xnet@,
            canister_http: self.canister_http@,
        }
    }
}

/// The empty batch payload delivered for summary heights.
pub open spec fn empty_batch_payload() -> BatchPayloadView {
    BatchPayloadView {
        ingress: Seq::empty(),
        xnet: Seq::empty(),
        canister_http: CanisterHttpPayloadView {
            responses: Seq::empty(),
            timeouts: Seq::empty(),
            divergence_responses: Seq::empty(),
        },
    }
}

/// Builds the empty batch payload.
pub fn make_empty_batch_payload() -> (r: BatchPayload)
    ensures
        r@ == empty_batch_payload(),
{
    let r = BatchPayload {
        ingress: IngressPayload { buffer: Vec::new() },
        xnet: Vec::new(),
        canister_http: CanisterHttpPayload {
            responses: Vec::new(),
            timeouts: Vec::new(),
            divergence_responses: Vec::new(),
        },
    };
    proof {
        assert(r@.canister_http.responses =~= empty_batch_payload().canister_http.responses);
        assert(r@.canister_http.divergence_responses
            =~= empty_batch_payload().canister_http.divergence_responses);
    }
    r
}

/// Copies a canister-http payload.
pub fn copy_canister_http_payload(p: &CanisterHttpPayload) -> (r: CanisterHttpPayload)
    ensures
        r@ == p@,
{
    let mut responses: Vec<CanisterHttpResponse> = Vec::new();
    let mut i: usize = 0;
    while i < p.responses.len()
        invariant
            i <= p.responses.len(),
            responses@.map(|l: int, x: CanisterHttpResponse| x@) =~= p.responses@.take(
                i as int,
            ).map(|l: int, x: CanisterHttpResponse| x@),
        decreases p.responses.len() - i,
    {
        let src = &p.responses[i];
        let copied = CanisterHttpResponse {
            id: src.id,
            content: match &src.content {
                CanisterHttpResponseContent::Success(d) => CanisterHttpResponseContent::Success(
                    copy_bytes(d),
                ),
                CanisterHttpResponseContent::Reject(rej) => CanisterHttpResponseContent::Reject(
                    CanisterHttpReject { code: rej.code, message: copy_bytes(&rej.message) },
                ),
            },
        };
        let ghost prev = responses@;
        responses.push(copied);
        proof {
            assert(copied@ == p.responses@[i as int]@);
            assert(responses@.map(|l: int, x: CanisterHttpResponse| x@) =~= prev.map(
                |l: int, x: CanisterHttpResponse| x@,
            ).push(copied@));
            assert(p.responses@.take(i as int + 1).map(|l: int, x: CanisterHttpResponse| x@)
                =~= p.responses@.take(i as int).map(|l: int, x: CanisterHttpResponse| x@).push(
                p.responses@[i as int]@,
            ));
        }
        i = i + 1;
    }
    let mut timeouts: Vec<u64> = Vec::new();
    let mut j: usize = 0;
    while j < p.timeouts.len()
        invariant
            j <= p.timeouts.len(),
            timeouts@ =~= p.timeouts@.take(j as int),
        decreases p.timeouts.len() - j,
    {
        timeouts.push(p.timeouts[j]);
        proof {
            assert(p.timeouts@.take(j as int).push(p.timeouts@[j as int]) =~= p.timeouts@.take(
                j as int + 1,
            ));
        }
        j = j + 1;
    }
    let mut divergence_responses: Vec<CanisterHttpDivergenceResponse> = Vec::new();
    let mut k: usize = 0;
    while k < p.divergence_responses.len()
        invariant
            k <= p.divergence_responses.len(),
            divergence_responses@.map(|l: int, x: CanisterHttpDivergenceResponse| x@)
                =~= p.divergence_responses@.take(k as int).map(
                |l: int, x: CanisterHttpDivergenceResponse| x@,
            ),
        decreases p.divergence_responses.len() - k,
    {
        let src = &p.divergence_responses[k];
        let mut shares: Vec<CanisterHttpShare> = Vec::new();
        let mut m: usize = 0;
        while m < src.shares.len()
            invariant
                m <= src.shares.len(),
                shares@ =~= src.shares@.take(m as int),
            decreases src.shares.len() - m,
        {
            shares.push(src.shares[m]);
            proof {
                assert(src.shares@.take(m as int).push(src.shares@[m as int]) =~= src.shares@.take(
                    m as int + 1,
                ));
            }
            m = m + 1;
        }
        proof {
            assert(src.shares@.take(src.shares@.len() as int) =~= src.shares@);
        }
        let copied = CanisterHttpDivergenceResponse { shares };
        let ghost prev = divergence_responses@;
        divergence_responses.push(copied);
        proof {
            assert(copied@ == p.divergence_responses@[k as int]@);
            assert(divergence_responses@.map(|l: int, x: CanisterHttpDivergenceResponse| x@)
                =~= prev.map(|l: int, x: CanisterHttpDivergenceResponse| x@).push(copied@));
            assert(p.divergence_responses@.take(k as int + 1).map(
                |l: int, x: CanisterHttpDivergenceResponse| x@,
            ) =~= p.divergence_responses@.take(k as int).map(
                |l: int, x: CanisterHttpDivergenceResponse| x@,
            ).push(p.divergence_responses@[k as int]@));
        }
        k = k + 1;
    }
    proof {
        assert(p.responses@.take(p.responses@.len() as int) =~= p.responses@);
        assert(p.timeouts@.take(p.timeouts@.len() as int) =~= p.timeouts@);
        assert(p.divergence_responses@.take(p.divergence_responses@.len() as int)
            =~= p.divergence_responses@);
    }
    CanisterHttpPayload { responses, timeouts, divergence_responses }
}

/// Copies a batch payload.
pub fn copy_batch_payload(p: &BatchPayload) -> (r: BatchPayload)
    ensures
        r@ == p@,
{
    BatchPayload {
        ingress: IngressPayload { buffer: copy_bytes(&p.ingress.buffer) },
        xnet: copy_bytes(&p.xnet),
        canister_http: copy_canister_http_payload(&p.canister_http),
    }
}

/// A summary payload: the new DKG configuration, and possibly an ECDSA
/// payload.
#[derive(Clone, Debug, PartialEq, Eq)]
pub struct SummaryPayload {
    pub dkg: DkgSummary,
    pub ecdsa: Option<EcdsaPayload>,
}

/// A data payload: the batch handed to execution, and possibly an ECDSA
/// payload.
#[derive(Clone, Debug, PartialEq, Eq)]
pub struct DataPayload {
    pub batch: BatchPayload,
    pub ecdsa: Option<EcdsaPayload>,
}

/// The payload of a finalized block.
#[derive(Clone, Debug, PartialEq, Eq)]
pub enum BlockPayload {
    Summary(SummaryPayload),
    Data(DataPayload),
}

impl BlockPayload {
    /// Whether this is a summary payload.
    pub open spec fn spec_is_summary(&self) -> bool {
        matches!(self, BlockPayload::Summary(_))
    }

    /// Whether this is a summary payload.
    #[verifier::when_used_as_spec(spec_is_summary)]
    pub fn is_summary(&self) -> (r: bool)
        ensures
            r == self.spec_is_summary(),
    {
        match self {
            BlockPayload::Summary(_) => true,
            BlockPayload::Data(_) => false,
        }
    }

    /// The ECDSA portion of the payload, of either kind.
    pub open spec fn spec_ecdsa(&self) -> Option<EcdsaPayload> {
        match self {
            BlockPayload::Summary(s) => s.ecdsa,
            BlockPayload::Data(d) => d.ecdsa,
        }
    }

    /// The ECDSA portion of the payload, of either kind.
    pub fn as_ecdsa(&self) -> (r: Option<&EcdsaPayload>)
        ensures
            match r {
                Some(e) => self.spec_ecdsa() == Some(*e),
                None => self.spec_ecdsa() is None,
            },
    {
        match self {
            BlockPayload::Summary(s) => s.ecdsa.as_ref(),
            BlockPayload::Data(d) => d.ecdsa.as_ref(),
        }
    }
}

/// One finalized block.
#[derive(Clone, Debug, PartialEq, Eq)]
pub struct Block {
    pub height: u64,
    pub payload: BlockPayload,
    pub context: ValidationContext,
}

/// One height's slot in the pool.
#[derive(Clone, Debug, PartialEq, Eq)]
pub struct PoolSlot {
    pub block: Option<Block>,
    pub tape: Option<Vec<u8>>,
}

/// The consensus artifact pool, read-only here: one slot per height from
/// zero up to the finalized height.
#[derive(Clone, Debug, PartialEq, Eq)]
pub struct Pool {
    pub slots: Vec<PoolSlot>,
}

impl Pool {
    /// Well-formed: at least the genesis slot, and a block stored at a height
    /// carries that height.
    pub open spec fn wf(&self) -> bool {
        &&& self.slots.len() >= 1
        &&& forall|i: int|
            0 <= i < self.slots.len() ==> (#[trigger] self.slots[i].block matches Some(b)
                ==> b.height == i)
    }

    /// The highest finalized height.
    pub open spec fn spec_finalized_height(&self) -> u64 {
        (self.slots.len() - 1) as u64
    }

    /// The highest finalized height.
    #[verifier::when_used_as_spec(spec_finalized_height)]
    pub fn get_finalized_height(&self) -> (r: u64)
        requires
            self.wf(),
        ensures
            r == self.spec_finalized_height(),
    {
        (self.slots.len() - 1) as u64
    }

    /// The finalized block at `h`, when the pool holds it.
    pub open spec fn block_at(&self, h: int) -> Option<Block> {
        if 0 <= h < self.slots.len() {
            self.slots[h].block
        } else {
            None
        }
    }

    /// The random-tape artifact at `h`, when the pool holds it.
    pub open spec fn tape_at(&self, h: int) -> Option<Vec<u8>> {
        if 0 <= h < self.slots.len() {
            self.slots[h].tape
        } else {
            None
        }
    }

    /// Looks up the finalized block at `h`.
    pub fn get_finalized_block(&self, h: u64) -> (r: Option<&Block>)
        ensures
            match r {
                Some(b) => self.block_at(h as int) == Some(*b),
                None => self.block_at(h as int) is None,
            },
    {
        if h < self.slots.len() as u64 {
            self.slots[h as usize].block.as_ref()
        } else {
            None
        }
    }

    /// Looks up the random-tape artifact at `h`.
    pub fn get_random_tape(&self, h: u64) -> (r: Option<&Vec<u8>>)
        ensures
            match r {
                Some(t) => self.tape_at(h as int) == Some(*t),
                None => self.tape_at(h as int) is None,
            },
    {
        if h < self.slots.len() as u64 {
            self.slots[h as usize].tape.as_ref()
        } else {
            None
        }
    }

    /// The registry version the block at `h` was validated under.
    pub open spec fn spec_registry_version(&self, h: int) -> Option<u64> {
        match self.block_at(h) {
            Some(b) => Some(b.context.registry_version),
            None => None,
        }
    }

    /// Looks up the registry version of the block at `h`.
    pub fn registry_version(&self, h: u64) -> (r: Option<u64>)
        ensures
            r == self.spec_registry_version(h as int),
    {
        match self.get_finalized_block(h) {
            Some(b) => Some(b.context.registry_version),
            None => None,
        }
    }

    /// The height of the nearest DKG summary block at or below `h`: the walk
    /// stops without a result at a missing block, since the chain below it
    /// cannot be followed.
    pub open spec fn summary_height_at(&self, h: int) -> Option<u64>
        decreases h + 1,
    {
        if h < 0 || h >= self.slots.len() {
            None
        } else {
            match self.slots[h].block {
                Some(b) => if b.payload.spec_is_summary() {
                    Some(h as u64)
                } else if h == 0 {
                    None
                } else {
                    self.summary_height_at(h - 1)
                },
                None => None,
            }
        }
    }

    /// Finds the nearest DKG summary height at or below `h`.
    pub fn dkg_summary_height_for_finalized_height(&self, h: u64) -> (r: Option<u64>)
        requires
            self.wf(),
            h < self.slots.len(),
        ensures
            r == self.summary_height_at(h as int),
    {
        let mut i: usize = h as usize;
        loop
            invariant
                self.wf(),
                i < self.slots.len(),
                self.summary_height_at(h as int) == self.summary_height_at(i as int),
            decreases i,
        {
            match &self.slots[i].block {
                Some(b) => {
                    if b.payload.is_summary() {
                        return Some(i as u64);
                    }
                    if i == 0 {
                        return None;
                    }
                },
                None => {
                    return None;
                },
            }
            i = i - 1;
        }
    }
}

/// One registry record: the replica version a subnet must run at a registry
/// version.
#[derive(Clone, Copy, Debug, PartialEq, Eq)]
pub struct RegistryRecord {
    pub registry_version: u64,
    pub subnet_id: u64,
    pub replica_version: u64,
}

/// The registry, read-only here: replica-version records by registry version
/// and subnet.
#[derive(Clone, Debug, PartialEq, Eq)]
pub struct Registry {
    pub records: Vec<RegistryRecord>,
}

/// The replica version recorded for a registry version and subnet; the first
/// matching record wins, and `None` means the version is unknown.
pub open spec fn replica_version_of(
    records: Seq<RegistryRecord>,
    registry_version: u64,
    subnet_id: u64,
) -> Option<u64>
    decreases records.len(),
{
    if records.len() == 0 {
        None
    } else if records[0].registry_version == registry_version && records[0].subnet_id
        == subnet_id {
        Some(records[0].replica_version)
    } else {
        replica_version_of(records.skip(1), registry_version, subnet_id)
    }
}

impl Registry {
    /// The replica version this registry records for the pair.
    pub open spec fn spec_replica_version(&self, registry_version: u64, subnet_id: u64) -> Option<
        u64,
    > {
        replica_version_of(self.records@, registry_version, subnet_id)
    }

    /// Resolves the replica version required at a registry version for a
    /// subnet; `None` when the registry does not know it.
    pub fn lookup_replica_version(&self, registry_version: u64, subnet_id: u64) -> (r: Option<u64>)
        ensures
            r == self.spec_replica_version(registry_version, subnet_id),
    {
        let records = &self.records;
        let mut i: usize = 0;
        proof {
            assert(records@.skip(0) =~= records@);
        }
        while i < records.len()
            invariant
                i <= records.len(),
                records@ == self.records@,
                replica_version_of(records@, registry_version, subnet_id) == replica_version_of(
                    records@.skip(i as int),
                    registry_version,
                    subnet_id,
                ),
            decreases records.len() - i,
        {
            proof {
                assert(records@.skip(i as int)[0] == records@[i as int]);
                assert(records@.skip(i as int).skip(1) =~= records@.skip(i as int + 1));
            }
            let rec = &records[i];
            if rec.registry_version == registry_version && rec.subnet_id == subnet_id {
                return Some(rec.replica_version);
            }
            i = i + 1;
        }
        proof {
            assert(records@.skip(records@.len() as int) =~= Seq::<RegistryRecord>::empty());
        }
        None
    }
}

} // verus!
