//! The delivery round: walks finalized heights from the next expected batch
//! height, applies the readiness and version gates, resolves the ECDSA subnet
//! key, generates the subnet-call responses, assembles each batch and hands
//! it to the routing collaborator, and finally emits the extracted per-height
//! records to the auxiliary sink.

use crate::chain::{copy_batch_payload, empty_batch_payload, make_empty_batch_payload, BatchPayload,
    Block, BlockPayload, Pool, Registry};
use crate::consensus_sink::{nonempty_block_views, ConsensusSink};
use crate::crypto::{derive_randomness, randomness_of};
use crate::dkg::setup_initial_dkg_responses;
use crate::ecdsa::{find_transcript, lookup_transcript, unreported_reshare_responses,
    unreported_signature_responses};
use crate::http::{canister_http_responses, generate_execution_responses_for_canister_http_responses};
use crate::ingress::{decode_ingress, ingress_messages};
use crate::messaging::{key_entry_views, Batch, BatchView, MessageRouting, MessageRoutingError};
use crate::modular_chain::{block_ext_views, BlockExt, BlockExtView, TransactionExt,
    TransactionExtView};
use crate::types::{copy_bytes, response_views, Response, ResponseView};
use vstd::prelude::*;

verus! {

/// Everything one delivery round reads: the pool and registry snapshots, the
/// subnet, the running replica version, and the optional height cap.
pub struct RoundContext {
    pub pool: Pool,
    pub registry: Registry,
    pub subnet_id: u64,
    pub current_replica_version: u64,
    pub cap: Option<u64>,
}

/// The highest height a round may deliver: the finalized height, lowered to
/// the cap when one is given.
pub open spec fn target_height(ctx: RoundContext) -> u64 {
    let fin = ctx.pool.spec_finalized_height();
    match ctx.cap {
        Some(c) => if c <= fin {
            c
        } else {
            fin
        },
        None => fin,
    }
}

/// Whether the registry resolves the block's registry version, for this
/// subnet, to exactly the running replica version.
pub open spec fn version_gate_ok(ctx: RoundContext, b: Block) -> bool {
    ctx.registry.spec_replica_version(b.context.registry_version, ctx.subnet_id) == Some(
        ctx.current_replica_version,
    )
}

/// Whether the block carries an ECDSA payload with a current key-transcript
/// reference.
pub open spec fn has_current_key_ref(b: Block) -> bool {
    b.payload.spec_ecdsa() matches Some(e) && e.key_transcript.current is Some
}

/// Whether key resolution for this block halts the round: a key is required
/// but no DKG summary ancestor is in the pool.
pub open spec fn structural_key_halt(pool: Pool, b: Block) -> bool {
    has_current_key_ref(b) && pool.summary_height_at(b.height as int) is None
}

/// The ECDSA subnet key the block resolves to, when the reference points into
/// the summary-to-block chain, the transcript is found there, and its key
/// material is well formed; `None` on any other outcome.
pub open spec fn resolved_key(pool: Pool, b: Block) -> Option<(u64, Seq<u8>)> {
    match b.payload.spec_ecdsa() {
        None => None,
        Some(e) => match e.key_transcript.current {
            None => None,
            Some(r) => match pool.summary_height_at(b.height as int) {
                None => None,
                Some(sh) => if sh <= r.height && r.height <= b.height {
                    match pool.block_at(r.height as int) {
                        None => None,
                        Some(rb) => match rb.payload.spec_ecdsa() {
                            None => None,
                            Some(re) => match find_transcript(
                                re.idkg_transcripts@,
                                r.transcript_id,
                            ) {
                                None => None,
                                Some(t) => match t.key_material {
                                    None => None,
                                    Some(k) => Some((e.key_transcript.key_id, k@)),
                                },
                            },
                        },
                    }
                } else {
                    None
                },
            },
        },
    }
}

/// The key entries of a batch: zero or one.
pub open spec fn key_entries(pool: Pool, b: Block) -> Seq<(u64, Seq<u8>)> {
    match resolved_key(pool, b) {
        Some(k) => seq![k],
        None => Seq::empty(),
    }
}

/// All responses a block generates for subnet calls: the DKG setup responses
/// of a summary payload; for a data payload the unreported signature and
/// reshare responses, then the canister-http responses.
pub open spec fn subnet_call_responses(b: Block) -> Seq<ResponseView> {
    match b.payload {
        BlockPayload::Summary(s) => setup_initial_dkg_responses(s.dkg.transcripts_for_new_subnets@),
        BlockPayload::Data(d) => (match d.ecdsa {
            Some(e) => unreported_signature_responses(e.signature_agreements@)
                + unreported_reshare_responses(e.xnet_reshare_agreements@),
            None => Seq::empty(),
        }) + canister_http_responses(d.batch.canister_http),
    }
}

/// Whether height `h` is deliverable: its block and random tape are in the
/// pool, a non-summary block passes the version gate, and key resolution does
/// not halt structurally.
pub open spec fn ready_at(ctx: RoundContext, h: int) -> bool {
    &&& ctx.pool.block_at(h) is Some
    &&& ctx.pool.tape_at(h) is Some
    &&& {
        let b = ctx.pool.block_at(h).unwrap();
        &&& (b.payload.spec_is_summary() || version_gate_ok(ctx, b))
        &&& !structural_key_halt(ctx.pool, b)
    }
}

/// The batch delivered at a ready height: checkpoint on summaries and at the
/// cap, empty payload for summaries, randomness hashed from the tape, the
/// resolved key, context from the block, and the generated responses.
pub open spec fn batch_at(ctx: RoundContext, h: int) -> BatchView {
    let b = ctx.pool.block_at(h).unwrap();
    let tape = ctx.pool.tape_at(h).unwrap();
    BatchView {
        batch_number: h as u64,
        requires_full_state_hash: b.payload.spec_is_summary() || ctx.cap == Some(h as u64),
        payload: match b.payload {
            BlockPayload::Summary(_) => empty_batch_payload(),
            BlockPayload::Data(d) => d.batch@,
        },
        randomness: randomness_of(tape@),
        ecdsa_subnet_public_keys: key_entries(ctx.pool, b),
        registry_version: b.context.registry_version,
        time: b.context.time,
        consensus_responses: subnet_call_responses(b),
    }
}

/// The batches a round starting at `start` delivers when every handoff
/// succeeds: one per consecutive ready height up to the target.
pub open spec fn round_plan(ctx: RoundContext, start: int) -> Seq<BatchView>
    decreases target_height(ctx) + 1 - start,
{
    if start > target_height(ctx) {
        Seq::empty()
    } else if !ready_at(ctx, start) {
        Seq::empty()
    } else {
        seq![batch_at(ctx, start)] + round_plan(ctx, start + 1)
    }
}

/// The batch portion a block hands to extraction: the data payload's batch,
/// nothing for a summary.
pub open spec fn payload_batch_of(b: Block) -> Option<BatchPayload> {
    match b.payload {
        BlockPayload::Summary(_) => None,
        BlockPayload::Data(d) => Some(d.batch),
    }
}

/// The per-height records extraction produces: one record holding the decoded
/// ingress messages, none for a summary height or a malformed ingress buffer.
pub open spec fn extracted_records(height: u64, batch: Option<BatchPayload>) -> Seq<BlockExtView> {
    match batch {
        None => Seq::empty(),
        Some(p) => match decode_ingress(p.ingress@) {
            None => Seq::empty(),
            Some(msgs) => seq![
                BlockExtView {
                    height,
                    transactions: msgs.map(|i: int, m: Seq<u8>| TransactionExtView { data: m }),
                },
            ],
        },
    }
}

/// The records of one delivered height.
pub open spec fn height_records(ctx: RoundContext, h: int) -> Seq<BlockExtView> {
    extracted_records(h as u64, payload_batch_of(ctx.pool.block_at(h).unwrap()))
}

/// The records of the first `n` delivered heights of a round starting at
/// `start`.
pub open spec fn round_records(ctx: RoundContext, start: int, n: int) -> Seq<BlockExtView>
    decreases n,
{
    if n <= 0 {
        Seq::empty()
    } else {
        round_records(ctx, start, n - 1) + height_records(ctx, start + n - 1)
    }
}

/// Mathematical value of an optional borrowed batch payload.
pub open spec fn option_payload_view(o: Option<&BatchPayload>) -> Option<BatchPayload> {
    match o {
        Some(p) => Some(*p),
        None => None,
    }
}

/// Extracts the ingress messages of one delivered height into a per-height
/// record; a malformed ingress buffer degrades to no record.
pub fn extract_ingress_messages(height: u64, batch: Option<&BatchPayload>, blocks: &mut Vec<
    BlockExt,
>)
    ensures
        block_ext_views(final (blocks)@) == block_ext_views(old(blocks)@) + extracted_records(
            height,
            option_payload_view(batch),
        ),
{
    let p = match batch {
        Some(p) => p,
        None => {
            proof {
                assert(block_ext_views(blocks@) + Seq::<BlockExtView>::empty() =~= block_ext_views(
                    blocks@,
                ));
            }
            return ;
        },
    };
    let msgs = match ingress_messages(&p.ingress) {
        Some(m) => m,
        None => {
            proof {
                assert(block_ext_views(blocks@) + Seq::<BlockExtView>::empty() =~= block_ext_views(
                    blocks@,
                ));
            }
            return ;
        },
    };
    let ghost msg_views = crate::ingress::message_views(msgs@);
    let mut transactions: Vec<TransactionExt> = Vec::new();
    let mut i: usize = 0;
    while i < msgs.len()
        invariant
            i <= msgs.len(),
            msg_views == crate::ingress::message_views(msgs@),
            transactions@.map(|l: int, t: TransactionExt| t@) =~= msg_views.take(i as int).map(
                |l: int, m: Seq<u8>| TransactionExtView { data: m },
            ),
        decreases msgs.len() - i,
    {
        let t = TransactionExt { data: copy_bytes(&msgs[i]) };
        let ghost prev = transactions@;
        transactions.push(t);
        proof {
            assert(t@ == (TransactionExtView { data: msg_views[i as int] }));
            assert(transactions@.map(|l: int, t: TransactionExt| t@) =~= prev.map(
                |l: int, t: TransactionExt| t@,
            ).push(t@));
            assert(msg_views.take(i as int + 1).map(|l: int, m: Seq<u8>| TransactionExtView {
                data: m,
            }) =~= msg_views.take(i as int).map(|l: int, m: Seq<u8>| TransactionExtView {
                data: m,
            }).push(TransactionExtView { data: msg_views[i as int] }));
        }
        i = i + 1;
    }
    let block_ext = BlockExt { height, transactions };
    let ghost prev_blocks = blocks@;
    blocks.push(block_ext);
    proof {
        assert(msg_views.take(msg_views.len() as int) =~= msg_views);
        assert(block_ext@ == (BlockExtView {
            height,
            transactions: msg_views.map(|l: int, m: Seq<u8>| TransactionExtView { data: m }),
        }));
        assert(extracted_records(height, option_payload_view(batch)) == seq![block_ext@]);
        assert(block_ext_views(blocks@) =~= block_ext_views(prev_blocks).push(block_ext@));
        assert(block_ext_views(prev_blocks).push(block_ext@) =~= block_ext_views(prev_blocks)
            + seq![block_ext@]);
    }
}

/// The error signalling that no DKG summary ancestor was found for a height
/// whose block requires key resolution: the round should halt and resume from
/// a newer checkpoint.
#[derive(Clone, Copy, Debug, PartialEq, Eq)]
pub struct DkgSummaryNotFound {
    pub height: u64,
}

/// Mathematical value of an optional key entry.
pub open spec fn option_key_view(k: Option<(u64, Vec<u8>)>) -> Option<(u64, Seq<u8>)> {
    match k {
        Some(p) => Some((p.0, p.1@)),
        None => None,
    }
}

/// Resolves the ECDSA subnet public key the block requires, by walking back
/// to the nearest DKG summary and resolving the key-transcript reference
/// against the chain up to the block. `Err` exactly when a key is required
/// but no summary ancestor exists; every non-structural failure yields no key
/// and lets delivery proceed.
pub fn get_ecdsa_subnet_public_key(block: &Block, pool: &Pool) -> (r: Result<
    Option<(u64, Vec<u8>)>,
    DkgSummaryNotFound,
>)
    requires
        pool.wf(),
        block.height < pool.slots.len(),
    ensures
        r is Err <==> structural_key_halt(*pool, *block),
        match r {
            Ok(k) => option_key_view(k) == resolved_key(*pool, *block),
            Err(e) => e.height == block.height,
        },
{
    let ecdsa = match block.payload.as_ecdsa() {
        Some(e) => e,
        None => {
            return Ok(None);
        },
    };
    let tref = match &ecdsa.key_transcript.current {
        Some(t) => *t,
        None => {
            return Ok(None);
        },
    };
    let summary_h = match pool.dkg_summary_height_for_finalized_height(block.height) {
        Some(s) => s,
        None => {
            return Err(DkgSummaryNotFound { height: block.height });
        },
    };
    if !(summary_h <= tref.height && tref.height <= block.height) {
        return Ok(None);
    }
    let rb = match pool.get_finalized_block(tref.height) {
        Some(b) => b,
        None => {
            return Ok(None);
        },
    };
    let re = match rb.payload.as_ecdsa() {
        Some(e) => e,
        None => {
            return Ok(None);
        },
    };
    let t = match lookup_transcript(re, tref.transcript_id) {
        Some(t) => t,
        None => {
            return Ok(None);
        },
    };
    match &t.key_material {
        Some(k) => Ok(Some((ecdsa.key_transcript.key_id, copy_bytes(k)))),
        None => Ok(None),
    }
}

/// Creates the responses to the subnet calls the block answers: initial-DKG
/// setup responses from a summary payload; completed-signature, reshare and
/// canister-http responses from a data payload.
pub fn generate_responses_to_subnet_calls(block: &Block) -> (out: Vec<Response>)
    ensures
        response_views(out@) == subnet_call_responses(*block),
{
    match &block.payload {
        BlockPayload::Summary(s) => crate::dkg::generate_responses_to_setup_initial_dkg_calls(
            &s.dkg.transcripts_for_new_subnets,
        ),
        BlockPayload::Data(d) => {
            let mut out: Vec<Response> = Vec::new();
            match &d.ecdsa {
                Some(e) => {
                    let mut sig = crate::ecdsa::generate_responses_to_sign_with_ecdsa_calls(e);
                    let ghost sig0 = sig@;
                    out.append(&mut sig);
                    let mut reshare = crate::ecdsa::generate_responses_to_initial_dealings_calls(e);
                    let ghost reshare0 = reshare@;
                    out.append(&mut reshare);
                    proof {
                        assert(out@ =~= sig0 + reshare0);
                        lemma_response_views_add(sig0, reshare0);
                    }
                },
                None => {
                },
            }
            let ghost prev_out = out@;
            let ghost before_http = response_views(out@);
            let mut http = generate_execution_responses_for_canister_http_responses(
                &d.batch.canister_http,
            );
            let ghost http0 = http@;
            out.append(&mut http);
            proof {
                lemma_response_views_add(prev_out, http0);
                match d.ecdsa {
                    Some(_) => {
                        assert(response_views(out@) =~= subnet_call_responses(*block));
                    },
                    None => {
                        assert(before_http =~= Seq::<ResponseView>::empty());
                        assert(response_views(out@) =~= subnet_call_responses(*block));
                    },
                }
            }
            out
        },
    }
}

/// Concatenating response lists concatenates their contents.
pub proof fn lemma_response_views_add(a: Seq<Response>, b: Seq<Response>)
    ensures
        response_views(a + b) == response_views(a) + response_views(b),
{
    assert forall|l: int| 0 <= l < (a + b).len() implies #[trigger] response_views(a + b)[l] == (
    response_views(a) + response_views(b))[l] by {
        if l < a.len() {
            assert((a + b)[l] == a[l]);
        } else {
            assert((a + b)[l] == b[l - a.len()]);
        }
    }
    assert(response_views(a + b) =~= response_views(a) + response_views(b));
}


/// Delivers every ready batch from the routing collaborator's next expected
/// height up to `min(finalized height, cap)`, in strict height order, and
/// returns the last height actually delivered. A missing block or tape, a
/// version mismatch on a non-summary block, and a structural key-resolution
/// error all end the round quietly; a rejected handoff aborts the round with
/// the routing error and later heights are never attempted. The records
/// extracted from the delivered heights are emitted to the sink once, unless
/// the round was aborted.
pub fn deliver_batches<R: MessageRouting, S: ConsensusSink>(
    message_routing: &mut R,
    pool: &Pool,
    registry: &Registry,
    subnet_id: u64,
    current_replica_version: u64,
    max_batch_height_to_deliver: Option<u64>,
    sink: &mut S,
) -> (r: Result<u64, MessageRoutingError>)
    requires
        pool.wf(),
    ensures
        ({
            let ctx = RoundContext {
                pool: *pool,
                registry: *registry,
                subnet_id,
                current_replica_version,
                cap: max_batch_height_to_deliver,
            };
            let h0 = old(message_routing).next_expected();
            let plan = round_plan(ctx, h0 as int);
            match r {
                Ok(h) => if h0 == 0 {
                    &&& h == 0
                    &&& final (message_routing).delivered() == old(message_routing).delivered()
                    &&& final (message_routing).next_expected() == h0
                    &&& final (sink).received() == old(sink).received()
                } else {
                    &&& h as int == h0 - 1 + plan.len()
                    &&& final (message_routing).delivered() == old(message_routing).delivered()
                        + plan
                    &&& final (message_routing).next_expected() as int == h0 + plan.len()
                    &&& final (sink).received() == old(sink).received() + nonempty_block_views(
                        round_records(ctx, h0 as int, plan.len() as int),
                    )
                },
                Err(_) => exists|j: int|
                    {
                        &&& 0 <= j < plan.len()
                        &&& final (message_routing).delivered() == old(
                            message_routing,
                        ).delivered() + #[trigger] plan.take(j)
                        &&& final (message_routing).next_expected() as int == h0 + j
                        &&& final (sink).received() == old(sink).received()
                    },
            }
        }),
{
    let ghost ctx = RoundContext {
        pool: *pool,
        registry: *registry,
        subnet_id,
        current_replica_version,
        cap: max_batch_height_to_deliver,
    };
    let finalized_height = pool.get_finalized_height();
    let target: u64 = match max_batch_height_to_deliver {
        Some(m) => if m <= finalized_height {
            m
        } else {
            finalized_height
        },
        None => finalized_height,
    };
    let h0 = message_routing.expected_batch_height();
    if h0 == 0 {
        return Ok(0);
    }
    let ghost plan = round_plan(ctx, h0 as int);
    let mut h: u64 = h0;
    let mut last_delivered_batch_height: u64 = h0 - 1;
    let mut blocks: Vec<BlockExt> = Vec::new();
    proof {
        assert(plan.take(0) =~= Seq::<BatchView>::empty());
        assert(plan =~= plan.take(0) + round_plan(ctx, h0 as int));
        assert(message_routing.delivered() =~= message_routing.delivered() + plan.take(0));
        assert(block_ext_views(blocks@) =~= Seq::<BlockExtView>::empty());
    }
    loop
        invariant
            pool.wf(),
            ctx == (RoundContext {
                pool: *pool,
                registry: *registry,
                subnet_id,
                current_replica_version,
                cap: max_batch_height_to_deliver,
            }),
            target == target_height(ctx),
            plan == round_plan(ctx, h0 as int),
            h0 == old(message_routing).next_expected(),
            1 <= h0 <= h,
            h as int <= if h0 as int > target as int + 1 {
                h0 as int
            } else {
                target as int + 1
            },
            last_delivered_batch_height == h - 1,
            h as int - h0 as int <= plan.len(),
            plan == plan.take(h as int - h0 as int) + round_plan(ctx, h as int),
            message_routing.delivered() == old(message_routing).delivered() + plan.take(
                h as int - h0 as int,
            ),
            message_routing.next_expected() == h,
            block_ext_views(blocks@) == round_records(ctx, h0 as int, h as int - h0 as int),
            sink.received() == old(sink).received(),
        ensures
            h0 <= h,
            last_delivered_batch_height == h - 1,
            round_plan(ctx, h as int).len() == 0,
            h as int - h0 as int <= plan.len(),
            plan == plan.take(h as int - h0 as int) + round_plan(ctx, h as int),
            message_routing.delivered() == old(message_routing).delivered() + plan.take(
                h as int - h0 as int,
            ),
            message_routing.next_expected() == h,
            block_ext_views(blocks@) == round_records(ctx, h0 as int, h as int - h0 as int),
            sink.received() == old(sink).received(),
        decreases target as int + 1 - h as int,
    {
        let ghost k = h as int - h0 as int;
        if h > target {
            proof {
                assert(round_plan(ctx, h as int).len() == 0);
            }
            break ;
        }
        let block = match pool.get_finalized_block(h) {
            Some(b) => b,
            None => {
                proof {
                    assert(!ready_at(ctx, h as int));
                    assert(round_plan(ctx, h as int).len() == 0);
                }
                break ;
            },
        };
        let tape = match pool.get_random_tape(h) {
            Some(t) => t,
            None => {
                proof {
                    assert(!ready_at(ctx, h as int));
                    assert(round_plan(ctx, h as int).len() == 0);
                }
                break ;
            },
        };
        let consensus_responses = generate_responses_to_subnet_calls(block);
        if !block.payload.is_summary() {
            let version_ok = match pool.registry_version(h) {
                Some(v) => match registry.lookup_replica_version(v, subnet_id) {
                    Some(rv) => rv == current_replica_version,
                    None => false,
                },
                None => false,
            };
            if !version_ok {
                proof {
                    assert(!version_gate_ok(ctx, *block));
                    assert(!ready_at(ctx, h as int));
                    assert(round_plan(ctx, h as int).len() == 0);
                }
                break ;
            }
        }
        let randomness = derive_randomness(tape);
        proof {
            assert(pool.slots[h as int].block == Some(*block));
            assert(block.height == h);
        }
        let key = match get_ecdsa_subnet_public_key(block, pool) {
            Ok(maybe_key) => maybe_key,
            Err(_) => {
                proof {
                    assert(!ready_at(ctx, h as int));
                    assert(round_plan(ctx, h as int).len() == 0);
                }
                break ;
            },
        };
        let block_is_summary = block.payload.is_summary();
        let persist_batch = match max_batch_height_to_deliver {
            Some(m) => m == h,
            None => false,
        };
        let payload = match &block.payload {
            BlockPayload::Summary(_) => make_empty_batch_payload(),
            BlockPayload::Data(d) => copy_batch_payload(&d.batch),
        };
        let keys: Vec<(u64, Vec<u8>)> = match key {
            Some(kk) => {
                let mut v: Vec<(u64, Vec<u8>)> = Vec::new();
                v.push(kk);
                v
            },
            None => Vec::new(),
        };
        let batch = Batch {
            batch_number: h,
            requires_full_state_hash: block_is_summary || persist_batch,
            payload,
            randomness,
            ecdsa_subnet_public_keys: keys,
            registry_version: block.context.registry_version,
            time: block.context.time,
            consensus_responses,
        };
        proof {
            assert(ready_at(ctx, h as int));
            assert(key_entry_views(batch.ecdsa_subnet_public_keys@) =~= key_entries(
                ctx.pool,
                *block,
            ));
            assert(batch@ == batch_at(ctx, h as int));
            assert(round_plan(ctx, h as int) == seq![batch_at(ctx, h as int)] + round_plan(
                ctx,
                h as int + 1,
            ));
            assert(plan.len() > k);
            assert(plan[k] == batch_at(ctx, h as int));
            assert(h < u64::MAX);
        }
        let result = message_routing.deliver_batch(batch);
        match result {
            Err(err) => {
                proof {
                    assert(0 <= k < plan.len());
                    assert(message_routing.delivered() == old(message_routing).delivered()
                        + plan.take(k));
                    assert(message_routing.next_expected() as int == h0 + k);
                    assert(sink.received() == old(sink).received());
                }
                return Err(err);
            },
            Ok(_) => {
                let cur_batch: Option<&BatchPayload> = match &block.payload {
                    BlockPayload::Summary(_) => None,
                    BlockPayload::Data(d) => Some(&d.batch),
                };
                let ghost prev_records = block_ext_views(blocks@);
                extract_ingress_messages(h, cur_batch, &mut blocks);
                proof {
                    assert(plan.take(k + 1) =~= plan.take(k).push(plan[k]));
                    assert(message_routing.delivered() == old(message_routing).delivered()
                        + plan.take(k).push(batch@));
                    assert(plan.take(k).push(batch@) == plan.take(k + 1));
                    assert(plan =~= plan.take(k + 1) + round_plan(ctx, h as int + 1));
                    assert(height_records(ctx, h as int) == extracted_records(
                        h,
                        option_payload_view(cur_batch),
                    ));
                    assert(round_records(ctx, h0 as int, k + 1) == round_records(ctx, h0 as int, k)
                        + height_records(ctx, h0 as int + k));
                    assert(block_ext_views(blocks@) == round_records(ctx, h0 as int, k + 1));
                }
                last_delivered_batch_height = h;
                h = h + 1;
            },
        }
    }
    proof {
        let k = h as int - h0 as int;
        assert(plan =~= plan.take(k));
        assert(plan.len() == k);
    }
    if blocks.len() > 0 {
        sink.emit(blocks);
    } else {
        proof {
            let k = h as int - h0 as int;
            assert(block_ext_views(blocks@).len() == 0);
            assert(round_records(ctx, h0 as int, k) =~= Seq::<BlockExtView>::empty());
            assert(nonempty_block_views(Seq::<BlockExtView>::empty()) == Seq::<
                BlockExtView,
            >::empty());
            assert(sink.received() =~= old(sink).received() + nonempty_block_views(
                round_records(ctx, h0 as int, k),
            ));
        }
    }
    Ok(last_delivered_batch_height)
}


/// Idempotence: a round that starts where a previous round on the same pool,
/// registry, version and cap ended has nothing to deliver, so a second call
/// with no newly finalized heights produces no new batches and returns the
/// same height.
pub proof fn lemma_round_idempotent(ctx: RoundContext, start: int)
    ensures
        round_plan(ctx, start + round_plan(ctx, start).len()).len() == 0,
    decreases round_plan(ctx, start).len(),
{
    let p = round_plan(ctx, start);
    if start > target_height(ctx) || !ready_at(ctx, start) {
        assert(p.len() == 0);
    } else {
        let rest = round_plan(ctx, start + 1);
        assert(p == seq![batch_at(ctx, start)] + rest);
        lemma_round_idempotent(ctx, start + 1);
        assert(start + p.len() == (start + 1) + rest.len());
    }
}

/// Monotonicity: a round returns one less than its start plus its plan
/// length, and a following round starts one past the height the previous one
/// returned, so the returned height never decreases across calls, whatever
/// the pool holds by then.
pub proof fn lemma_returned_height_monotonic(earlier: RoundContext, later: RoundContext, start: int)
    ensures
        ({
            let first_returned = start - 1 + round_plan(earlier, start).len();
            let second_returned = first_returned + round_plan(later, first_returned + 1).len();
            second_returned >= first_returned
        }),
{
}

/// Ordering: the i-th planned batch of a round is for height `start + i`, so
/// batches are handed over in strictly increasing heights with no gaps or
/// repeats.
pub proof fn lemma_plan_heights(ctx: RoundContext, start: int, i: int)
    requires
        0 <= i < round_plan(ctx, start).len(),
    ensures
        round_plan(ctx, start)[i].batch_number == start + i,
        0 <= start,
        start + i <= target_height(ctx),
    decreases i,
{
    let p = round_plan(ctx, start);
    assert(start <= target_height(ctx) && ready_at(ctx, start));
    assert(ctx.pool.block_at(start) is Some);
    assert(0 <= start < ctx.pool.slots.len());
    let rest = round_plan(ctx, start + 1);
    assert(p == seq![batch_at(ctx, start)] + rest);
    if i == 0 {
        assert(p[0] == batch_at(ctx, start));
    } else {
        lemma_plan_heights(ctx, start + 1, i - 1);
        assert(p[i] == rest[i - 1]);
    }
}

/// A round plans nothing at or past a height that is not ready.
pub proof fn lemma_halt_before(ctx: RoundContext, start: int, h: int)
    requires
        start <= h,
        !ready_at(ctx, h),
    ensures
        start + round_plan(ctx, start).len() <= h,
    decreases h - start,
{
    if start > target_height(ctx) || !ready_at(ctx, start) {
        assert(round_plan(ctx, start).len() == 0);
    } else {
        assert(start < h);
        lemma_halt_before(ctx, start + 1, h);
        assert(round_plan(ctx, start) == seq![batch_at(ctx, start)] + round_plan(ctx, start + 1));
    }
}

/// Gap-halt: when the block at height `h` is absent, nothing at or above `h`
/// is delivered this round, whatever later heights hold.
pub proof fn lemma_gap_halt(ctx: RoundContext, start: int, h: int)
    requires
        start <= h,
        ctx.pool.block_at(h) is None,
    ensures
        start + round_plan(ctx, start).len() <= h,
        forall|i: int|
            0 <= i < round_plan(ctx, start).len() ==> #[trigger] round_plan(
                ctx,
                start,
            )[i].batch_number < h,
{
    assert(!ready_at(ctx, h));
    lemma_halt_before(ctx, start, h);
    assert forall|i: int| 0 <= i < round_plan(ctx, start).len() implies #[trigger] round_plan(
        ctx,
        start,
    )[i].batch_number < h by {
        lemma_plan_heights(ctx, start, i);
    }
}

/// Version-gate: a non-summary block whose required replica version does not
/// resolve to the running version halts delivery at its height, regardless of
/// its payload content.
pub proof fn lemma_version_gate_halt(ctx: RoundContext, start: int, h: int)
    requires
        start <= h,
        ctx.pool.block_at(h) matches Some(b) && !b.payload.spec_is_summary() && !version_gate_ok(
            ctx,
            b,
        ),
    ensures
        start + round_plan(ctx, start).len() <= h,
        forall|i: int|
            0 <= i < round_plan(ctx, start).len() ==> #[trigger] round_plan(
                ctx,
                start,
            )[i].batch_number < h,
{
    assert(!ready_at(ctx, h));
    lemma_halt_before(ctx, start, h);
    assert forall|i: int| 0 <= i < round_plan(ctx, start).len() implies #[trigger] round_plan(
        ctx,
        start,
    )[i].batch_number < h by {
        lemma_plan_heights(ctx, start, i);
    }
}

/// Summary-always: readiness of a summary height does not depend on the
/// registry or the running replica version, and a delivered summary batch
/// always requires a full state checkpoint. A summary block whose ECDSA key
/// reference lacks a summary ancestor still halts structurally.
pub proof fn lemma_summary_bypasses_version_gate(one: RoundContext, other: RoundContext, h: int)
    requires
        one.pool == other.pool,
        one.pool.block_at(h) matches Some(b) && b.payload.spec_is_summary(),
    ensures
        ready_at(one, h) == ready_at(other, h),
        ready_at(one, h) ==> batch_at(one, h).requires_full_state_hash,
{
}

/// Key resolution never halts without a current key reference, and halts
/// exactly when a reference exists but no DKG summary ancestor does.
pub proof fn lemma_key_resolution_cases(pool: Pool, b: Block)
    ensures
        !has_current_key_ref(b) ==> !structural_key_halt(pool, b) && resolved_key(pool, b) is None,
        structural_key_halt(pool, b) <==> has_current_key_ref(b) && pool.summary_height_at(
            b.height as int,
        ) is None,
{
}


} // verus!
