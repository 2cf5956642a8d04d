//! The delivery round end to end: ordering, idempotence, monotonicity, the
//! gap and version gates, summary handling, the height cap, fatal aborts, the
//! randomness seed, the resolved key, and the sink records.

use batch_delivery::batch_delivery::deliver_batches;
use batch_delivery::chain::{BatchPayload, Block, BlockPayload, DataPayload, Pool, PoolSlot,
    Registry, RegistryRecord, SummaryPayload, ValidationContext};
use batch_delivery::consensus_sink::VecSink;
use batch_delivery::dkg::DkgSummary;
use batch_delivery::ecdsa::{EcdsaKeyTranscript, EcdsaPayload, IdkgTranscript, TranscriptRef};
use batch_delivery::http::CanisterHttpPayload;
use batch_delivery::ingress::{ingress_payload_from_messages, IngressPayload};
use batch_delivery::messaging::{MemoryRouting, MessageRoutingError};
use batch_delivery::modular_chain::BlockExt;
use sha2::Digest;

const SUBNET: u64 = 7;
const RUNNING_VERSION: u64 = 100;

fn context() -> ValidationContext {
    ValidationContext { registry_version: 10, time: 1234 }
}

fn empty_batch_payload() -> BatchPayload {
    BatchPayload {
        ingress: IngressPayload { buffer: vec![] },
        xnet: vec![],
        canister_http: CanisterHttpPayload {
            responses: vec![],
            timeouts: vec![],
            divergence_responses: vec![],
        },
    }
}

fn data_block(height: u64) -> Block {
    Block {
        height,
        payload: BlockPayload::Data(DataPayload { batch: empty_batch_payload(), ecdsa: None }),
        context: context(),
    }
}

fn data_block_with(height: u64, batch: BatchPayload, ecdsa: Option<EcdsaPayload>) -> Block {
    Block { height, payload: BlockPayload::Data(DataPayload { batch, ecdsa }), context: context() }
}

fn summary_block(height: u64) -> Block {
    Block {
        height,
        payload: BlockPayload::Summary(SummaryPayload {
            dkg: DkgSummary { transcripts_for_new_subnets: vec![] },
            ecdsa: None,
        }),
        context: context(),
    }
}

fn slot(block: Block) -> PoolSlot {
    let h = block.height;
    PoolSlot { block: Some(block), tape: Some(vec![h as u8, 0x51]) }
}

/// A pool holding a genesis summary and data blocks at heights 1..=n.
fn standard_pool(n: u64) -> Pool {
    let mut slots = vec![slot(summary_block(0))];
    for h in 1..=n {
        slots.push(slot(data_block(h)));
    }
    Pool { slots }
}

fn registry() -> Registry {
    Registry {
        records: vec![
            RegistryRecord {
                registry_version: 10,
                subnet_id: SUBNET,
                replica_version: RUNNING_VERSION,
            },
        ],
    }
}

fn run(
    routing: &mut MemoryRouting,
    pool: &Pool,
    cap: Option<u64>,
    sink: &mut VecSink,
) -> Result<u64, MessageRoutingError> {
    deliver_batches(routing, pool, &registry(), SUBNET, RUNNING_VERSION, cap, sink)
}

#[test]
fn delivers_every_ready_height_in_order() {
    let pool = standard_pool(3);
    let mut routing = MemoryRouting::new(1);
    let mut sink = VecSink::new();
    let r = run(&mut routing, &pool, None, &mut sink);
    assert_eq!(r, Ok(3));
    assert_eq!(routing.accepted.len(), 3);
    for (i, batch) in routing.accepted.iter().enumerate() {
        assert_eq!(batch.batch_number, i as u64 + 1);
        assert!(!batch.requires_full_state_hash);
        assert_eq!(batch.registry_version, 10);
        assert_eq!(batch.time, 1234);
        assert!(batch.consensus_responses.is_empty());
        assert!(batch.ecdsa_subnet_public_keys.is_empty());
    }
    assert_eq!(routing.next, 4);
}

#[test]
fn randomness_is_the_hash_of_the_random_tape() {
    let pool = standard_pool(1);
    let mut routing = MemoryRouting::new(1);
    let mut sink = VecSink::new();
    run(&mut routing, &pool, None, &mut sink).unwrap();
    let tape = pool.slots[1].tape.as_ref().unwrap();
    let expected: Vec<u8> = sha2::Sha256::digest(tape.as_slice()).to_vec();
    assert_eq!(routing.accepted[0].randomness, expected);
}

#[test]
fn expected_height_zero_returns_zero() {
    let pool = standard_pool(2);
    let mut routing = MemoryRouting::new(0);
    let mut sink = VecSink::new();
    let r = run(&mut routing, &pool, None, &mut sink);
    assert_eq!(r, Ok(0));
    assert!(routing.accepted.is_empty());
}

#[test]
fn second_call_without_new_heights_delivers_nothing() {
    let pool = standard_pool(3);
    let mut routing = MemoryRouting::new(1);
    let mut sink = VecSink::new();
    let first = run(&mut routing, &pool, None, &mut sink).unwrap();
    assert_eq!(first, 3);
    let count = routing.accepted.len();
    let second = run(&mut routing, &pool, None, &mut sink).unwrap();
    assert_eq!(second, first);
    assert_eq!(routing.accepted.len(), count);
}

#[test]
fn returned_height_never_decreases_as_the_pool_grows() {
    let mut routing = MemoryRouting::new(1);
    let mut sink = VecSink::new();
    let first = run(&mut routing, &standard_pool(2), None, &mut sink).unwrap();
    let second = run(&mut routing, &standard_pool(5), None, &mut sink).unwrap();
    assert!(second >= first);
    assert_eq!(second, 5);
}

#[test]
fn missing_block_halts_the_round_there() {
    let mut pool = standard_pool(3);
    pool.slots[2].block = None;
    let mut routing = MemoryRouting::new(1);
    let mut sink = VecSink::new();
    let r = run(&mut routing, &pool, None, &mut sink);
    assert_eq!(r, Ok(1));
    assert_eq!(routing.accepted.len(), 1);
    assert_eq!(routing.accepted[0].batch_number, 1);
}

#[test]
fn missing_random_tape_halts_the_round_there() {
    let mut pool = standard_pool(3);
    pool.slots[2].tape = None;
    let mut routing = MemoryRouting::new(1);
    let mut sink = VecSink::new();
    let r = run(&mut routing, &pool, None, &mut sink);
    assert_eq!(r, Ok(1));
    assert_eq!(routing.accepted.len(), 1);
}

#[test]
fn version_mismatch_halts_a_non_summary_height() {
    let mut pool = standard_pool(3);
    if let Some(b) = pool.slots[2].block.as_mut() {
        b.context.registry_version = 11;
    }
    let mut registry = registry();
    registry.records.push(RegistryRecord {
        registry_version: 11,
        subnet_id: SUBNET,
        replica_version: RUNNING_VERSION + 1,
    });
    let mut routing = MemoryRouting::new(1);
    let mut sink = VecSink::new();
    let r = deliver_batches(
        &mut routing,
        &pool,
        &registry,
        SUBNET,
        RUNNING_VERSION,
        None,
        &mut sink,
    );
    assert_eq!(r, Ok(1));
    assert_eq!(routing.accepted.len(), 1);
}

#[test]
fn unknown_version_halts_a_non_summary_height() {
    let mut pool = standard_pool(2);
    if let Some(b) = pool.slots[1].block.as_mut() {
        b.context.registry_version = 99;
    }
    let mut routing = MemoryRouting::new(1);
    let mut sink = VecSink::new();
    let r = run(&mut routing, &pool, None, &mut sink);
    assert_eq!(r, Ok(0));
    assert!(routing.accepted.is_empty());
}

#[test]
fn summary_blocks_bypass_the_version_gate_and_checkpoint() {
    let mut pool = standard_pool(3);
    let mut summary = summary_block(2);
    summary.context.registry_version = 99;
    pool.slots[2] = slot(summary);
    let mut routing = MemoryRouting::new(1);
    let mut sink = VecSink::new();
    let r = run(&mut routing, &pool, None, &mut sink);
    assert_eq!(r, Ok(3));
    let batch = &routing.accepted[1];
    assert_eq!(batch.batch_number, 2);
    assert!(batch.requires_full_state_hash);
    assert!(batch.payload.ingress.buffer.is_empty());
    assert!(batch.payload.canister_http.responses.is_empty());
}

#[test]
fn rejected_handoff_aborts_the_round_immediately() {
    let pool = standard_pool(3);
    let mut routing = MemoryRouting::new_rejecting_at(1, 2);
    let mut sink = VecSink::new();
    let r = run(&mut routing, &pool, None, &mut sink);
    assert_eq!(r, Err(MessageRoutingError::QueueIsFull));
    assert_eq!(routing.accepted.len(), 1);
    assert_eq!(routing.accepted[0].batch_number, 1);
    assert_eq!(routing.next, 2);
    assert!(sink.blocks.is_empty());
}

#[test]
fn cap_limits_the_round_and_marks_a_checkpoint() {
    let pool = standard_pool(4);
    let mut routing = MemoryRouting::new(1);
    let mut sink = VecSink::new();
    let r = run(&mut routing, &pool, Some(2), &mut sink);
    assert_eq!(r, Ok(2));
    assert_eq!(routing.accepted.len(), 2);
    assert!(!routing.accepted[0].requires_full_state_hash);
    assert!(routing.accepted[1].requires_full_state_hash);
}

#[test]
fn cap_above_finalized_height_changes_nothing() {
    let pool = standard_pool(2);
    let mut routing = MemoryRouting::new(1);
    let mut sink = VecSink::new();
    let r = run(&mut routing, &pool, Some(50), &mut sink);
    assert_eq!(r, Ok(2));
    assert!(!routing.accepted[1].requires_full_state_hash);
}

#[test]
fn structural_key_error_halts_the_round() {
    let ecdsa = EcdsaPayload {
        key_transcript: EcdsaKeyTranscript {
            key_id: 1,
            current: Some(TranscriptRef { height: 2, transcript_id: 4 }),
        },
        signature_agreements: vec![],
        xnet_reshare_agreements: vec![],
        idkg_transcripts: vec![],
    };
    let mut slots = vec![slot(data_block(0)), slot(data_block(1))];
    slots.push(slot(data_block_with(2, empty_batch_payload(), Some(ecdsa))));
    let pool = Pool { slots };
    let mut routing = MemoryRouting::new(1);
    let mut sink = VecSink::new();
    let r = run(&mut routing, &pool, None, &mut sink);
    assert_eq!(r, Ok(1));
    assert_eq!(routing.accepted.len(), 1);
}

#[test]
fn resolved_key_is_carried_in_the_batch() {
    let transcript = IdkgTranscript { transcript_id: 4, key_material: Some(vec![0xde, 0xad]) };
    let ecdsa = EcdsaPayload {
        key_transcript: EcdsaKeyTranscript {
            key_id: 11,
            current: Some(TranscriptRef { height: 1, transcript_id: 4 }),
        },
        signature_agreements: vec![],
        xnet_reshare_agreements: vec![],
        idkg_transcripts: vec![(4, transcript)],
    };
    let slots = vec![
        slot(summary_block(0)),
        slot(data_block_with(1, empty_batch_payload(), Some(ecdsa))),
    ];
    let pool = Pool { slots };
    let mut routing = MemoryRouting::new(1);
    let mut sink = VecSink::new();
    let r = run(&mut routing, &pool, None, &mut sink);
    assert_eq!(r, Ok(1));
    assert_eq!(routing.accepted[0].ecdsa_subnet_public_keys, vec![(11, vec![0xde, 0xad])]);
}

#[test]
fn unresolvable_key_degrades_to_no_key_and_delivery_proceeds() {
    let ecdsa = EcdsaPayload {
        key_transcript: EcdsaKeyTranscript {
            key_id: 11,
            current: Some(TranscriptRef { height: 1, transcript_id: 999 }),
        },
        signature_agreements: vec![],
        xnet_reshare_agreements: vec![],
        idkg_transcripts: vec![],
    };
    let slots = vec![
        slot(summary_block(0)),
        slot(data_block_with(1, empty_batch_payload(), Some(ecdsa))),
        slot(data_block(2)),
    ];
    let pool = Pool { slots };
    let mut routing = MemoryRouting::new(1);
    let mut sink = VecSink::new();
    let r = run(&mut routing, &pool, None, &mut sink);
    assert_eq!(r, Ok(2));
    assert!(routing.accepted[0].ecdsa_subnet_public_keys.is_empty());
}

#[test]
fn sink_receives_the_extracted_transactions() {
    let msgs = vec![b"tx-one".to_vec(), b"tx-two".to_vec()];
    let batch = BatchPayload {
        ingress: ingress_payload_from_messages(&msgs),
        xnet: vec![],
        canister_http: CanisterHttpPayload {
            responses: vec![],
            timeouts: vec![],
            divergence_responses: vec![],
        },
    };
    let slots = vec![
        slot(summary_block(0)),
        slot(data_block_with(1, batch, None)),
        slot(data_block(2)),
    ];
    let pool = Pool { slots };
    let mut routing = MemoryRouting::new(1);
    let mut sink = VecSink::new();
    let r = run(&mut routing, &pool, None, &mut sink);
    assert_eq!(r, Ok(2));
    // Height 2 had no ingress, so only height 1 leaves a record.
    assert_eq!(sink.blocks.len(), 1);
    let record: &BlockExt = &sink.blocks[0];
    assert_eq!(record.height, 1);
    assert_eq!(record.transactions.len(), 2);
    assert_eq!(record.transactions[0].data, b"tx-one".to_vec());
    assert_eq!(record.transactions[1].data, b"tx-two".to_vec());
}

#[test]
fn malformed_ingress_degrades_to_no_record_but_still_delivers() {
    let batch = BatchPayload {
        ingress: IngressPayload { buffer: vec![1, 2, 3] },
        xnet: vec![],
        canister_http: CanisterHttpPayload {
            responses: vec![],
            timeouts: vec![],
            divergence_responses: vec![],
        },
    };
    let slots = vec![slot(summary_block(0)), slot(data_block_with(1, batch, None))];
    let pool = Pool { slots };
    let mut routing = MemoryRouting::new(1);
    let mut sink = VecSink::new();
    let r = run(&mut routing, &pool, None, &mut sink);
    assert_eq!(r, Ok(1));
    assert_eq!(routing.accepted.len(), 1);
    assert!(sink.blocks.is_empty());
}

#[test]
fn sink_appends_across_rounds() {
    let msgs = vec![b"tx".to_vec()];
    let make_pool = |n: u64| {
        let mut slots = vec![slot(summary_block(0))];
        for h in 1..=n {
            let batch = BatchPayload {
                ingress: ingress_payload_from_messages(&msgs),
                xnet: vec![],
                canister_http: CanisterHttpPayload {
                    responses: vec![],
                    timeouts: vec![],
                    divergence_responses: vec![],
                },
            };
            slots.push(slot(data_block_with(h, batch, None)));
        }
        Pool { slots }
    };
    let mut routing = MemoryRouting::new(1);
    let mut sink = VecSink::new();
    run(&mut routing, &make_pool(1), None, &mut sink).unwrap();
    run(&mut routing, &make_pool(2), None, &mut sink).unwrap();
    assert_eq!(sink.blocks.len(), 2);
    assert_eq!(sink.blocks[0].height, 1);
    assert_eq!(sink.blocks[1].height, 2);
}
