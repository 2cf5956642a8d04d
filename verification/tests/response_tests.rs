//! Response generation: initial-DKG merges, canister-http outcomes, completed
//! signature and reshare agreements, the ingress codec, and ECDSA subnet key
//! resolution.

use batch_delivery::batch_delivery::get_ecdsa_subnet_public_key;
use batch_delivery::chain::{BatchPayload, Block, BlockPayload, DataPayload, Pool, PoolSlot,
    SummaryPayload, ValidationContext};
use batch_delivery::dkg::{generate_responses_to_setup_initial_dkg_calls, DkgSummary, NiDkgId,
    NiDkgTag, NiDkgTranscript};
use batch_delivery::ecdsa::{generate_responses_to_sign_with_ecdsa_calls, CompletedReshareRequest,
    CompletedSignature, EcdsaKeyTranscript, EcdsaPayload, IdkgTranscript, TranscriptRef};
use batch_delivery::http::{generate_execution_responses_for_canister_http_responses,
    CanisterHttpDivergenceResponse, CanisterHttpPayload, CanisterHttpReject, CanisterHttpResponse,
    CanisterHttpResponseContent, CanisterHttpShare};
use batch_delivery::ingress::{ingress_messages, ingress_payload_from_messages, IngressPayload};
use batch_delivery::types::{Payload, RejectCode, Response};
use sha2::Digest;

fn nidkg_id(tag: NiDkgTag) -> NiDkgId {
    NiDkgId { start_block_height: 1, dealer_subnet: 7, dkg_tag: tag, remote_target_id: 9 }
}

fn transcript(tag: NiDkgTag, public_key: Vec<u8>) -> NiDkgTranscript {
    NiDkgTranscript {
        dkg_id: nidkg_id(tag),
        threshold: 2,
        public_key,
        internal_data: vec![0xaa, 0xbb],
    }
}

fn framed(m: &[u8]) -> Vec<u8> {
    let mut out = (m.len() as u64).to_be_bytes().to_vec();
    out.extend_from_slice(m);
    out
}

fn record_bytes(t: &NiDkgTranscript) -> Vec<u8> {
    let mut out = Vec::new();
    out.extend_from_slice(&t.dkg_id.start_block_height.to_be_bytes());
    out.extend_from_slice(&t.dkg_id.dealer_subnet.to_be_bytes());
    out.push(match t.dkg_id.dkg_tag {
        NiDkgTag::LowThreshold => 1,
        NiDkgTag::HighThreshold => 2,
    });
    out.extend_from_slice(&t.dkg_id.remote_target_id.to_be_bytes());
    out.extend_from_slice(&t.threshold.to_be_bytes());
    out.extend_from_slice(&framed(&t.public_key));
    out.extend_from_slice(&framed(&t.internal_data));
    out
}

fn expected_setup_bytes(low: &NiDkgTranscript, high: &NiDkgTranscript) -> Vec<u8> {
    let mut subnet_id: Vec<u8> = sha2::Sha224::digest(high.public_key.as_slice()).to_vec();
    subnet_id.push(2);
    let mut out = Vec::new();
    out.extend_from_slice(&framed(&record_bytes(low)));
    out.extend_from_slice(&framed(&record_bytes(high)));
    out.extend_from_slice(&framed(&subnet_id));
    out.extend_from_slice(&framed(&high.public_key));
    out
}

#[test]
fn dkg_merge_two_successes() {
    let low = transcript(NiDkgTag::LowThreshold, vec![1, 2, 3]);
    let high = transcript(NiDkgTag::HighThreshold, vec![4, 5, 6, 7]);
    let rows = vec![
        (low.dkg_id, 5u64, Ok(low.clone())),
        (high.dkg_id, 5u64, Ok(high.clone())),
    ];
    let out = generate_responses_to_setup_initial_dkg_calls(&rows);
    assert_eq!(out.len(), 1);
    assert_eq!(out[0].originator_reply_callback, 5);
    assert_eq!(out[0].originator, 0);
    assert_eq!(out[0].respondent, 0);
    assert_eq!(out[0].refund, 0);
    match &out[0].response_payload {
        Payload::Data(bytes) => assert_eq!(bytes, &expected_setup_bytes(&low, &high)),
        other => panic!("expected a success payload, got {:?}", other),
    }
}

#[test]
fn dkg_merge_high_error_rejects_with_its_message() {
    let low = transcript(NiDkgTag::LowThreshold, vec![1]);
    let rows = vec![
        (nidkg_id(NiDkgTag::LowThreshold), 5u64, Ok(low)),
        (nidkg_id(NiDkgTag::HighThreshold), 5u64, Err(b"e".to_vec())),
    ];
    let out = generate_responses_to_setup_initial_dkg_calls(&rows);
    assert_eq!(out.len(), 1);
    match &out[0].response_payload {
        Payload::Reject(ctx) => {
            assert_eq!(ctx.code, RejectCode::CanisterReject);
            assert_eq!(ctx.message, b"e".to_vec());
        },
        other => panic!("expected a reject, got {:?}", other),
    }
}

#[test]
fn dkg_merge_two_errors_concatenates_messages() {
    let rows = vec![
        (nidkg_id(NiDkgTag::LowThreshold), 5u64, Err(b"a".to_vec())),
        (nidkg_id(NiDkgTag::HighThreshold), 5u64, Err(b"b".to_vec())),
    ];
    let out = generate_responses_to_setup_initial_dkg_calls(&rows);
    assert_eq!(out.len(), 1);
    match &out[0].response_payload {
        Payload::Reject(ctx) => {
            assert_eq!(ctx.code, RejectCode::CanisterReject);
            assert_eq!(ctx.message, b"ab".to_vec());
        },
        other => panic!("expected a reject, got {:?}", other),
    }
}

#[test]
fn dkg_merge_low_only_produces_nothing() {
    let low = transcript(NiDkgTag::LowThreshold, vec![1]);
    let rows = vec![(nidkg_id(NiDkgTag::LowThreshold), 5u64, Ok(low))];
    let out = generate_responses_to_setup_initial_dkg_calls(&rows);
    assert_eq!(out.len(), 0);
}

#[test]
fn dkg_merge_duplicate_row_latest_wins() {
    let low = transcript(NiDkgTag::LowThreshold, vec![1]);
    let high = transcript(NiDkgTag::HighThreshold, vec![2]);
    let rows = vec![
        (nidkg_id(NiDkgTag::LowThreshold), 5u64, Ok(low.clone())),
        (nidkg_id(NiDkgTag::HighThreshold), 5u64, Err(b"old".to_vec())),
        (nidkg_id(NiDkgTag::HighThreshold), 5u64, Ok(high.clone())),
    ];
    let out = generate_responses_to_setup_initial_dkg_calls(&rows);
    assert_eq!(out.len(), 1);
    match &out[0].response_payload {
        Payload::Data(bytes) => assert_eq!(bytes, &expected_setup_bytes(&low, &high)),
        other => panic!("expected a success payload, got {:?}", other),
    }
}

#[test]
fn dkg_responses_come_in_ascending_callback_order() {
    let rows = vec![
        (nidkg_id(NiDkgTag::LowThreshold), 9u64, Err(b"x".to_vec())),
        (nidkg_id(NiDkgTag::LowThreshold), 3u64, Err(b"y".to_vec())),
    ];
    let out = generate_responses_to_setup_initial_dkg_calls(&rows);
    assert_eq!(out.len(), 2);
    assert_eq!(out[0].originator_reply_callback, 3);
    assert_eq!(out[1].originator_reply_callback, 9);
}

#[test]
fn canister_http_two_successes_timeout_and_shareless_divergence() {
    let payload = CanisterHttpPayload {
        responses: vec![
            CanisterHttpResponse { id: 1, content: CanisterHttpResponseContent::Success(vec![10]) },
            CanisterHttpResponse { id: 2, content: CanisterHttpResponseContent::Success(vec![20]) },
        ],
        timeouts: vec![3],
        divergence_responses: vec![CanisterHttpDivergenceResponse { shares: vec![] }],
    };
    let out = generate_execution_responses_for_canister_http_responses(&payload);
    assert_eq!(out.len(), 3);
    assert_eq!(out[0].originator_reply_callback, 1);
    assert_eq!(out[0].response_payload, Payload::Data(vec![10]));
    assert_eq!(out[1].originator_reply_callback, 2);
    assert_eq!(out[1].response_payload, Payload::Data(vec![20]));
    assert_eq!(out[2].originator_reply_callback, 3);
    match &out[2].response_payload {
        Payload::Reject(ctx) => {
            assert_eq!(ctx.code, RejectCode::SysTransient);
            assert_eq!(ctx.message, b"Canister http request timed out".to_vec());
        },
        other => panic!("expected a reject, got {:?}", other),
    }
}

#[test]
fn canister_http_divergence_with_share_rejects_via_first_share() {
    let payload = CanisterHttpPayload {
        responses: vec![],
        timeouts: vec![],
        divergence_responses: vec![
            CanisterHttpDivergenceResponse {
                shares: vec![CanisterHttpShare { id: 8 }, CanisterHttpShare { id: 4 }],
            },
        ],
    };
    let out = generate_execution_responses_for_canister_http_responses(&payload);
    assert_eq!(out.len(), 1);
    assert_eq!(out[0].originator_reply_callback, 8);
    match &out[0].response_payload {
        Payload::Reject(ctx) => {
            assert_eq!(ctx.code, RejectCode::SysTransient);
            assert_eq!(
                ctx.message,
                b"Canister http responses were different across replicas, and no consensus was reached".to_vec()
            );
        },
        other => panic!("expected a reject, got {:?}", other),
    }
}

#[test]
fn canister_http_reject_outcome_passes_through() {
    let payload = CanisterHttpPayload {
        responses: vec![
            CanisterHttpResponse {
                id: 6,
                content: CanisterHttpResponseContent::Reject(
                    CanisterHttpReject { code: RejectCode::CanisterReject, message: b"nope".to_vec() },
                ),
            },
        ],
        timeouts: vec![],
        divergence_responses: vec![],
    };
    let out = generate_execution_responses_for_canister_http_responses(&payload);
    assert_eq!(out.len(), 1);
    match &out[0].response_payload {
        Payload::Reject(ctx) => {
            assert_eq!(ctx.code, RejectCode::CanisterReject);
            assert_eq!(ctx.message, b"nope".to_vec());
        },
        other => panic!("expected a reject, got {:?}", other),
    }
}

fn sample_response(cb: u64) -> Response {
    Response {
        originator: 0,
        respondent: 0,
        originator_reply_callback: cb,
        refund: 0,
        response_payload: Payload::Data(vec![cb as u8]),
    }
}

fn empty_ecdsa_payload() -> EcdsaPayload {
    EcdsaPayload {
        key_transcript: EcdsaKeyTranscript { key_id: 1, current: None },
        signature_agreements: vec![],
        xnet_reshare_agreements: vec![],
        idkg_transcripts: vec![],
    }
}

#[test]
fn only_unreported_signatures_are_emitted() {
    let mut p = empty_ecdsa_payload();
    p.signature_agreements = vec![
        (1, CompletedSignature::ReportedToExecution),
        (2, CompletedSignature::Unreported(sample_response(2))),
        (3, CompletedSignature::Unreported(sample_response(3))),
    ];
    let out = generate_responses_to_sign_with_ecdsa_calls(&p);
    assert_eq!(out.len(), 2);
    assert_eq!(out[0], sample_response(2));
    assert_eq!(out[1], sample_response(3));
}

#[test]
fn only_unreported_reshares_are_emitted() {
    let mut p = empty_ecdsa_payload();
    p.xnet_reshare_agreements = vec![
        (1, CompletedReshareRequest::Unreported(sample_response(9))),
        (2, CompletedReshareRequest::ReportedToExecution),
    ];
    let out = batch_delivery::ecdsa::generate_responses_to_initial_dealings_calls(&p);
    assert_eq!(out.len(), 1);
    assert_eq!(out[0], sample_response(9));
}

#[test]
fn ingress_codec_round_trips() {
    let msgs = vec![vec![1u8, 2, 3], vec![], vec![9u8; 40]];
    let payload = ingress_payload_from_messages(&msgs);
    let decoded = ingress_messages(&payload).expect("well-formed buffer");
    assert_eq!(decoded, msgs);
}

#[test]
fn ingress_decode_rejects_truncation() {
    assert!(ingress_messages(&IngressPayload { buffer: vec![0, 0, 0] }).is_none());
    let buffer = vec![0, 0, 0, 0, 0, 0, 0, 9, 1, 2];
    assert!(ingress_messages(&IngressPayload { buffer }).is_none());
}

fn context() -> ValidationContext {
    ValidationContext { registry_version: 10, time: 1234 }
}

fn data_block(height: u64, ecdsa: Option<EcdsaPayload>) -> Block {
    Block {
        height,
        payload: BlockPayload::Data(DataPayload {
            batch: BatchPayload {
                ingress: IngressPayload { buffer: vec![] },
                xnet: vec![],
                canister_http: CanisterHttpPayload {
                    responses: vec![],
                    timeouts: vec![],
                    divergence_responses: vec![],
                },
            },
            ecdsa,
        }),
        context: context(),
    }
}

fn summary_block(height: u64, ecdsa: Option<EcdsaPayload>) -> Block {
    Block {
        height,
        payload: BlockPayload::Summary(SummaryPayload {
            dkg: DkgSummary { transcripts_for_new_subnets: vec![] },
            ecdsa,
        }),
        context: context(),
    }
}

fn slot(block: Block) -> PoolSlot {
    PoolSlot { block: Some(block), tape: Some(vec![7]) }
}

#[test]
fn key_resolution_without_payload_yields_no_key() {
    let pool = Pool { slots: vec![slot(summary_block(0, None)), slot(data_block(1, None))] };
    let r = get_ecdsa_subnet_public_key(pool.slots[1].block.as_ref().unwrap(), &pool);
    assert_eq!(r, Ok(None));
}

#[test]
fn key_resolution_without_summary_ancestor_is_structural() {
    let ecdsa = EcdsaPayload {
        key_transcript: EcdsaKeyTranscript {
            key_id: 1,
            current: Some(TranscriptRef { height: 1, transcript_id: 4 }),
        },
        signature_agreements: vec![],
        xnet_reshare_agreements: vec![],
        idkg_transcripts: vec![],
    };
    let pool = Pool { slots: vec![slot(data_block(0, None)), slot(data_block(1, Some(ecdsa)))] };
    let r = get_ecdsa_subnet_public_key(pool.slots[1].block.as_ref().unwrap(), &pool);
    assert!(r.is_err());
    assert_eq!(r.unwrap_err().height, 1);
}

#[test]
fn key_resolution_failure_yields_no_key_with_summary_present() {
    let ecdsa = EcdsaPayload {
        key_transcript: EcdsaKeyTranscript {
            key_id: 1,
            current: Some(TranscriptRef { height: 1, transcript_id: 4 }),
        },
        signature_agreements: vec![],
        xnet_reshare_agreements: vec![],
        idkg_transcripts: vec![],
    };
    let pool = Pool {
        slots: vec![slot(summary_block(0, None)), slot(data_block(1, Some(ecdsa)))],
    };
    let r = get_ecdsa_subnet_public_key(pool.slots[1].block.as_ref().unwrap(), &pool);
    assert_eq!(r, Ok(None));
}

#[test]
fn key_resolution_success_returns_key_material() {
    let transcript = IdkgTranscript { transcript_id: 4, key_material: Some(vec![0xde, 0xad]) };
    let ecdsa = EcdsaPayload {
        key_transcript: EcdsaKeyTranscript {
            key_id: 11,
            current: Some(TranscriptRef { height: 1, transcript_id: 4 }),
        },
        signature_agreements: vec![],
        xnet_reshare_agreements: vec![],
        idkg_transcripts: vec![(4, transcript)],
    };
    let pool = Pool {
        slots: vec![slot(summary_block(0, None)), slot(data_block(1, Some(ecdsa)))],
    };
    let r = get_ecdsa_subnet_public_key(pool.slots[1].block.as_ref().unwrap(), &pool);
    assert_eq!(r, Ok(Some((11, vec![0xde, 0xad]))));
}
