//! The ECDSA portion of a block payload: the current key-transcript
//! reference, completed signature and reshare agreements, and the transcripts
//! resolvable by reference; plus the responses generated for completed
//! agreements not yet reported to execution.

use crate::types::{copy_response, lemma_response_views_push, response_views, Response,
    ResponseView};
use vstd::prelude::*;

verus! {

/// A reference to a transcript held by the block at `height`.
#[derive(Clone, Copy, Debug, PartialEq, Eq)]
pub struct TranscriptRef {
    pub height: u64,
    pub transcript_id: u64,
}

/// The key transcript of an ECDSA payload: the key id, and the reference to
/// the current transcript, when one exists.
#[derive(Clone, Copy, Debug, PartialEq, Eq)]
pub struct EcdsaKeyTranscript {
    pub key_id: u64,
    pub current: Option<TranscriptRef>,
}

/// A threshold-ECDSA transcript: the master public key can be derived from
/// its key material when that material is well formed.
#[derive(Clone, Debug, PartialEq, Eq)]
pub struct IdkgTranscript {
    pub transcript_id: u64,
    pub key_material: Option<Vec<u8>>,
}

/// A completed signature agreement: already reported to execution, or its
/// pre-built response not yet handed over.
#[derive(Clone, Debug, PartialEq, Eq)]
pub enum CompletedSignature {
    ReportedToExecution,
    Unreported(Response),
}

/// A completed cross-subnet reshare agreement, in the same two states.
#[derive(Clone, Debug, PartialEq, Eq)]
pub enum CompletedReshareRequest {
    ReportedToExecution,
    Unreported(Response),
}

/// The ECDSA portion of a block payload.
#[derive(Clone, Debug, PartialEq, Eq)]
pub struct EcdsaPayload {
    pub key_transcript: EcdsaKeyTranscript,
    pub signature_agreements: Vec<(u64, CompletedSignature)>,
    pub xnet_reshare_agreements: Vec<(u64, CompletedReshareRequest)>,
    pub idkg_transcripts: Vec<(u64, IdkgTranscript)>,
}

/// The responses of the signature agreements not yet reported, in payload
/// order.
pub open spec fn unreported_signature_responses(
    agreements: Seq<(u64, CompletedSignature)>,
) -> Seq<ResponseView>
    decreases agreements.len(),
{
    if agreements.len() == 0 {
        Seq::empty()
    } else {
        unreported_signature_responses(agreements.drop_last()) + (match agreements.last().1 {
            CompletedSignature::Unreported(r) => seq![r@],
            CompletedSignature::ReportedToExecution => Seq::empty(),
        })
    }
}

/// The responses of the reshare agreements not yet reported, in payload
/// order.
pub open spec fn unreported_reshare_responses(
    agreements: Seq<(u64, CompletedReshareRequest)>,
) -> Seq<ResponseView>
    decreases agreements.len(),
{
    if agreements.len() == 0 {
        Seq::empty()
    } else {
        unreported_reshare_responses(agreements.drop_last()) + (match agreements.last().1 {
            CompletedReshareRequest::Unreported(r) => seq![r@],
            CompletedReshareRequest::ReportedToExecution => Seq::empty(),
        })
    }
}

/// The transcript a reference's id resolves to, if the payload holds it: the
/// first entry with that id.
pub open spec fn find_transcript(
    transcripts: Seq<(u64, IdkgTranscript)>,
    transcript_id: u64,
) -> Option<IdkgTranscript>
    decreases transcripts.len(),
{
    if transcripts.len() == 0 {
        None
    } else if transcripts[0].0 == transcript_id {
        Some(transcripts[0].1)
    } else {
        find_transcript(transcripts.skip(1), transcript_id)
    }
}

/// Looks up a transcript by id; the first entry with that id wins.
pub fn lookup_transcript(p: &EcdsaPayload, transcript_id: u64) -> (r: Option<&IdkgTranscript>)
    ensures
        match r {
            Some(t) => find_transcript(p.idkg_transcripts@, transcript_id) == Some(*t),
            None => find_transcript(p.idkg_transcripts@, transcript_id) is None,
        },
{
    let ts = &p.idkg_transcripts;
    let mut i: usize = 0;
    proof {
        assert(ts@.skip(0) =~= ts@);
    }
    while i < ts.len()
        invariant
            i <= ts.len(),
            ts@ == p.idkg_transcripts@,
            find_transcript(ts@, transcript_id) == find_transcript(
                ts@.skip(i as int),
                transcript_id,
            ),
        decreases ts.len() - i,
    {
        proof {
            assert(ts@.skip(i as int)[0] == ts@[i as int]);
            assert(ts@.skip(i as int).skip(1) =~= ts@.skip(i as int + 1));
        }
        if ts[i].0 == transcript_id {
            return Some(&ts[i].1);
        }
        i = i + 1;
    }
    proof {
        assert(ts@.skip(ts@.len() as int) =~= Seq::<(u64, IdkgTranscript)>::empty());
    }
    None
}

/// Creates the responses to threshold-signature calls whose completed
/// signatures have not yet been reported, verbatim from the payload.
pub fn generate_responses_to_sign_with_ecdsa_calls(ecdsa_payload: &EcdsaPayload) -> (out: Vec<
    Response,
>)
    ensures
        response_views(out@) == unreported_signature_responses(
            ecdsa_payload.signature_agreements@,
        ),
{
    let agreements = &ecdsa_payload.signature_agreements;
    let mut out: Vec<Response> = Vec::new();
    let mut i: usize = 0;
    proof {
        assert(agreements@.take(0) =~= Seq::<(u64, CompletedSignature)>::empty());
        assert(response_views(out@) =~= Seq::<ResponseView>::empty());
    }
    while i < agreements.len()
        invariant
            i <= agreements.len(),
            agreements@ == ecdsa_payload.signature_agreements@,
            response_views(out@) == unreported_signature_responses(agreements@.take(i as int)),
        decreases agreements.len() - i,
    {
        proof {
            assert(agreements@.take(i as int + 1).drop_last() =~= agreements@.take(i as int));
            assert(agreements@.take(i as int + 1).last() == agreements@[i as int]);
        }
        match &agreements[i].1 {
            CompletedSignature::Unreported(r) => {
                let resp = copy_response(r);
                let ghost prev = out@;
                out.push(resp);
                proof {
                    lemma_response_views_push(prev, resp);
                    assert(response_views(prev).push(resp@) =~= response_views(prev) + seq![resp@]);
                }
            },
            CompletedSignature::ReportedToExecution => {
                proof {
                    assert(response_views(out@) + Seq::<ResponseView>::empty() =~= response_views(
                        out@,
                    ));
                }
            },
        }
        i = i + 1;
    }
    proof {
        assert(agreements@.take(agreements@.len() as int) =~= agreements@);
    }
    out
}

/// Creates the responses to initial-dealings calls whose completed reshares
/// have not yet been reported, verbatim from the payload.
pub fn generate_responses_to_initial_dealings_calls(ecdsa_payload: &EcdsaPayload) -> (out: Vec<
    Response,
>)
    ensures
        response_views(out@) == unreported_reshare_responses(
            ecdsa_payload.xnet_reshare_agreements@,
        ),
{
    let agreements = &ecdsa_payload.xnet_reshare_agreements;
    let mut out: Vec<Response> = Vec::new();
    let mut i: usize = 0;
    proof {
        assert(agreements@.take(0) =~= Seq::<(u64, CompletedReshareRequest)>::empty());
        assert(response_views(out@) =~= Seq::<ResponseView>::empty());
    }
    while i < agreements.len()
        invariant
            i <= agreements.len(),
            agreements@ == ecdsa_payload.xnet_reshare_agreements@,
            response_views(out@) == unreported_reshare_responses(agreements@.take(i as int)),
        decreases agreements.len() - i,
    {
        proof {
            assert(agreements@.take(i as int + 1).drop_last() =~= agreements@.take(i as int));
            assert(agreements@.take(i as int + 1).last() == agreements@[i as int]);
        }
        match &agreements[i].1 {
            CompletedReshareRequest::Unreported(r) => {
                let resp = copy_response(r);
                let ghost prev = out@;
                out.push(resp);
                proof {
                    lemma_response_views_push(prev, resp);
                    assert(response_views(prev).push(resp@) =~= response_views(prev) + seq![resp@]);
                }
            },
            CompletedReshareRequest::ReportedToExecution => {
                proof {
                    assert(response_views(out@) + Seq::<ResponseView>::empty() =~= response_views(
                        out@,
                    ));
                }
            },
        }
        i = i + 1;
    }
    proof {
        assert(agreements@.take(agreements@.len() as int) =~= agreements@);
    }
    out
}

} // verus!
