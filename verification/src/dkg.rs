//! Initial-DKG setup responses derived from a summary block: the per-subnet
//! low- and high-threshold transcript rows are merged by callback id, in
//! ascending callback order, into one success or reject response each.

use crate::crypto::{derive_subnet_id, self_authenticating_id};
use crate::types::{
    append_bytes, consensus_response, copy_bytes, lemma_response_views_push,
    make_consensus_response, response_views, Payload, PayloadView, RejectCode, RejectContext,
    RejectContextView, Response, ResponseView,
};
use crate::wire::{frame_bytes, push_be64, push_framed};
use vstd::prelude::*;

verus! {

/// Whether a DKG round produced a low- or a high-threshold transcript.
#[derive(Clone, Copy, Debug, PartialEq, Eq)]
pub enum NiDkgTag {
    LowThreshold,
    HighThreshold,
}

/// The id of one DKG round.
#[derive(Clone, Copy, Debug, PartialEq, Eq)]
pub struct NiDkgId {
    pub start_block_height: u64,
    pub dealer_subnet: u64,
    pub dkg_tag: NiDkgTag,
    pub remote_target_id: u64,
}

/// The cryptographic output of one DKG round.
#[derive(Clone, Debug, PartialEq, Eq)]
pub struct NiDkgTranscript {
    pub dkg_id: NiDkgId,
    pub threshold: u64,
    pub public_key: Vec<u8>,
    pub internal_data: Vec<u8>,
}

/// Mathematical value of a `NiDkgTranscript`.
pub struct NiDkgTranscriptView {
    pub dkg_id: NiDkgId,
    pub threshold: u64,
    pub public_key: Seq<u8>,
    pub internal_data: Seq<u8>,
}

impl View for NiDkgTranscript {
    type V = NiDkgTranscriptView;

    open spec fn view(&self) -> NiDkgTranscriptView {
        NiDkgTranscriptView {
            dkg_id: self.dkg_id,
            threshold: self.threshold,
            public_key: self.public_key@,
            internal_data: self.internal_data@,
        }
    }
}

/// The DKG portion of a summary payload: one row per requested transcript for
/// subnets being created, keyed by DKG id and callback id; errors carry the
/// failure text.
#[derive(Clone, Debug, PartialEq, Eq)]
pub struct DkgSummary {
    pub transcripts_for_new_subnets: Vec<(NiDkgId, u64, Result<NiDkgTranscript, Vec<u8>>)>,
}

/// Mathematical value of one row's transcript-or-error.
pub open spec fn transcript_result_view(r: Result<NiDkgTranscript, Vec<u8>>) -> Result<
    NiDkgTranscriptView,
    Seq<u8>,
> {
    match r {
        Ok(t) => Ok(t@),
        Err(e) => Err(e@),
    }
}

/// The latest row for a callback id and tag, or `None` when no such row
/// exists; a later duplicate row wins.
pub open spec fn latest_result(
    rows: Seq<(NiDkgId, u64, Result<NiDkgTranscript, Vec<u8>>)>,
    callback_id: u64,
    tag: NiDkgTag,
) -> Option<Result<NiDkgTranscriptView, Seq<u8>>>
    decreases rows.len(),
{
    if rows.len() == 0 {
        None
    } else if rows.last().1 == callback_id && rows.last().0.dkg_tag == tag {
        Some(transcript_result_view(rows.last().2))
    } else {
        latest_result(rows.drop_last(), callback_id, tag)
    }
}

/// The byte serialization of one transcript record.
pub open spec fn transcript_record_bytes(t: NiDkgTranscriptView) -> Seq<u8> {
    crate::wire::be64_bytes(t.dkg_id.start_block_height) + crate::wire::be64_bytes(
        t.dkg_id.dealer_subnet,
    ) + seq![tag_byte(t.dkg_id.dkg_tag)] + crate::wire::be64_bytes(t.dkg_id.remote_target_id)
        + crate::wire::be64_bytes(t.threshold) + frame_bytes(t.public_key) + frame_bytes(
        t.internal_data,
    )
}

/// The byte that serializes a DKG tag.
pub open spec fn tag_byte(tag: NiDkgTag) -> u8 {
    match tag {
        NiDkgTag::LowThreshold => 1,
        NiDkgTag::HighThreshold => 2,
    }
}

/// The success payload of one initial-DKG setup response: both transcript
/// records, the fresh subnet id derived from the high-threshold public key,
/// and that public key, each framed.
pub open spec fn setup_initial_dkg_response_bytes(
    low: NiDkgTranscriptView,
    high: NiDkgTranscriptView,
) -> Seq<u8> {
    frame_bytes(transcript_record_bytes(low)) + frame_bytes(transcript_record_bytes(high))
        + frame_bytes(self_authenticating_id(high.public_key)) + frame_bytes(high.public_key)
}

/// The merged payload for one callback id, from its low- and high-threshold
/// rows: success only when both rows are present and successful; a reject
/// carrying the error text (both texts concatenated when both rows failed)
/// when either present row failed; nothing while a row is still absent.
pub open spec fn dkg_payload_view(
    low: Option<Result<NiDkgTranscriptView, Seq<u8>>>,
    high: Option<Result<NiDkgTranscriptView, Seq<u8>>>,
) -> Option<PayloadView> {
    match (low, high) {
        (Some(Ok(l)), Some(Ok(h))) => Some(
            PayloadView::Data(setup_initial_dkg_response_bytes(l, h)),
        ),
        (Some(Err(e1)), Some(Err(e2))) => Some(
            PayloadView::Reject(
                RejectContextView { code: RejectCode::CanisterReject, message: e1 + e2 },
            ),
        ),
        (Some(Err(e)), _) => Some(
            PayloadView::Reject(RejectContextView { code: RejectCode::CanisterReject, message: e }),
        ),
        (_, Some(Err(e))) => Some(
            PayloadView::Reject(RejectContextView { code: RejectCode::CanisterReject, message: e }),
        ),
        _ => None,
    }
}

/// Inserts `x` into an ascending sequence, keeping it duplicate-free.
pub open spec fn insert_unique_sorted(s: Seq<u64>, x: u64) -> Seq<u64>
    decreases s.len(),
{
    if s.len() == 0 {
        seq![x]
    } else if x < s[0] {
        seq![x] + s
    } else if x == s[0] {
        s
    } else {
        seq![s[0]] + insert_unique_sorted(s.skip(1), x)
    }
}

/// The distinct callback ids of the rows, in ascending order.
pub open spec fn callback_ids(rows: Seq<(NiDkgId, u64, Result<NiDkgTranscript, Vec<u8>>)>) -> Seq<
    u64,
>
    decreases rows.len(),
{
    if rows.len() == 0 {
        Seq::empty()
    } else {
        insert_unique_sorted(callback_ids(rows.drop_last()), rows.last().1)
    }
}

/// The responses for the given callback ids, in order: one per id whose rows
/// merge to a payload.
pub open spec fn dkg_responses_for(
    rows: Seq<(NiDkgId, u64, Result<NiDkgTranscript, Vec<u8>>)>,
    cids: Seq<u64>,
) -> Seq<ResponseView>
    decreases cids.len(),
{
    if cids.len() == 0 {
        Seq::empty()
    } else {
        (match dkg_payload_view(
            latest_result(rows, cids[0], NiDkgTag::LowThreshold),
            latest_result(rows, cids[0], NiDkgTag::HighThreshold),
        ) {
            Some(p) => seq![consensus_response(cids[0], p)],
            None => Seq::empty(),
        }) + dkg_responses_for(rows, cids.skip(1))
    }
}

/// All initial-DKG setup responses of a summary's rows.
pub open spec fn setup_initial_dkg_responses(
    rows: Seq<(NiDkgId, u64, Result<NiDkgTranscript, Vec<u8>>)>,
) -> Seq<ResponseView> {
    dkg_responses_for(rows, callback_ids(rows))
}

/// Whether two tags are equal.
fn tag_eq(a: NiDkgTag, b: NiDkgTag) -> (r: bool)
    ensures
        r == (a == b),
{
    match (a, b) {
        (NiDkgTag::LowThreshold, NiDkgTag::LowThreshold) => true,
        (NiDkgTag::HighThreshold, NiDkgTag::HighThreshold) => true,
        _ => false,
    }
}

/// Copies a transcript.
pub fn copy_transcript(t: &NiDkgTranscript) -> (r: NiDkgTranscript)
    ensures
        r@ == t@,
{
    NiDkgTranscript {
        dkg_id: t.dkg_id,
        threshold: t.threshold,
        public_key: copy_bytes(&t.public_key),
        internal_data: copy_bytes(&t.internal_data),
    }
}

/// Copies a transcript-or-error.
fn copy_transcript_result(r: &Result<NiDkgTranscript, Vec<u8>>) -> (out: Result<
    NiDkgTranscript,
    Vec<u8>,
>)
    ensures
        transcript_result_view(out) == transcript_result_view(*r),
{
    match r {
        Ok(t) => Ok(copy_transcript(t)),
        Err(e) => Err(copy_bytes(e)),
    }
}

/// Serializes one transcript record.
fn encode_transcript_record(t: &NiDkgTranscript) -> (r: Vec<u8>)
    ensures
        r@ == transcript_record_bytes(t@),
{
    let mut b: Vec<u8> = Vec::new();
    push_be64(&mut b, t.dkg_id.start_block_height);
    push_be64(&mut b, t.dkg_id.dealer_subnet);
    let tb: u8 = match t.dkg_id.dkg_tag {
        NiDkgTag::LowThreshold => 1,
        NiDkgTag::HighThreshold => 2,
    };
    b.push(tb);
    push_be64(&mut b, t.dkg_id.remote_target_id);
    push_be64(&mut b, t.threshold);
    push_framed(&mut b, &t.public_key);
    push_framed(&mut b, &t.internal_data);
    proof {
        assert(b@ =~= transcript_record_bytes(t@));
    }
    b
}

/// Builds the success payload bytes for a completed low/high transcript pair.
fn encode_setup_initial_dkg_response(low: &NiDkgTranscript, high: &NiDkgTranscript) -> (r: Vec<u8>)
    ensures
        r@ == setup_initial_dkg_response_bytes(low@, high@),
{
    let low_record = encode_transcript_record(low);
    let high_record = encode_transcript_record(high);
    let fresh_subnet_id = derive_subnet_id(&high.public_key);
    let mut b: Vec<u8> = Vec::new();
    push_framed(&mut b, &low_record);
    push_framed(&mut b, &high_record);
    push_framed(&mut b, &fresh_subnet_id);
    push_framed(&mut b, &high.public_key);
    proof {
        assert(b@ =~= setup_initial_dkg_response_bytes(low@, high@));
    }
    b
}

/// Merges the low- and high-threshold rows of one callback id into its
/// response payload, if one is due yet.
fn generate_dkg_response_payload(
    low_threshold: Option<&Result<NiDkgTranscript, Vec<u8>>>,
    high_threshold: Option<&Result<NiDkgTranscript, Vec<u8>>>,
) -> (r: Option<Payload>)
    ensures
        match r {
            Some(p) => dkg_payload_view(
                option_result_view(low_threshold),
                option_result_view(high_threshold),
            ) == Some(p@),
            None => dkg_payload_view(
                option_result_view(low_threshold),
                option_result_view(high_threshold),
            ) is None,
        },
{
    match (low_threshold, high_threshold) {
        (Some(low), Some(high)) => match (low, high) {
            (Ok(l), Ok(h)) => Some(Payload::Data(encode_setup_initial_dkg_response(l, h))),
            (Err(e1), Err(e2)) => {
                let mut message = copy_bytes(e1);
                append_bytes(&mut message, e2);
                Some(Payload::Reject(RejectContext { code: RejectCode::CanisterReject, message }))
            },
            (Err(e), Ok(_)) => Some(
                Payload::Reject(
                    RejectContext { code: RejectCode::CanisterReject, message: copy_bytes(e) },
                ),
            ),
            (Ok(_), Err(e)) => Some(
                Payload::Reject(
                    RejectContext { code: RejectCode::CanisterReject, message: copy_bytes(e) },
                ),
            ),
        },
        (Some(low), None) => match low {
            Err(e) => Some(
                Payload::Reject(
                    RejectContext { code: RejectCode::CanisterReject, message: copy_bytes(e) },
                ),
            ),
            Ok(_) => None,
        },
        (None, Some(high)) => match high {
            Err(e) => Some(
                Payload::Reject(
                    RejectContext { code: RejectCode::CanisterReject, message: copy_bytes(e) },
                ),
            ),
            Ok(_) => None,
        },
        (None, None) => None,
    }
}

/// Mathematical value of an optional row result handed around by reference.
pub open spec fn option_result_view(o: Option<&Result<NiDkgTranscript, Vec<u8>>>) -> Option<
    Result<NiDkgTranscriptView, Seq<u8>>,
> {
    match o {
        Some(r) => Some(transcript_result_view(*r)),
        None => None,
    }
}

/// Finds the latest row for a callback id and tag.
fn find_latest_transcript(
    rows: &Vec<(NiDkgId, u64, Result<NiDkgTranscript, Vec<u8>>)>,
    callback_id: u64,
    tag: NiDkgTag,
) -> (r: Option<Result<NiDkgTranscript, Vec<u8>>>)
    ensures
        match r {
            Some(res) => latest_result(rows@, callback_id, tag) == Some(
                transcript_result_view(res),
            ),
            None => latest_result(rows@, callback_id, tag) is None,
        },
{
    let mut cur: Option<Result<NiDkgTranscript, Vec<u8>>> = None;
    let mut i: usize = 0;
    proof {
        assert(rows@.take(0) =~= Seq::<(NiDkgId, u64, Result<NiDkgTranscript, Vec<u8>>)>::empty());
    }
    while i < rows.len()
        invariant
            i <= rows.len(),
            match cur {
                Some(res) => latest_result(rows@.take(i as int), callback_id, tag) == Some(
                    transcript_result_view(res),
                ),
                None => latest_result(rows@.take(i as int), callback_id, tag) is None,
            },
        decreases rows.len() - i,
    {
        proof {
            assert(rows@.take(i as int + 1).drop_last() =~= rows@.take(i as int));
            assert(rows@.take(i as int + 1).last() == rows@[i as int]);
        }
        let row = &rows[i];
        if row.1 == callback_id && tag_eq(row.0.dkg_tag, tag) {
            cur = Some(copy_transcript_result(&row.2));
        }
        i = i + 1;
    }
    proof {
        assert(rows@.take(rows@.len() as int) =~= rows@);
    }
    cur
}

/// The effect of one stop-point insertion: everything before `j` is below
/// `x`, and `s[j]`, if it exists, is not.
proof fn lemma_insert_unique_sorted_at(s: Seq<u64>, x: u64, j: int)
    requires
        0 <= j <= s.len(),
        forall|k: int| 0 <= k < j ==> s[k] < x,
        j < s.len() ==> s[j] >= x,
    ensures
        insert_unique_sorted(s, x) == if j < s.len() && s[j] == x {
            s
        } else {
            s.take(j) + seq![x] + s.skip(j)
        },
    decreases j,
{
    if j == 0 {
        if s.len() == 0 {
            assert(insert_unique_sorted(s, x) == seq![x]);
            assert(s.take(0) + seq![x] + s.skip(0) =~= seq![x]);
        } else if s[0] == x {
            assert(insert_unique_sorted(s, x) == s);
        } else {
            assert(x < s[0]);
            assert(s.take(0) + seq![x] + s.skip(0) =~= seq![x] + s);
        }
    } else {
        assert(s[0] < x);
        let tail = s.skip(1);
        assert forall|k: int| 0 <= k < j - 1 implies tail[k] < x by {
            assert(tail[k] == s[k + 1]);
        }
        assert(j - 1 < tail.len() ==> tail[j - 1] >= x);
        lemma_insert_unique_sorted_at(tail, x, j - 1);
        assert(insert_unique_sorted(s, x) == seq![s[0]] + insert_unique_sorted(tail, x));
        if j < s.len() && s[j] == x {
            assert(tail[j - 1] == x);
            assert(seq![s[0]] + tail =~= s);
        } else {
            assert(insert_unique_sorted(tail, x) == tail.take(j - 1) + seq![x] + tail.skip(j - 1));
            assert(seq![s[0]] + (tail.take(j - 1) + seq![x] + tail.skip(j - 1)) =~= s.take(j)
                + seq![x] + s.skip(j));
        }
    }
}

/// Inserts a callback id into the ascending duplicate-free id list.
fn insert_callback_id(cids: &mut Vec<u64>, x: u64)
    ensures
        final (cids)@ == insert_unique_sorted(old(cids)@, x),
{
    let mut j: usize = 0;
    while j < cids.len() && cids[j] < x
        invariant
            j <= cids.len(),
            cids@ == old(cids)@,
            forall|k: int| 0 <= k < j ==> old(cids)@[k] < x,
        decreases cids.len() - j,
    {
        j = j + 1;
    }
    if j < cids.len() && cids[j] == x {
        proof {
            lemma_insert_unique_sorted_at(cids@, x, j as int);
        }
    } else {
        cids.insert(j, x);
        proof {
            lemma_insert_unique_sorted_at(old(cids)@, x, j as int);
            assert(old(cids)@.insert(j as int, x) =~= old(cids)@.take(j as int) + seq![x] + old(
                cids,
            )@.skip(j as int));
        }
    }
}

/// Creates the responses to initial-DKG setup calls from the summary's rows:
/// exactly one response per callback id whose rows merge to a payload, in
/// ascending callback-id order.
pub fn generate_responses_to_setup_initial_dkg_calls(
    transcripts_for_new_subnets: &Vec<(NiDkgId, u64, Result<NiDkgTranscript, Vec<u8>>)>,
) -> (out: Vec<Response>)
    ensures
        response_views(out@) == setup_initial_dkg_responses(transcripts_for_new_subnets@),
{
    let rows = transcripts_for_new_subnets;
    let mut cids: Vec<u64> = Vec::new();
    let mut i: usize = 0;
    proof {
        assert(rows@.take(0) =~= Seq::<(NiDkgId, u64, Result<NiDkgTranscript, Vec<u8>>)>::empty());
    }
    while i < rows.len()
        invariant
            i <= rows.len(),
            cids@ == callback_ids(rows@.take(i as int)),
        decreases rows.len() - i,
    {
        proof {
            assert(rows@.take(i as int + 1).drop_last() =~= rows@.take(i as int));
            assert(rows@.take(i as int + 1).last() == rows@[i as int]);
        }
        insert_callback_id(&mut cids, rows[i].1);
        i = i + 1;
    }
    proof {
        assert(rows@.take(rows@.len() as int) =~= rows@);
    }
    let mut out: Vec<Response> = Vec::new();
    let mut j: usize = 0;
    proof {
        assert(cids@.skip(0) =~= cids@);
        assert(response_views(out@) =~= Seq::<ResponseView>::empty());
        assert(Seq::<ResponseView>::empty() + dkg_responses_for(rows@, cids@)
            =~= dkg_responses_for(rows@, cids@));
    }
    while j < cids.len()
        invariant
            j <= cids.len(),
            cids@ == callback_ids(rows@),
            setup_initial_dkg_responses(rows@) == response_views(out@) + dkg_responses_for(
                rows@,
                cids@.skip(j as int),
            ),
        decreases cids.len() - j,
    {
        let cid = cids[j];
        proof {
            assert(cids@.skip(j as int)[0] == cids@[j as int]);
            assert(cids@.skip(j as int).skip(1) =~= cids@.skip(j as int + 1));
        }
        let low = find_latest_transcript(rows, cid, NiDkgTag::LowThreshold);
        let high = find_latest_transcript(rows, cid, NiDkgTag::HighThreshold);
        let payload = generate_dkg_response_payload(low.as_ref(), high.as_ref());
        match payload {
            Some(p) => {
                let resp = make_consensus_response(cid, p);
                let ghost prev = out@;
                out.push(resp);
                proof {
                    lemma_response_views_push(prev, resp);
                    assert(response_views(prev).push(resp@) + dkg_responses_for(
                        rows@,
                        cids@.skip(j as int + 1),
                    ) =~= response_views(prev) + (seq![resp@] + dkg_responses_for(
                        rows@,
                        cids@.skip(j as int + 1),
                    )));
                }
            },
            None => {
                proof {
                    assert(Seq::<ResponseView>::empty() + dkg_responses_for(
                        rows@,
                        cids@.skip(j as int + 1),
                    ) =~= dkg_responses_for(rows@, cids@.skip(j as int + 1)));
                }
            },
        }
        j = j + 1;
    }
    proof {
        assert(cids@.skip(cids@.len() as int) =~= Seq::<u64>::empty());
        assert(response_views(out@) + Seq::<ResponseView>::empty() =~= response_views(out@));
    }
    out
}

} // verus!
