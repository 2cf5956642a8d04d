//! Canister-http outcomes carried by a data payload, and the responses the
//! execution layer receives for them: successes verbatim, timeouts and
//! divergences as transient rejects.

use crate::types::{
    consensus_response, copy_bytes, lemma_response_views_push, make_consensus_response, Payload,
    PayloadView, RejectCode, RejectContext, RejectContextView, Response, response_views,
    ResponseView,
};
use vstd::prelude::*;
use vstd::string::StringSliceAdditionalSpecFns;

verus! {

/// Reject text of a canister-http call that timed out.
pub const TIMEOUT_MESSAGE: &'static str = "Canister http request timed out";

/// Reject text of a canister-http call whose responses diverged across
/// replicas.
pub const DIVERGENCE_MESSAGE: &'static str =
    "Canister http responses were different across replicas, and no consensus was reached";

/// A reject outcome agreed on by the replicas.
#[derive(Clone, Debug, PartialEq, Eq)]
pub struct CanisterHttpReject {
    pub code: RejectCode,
    pub message: Vec<u8>,
}

/// The agreed outcome of one canister-http call.
#[derive(Clone, Debug, PartialEq, Eq)]
pub enum CanisterHttpResponseContent {
    Success(Vec<u8>),
    Reject(CanisterHttpReject),
}

/// One agreed canister-http outcome, addressed by its callback id.
#[derive(Clone, Debug, PartialEq, Eq)]
pub struct CanisterHttpResponse {
    pub id: u64,
    pub content: CanisterHttpResponseContent,
}

/// One replica's share of a divergence record; only the callback id is read.
#[derive(Clone, Copy, Debug, PartialEq, Eq)]
pub struct CanisterHttpShare {
    pub id: u64,
}

/// A record of replicas disagreeing on one call's outcome.
#[derive(Clone, Debug, PartialEq, Eq)]
pub struct CanisterHttpDivergenceResponse {
    pub shares: Vec<CanisterHttpShare>,
}

/// The canister-http portion of a data payload.
#[derive(Clone, Debug, PartialEq, Eq)]
pub struct CanisterHttpPayload {
    pub responses: Vec<CanisterHttpResponse>,
    pub timeouts: Vec<u64>,
    pub divergence_responses: Vec<CanisterHttpDivergenceResponse>,
}

/// Mathematical value of a `CanisterHttpResponse`.
pub struct CanisterHttpResponseView {
    pub id: u64,
    pub success: Option<Seq<u8>>,
    pub reject: Option<RejectContextView>,
}

impl View for CanisterHttpResponse {
    type V = CanisterHttpResponseView;

    open spec fn view(&self) -> CanisterHttpResponseView {
        match self.content {
            CanisterHttpResponseContent::Success(d) => CanisterHttpResponseView {
                id: self.id,
                success: Some(d@),
                reject: None,
            },
            CanisterHttpResponseContent::Reject(r) => CanisterHttpResponseView {
                id: self.id,
                success: None,
                reject: Some(RejectContextView { code: r.code, message: r.message@ }),
            },
        }
    }
}

/// Mathematical value of a `CanisterHttpDivergenceResponse`: its share ids.
pub struct CanisterHttpDivergenceView {
    pub share_ids: Seq<u64>,
}

impl View for CanisterHttpDivergenceResponse {
    type V = CanisterHttpDivergenceView;

    open spec fn view(&self) -> CanisterHttpDivergenceView {
        CanisterHttpDivergenceView {
            share_ids: self.shares@.map(|i: int, s: CanisterHttpShare| s.id),
        }
    }
}

/// Mathematical value of a `CanisterHttpPayload`.
pub struct CanisterHttpPayloadView {
    pub responses: Seq<CanisterHttpResponseView>,
    pub timeouts: Seq<u64>,
    pub divergence_responses: Seq<CanisterHttpDivergenceView>,
}

impl View for CanisterHttpPayload {
    type V = CanisterHttpPayloadView;

    open spec fn view(&self) -> CanisterHttpPayloadView {
        CanisterHttpPayloadView {
            responses: self.responses@.map(|i: int, r: CanisterHttpResponse| r@),
            timeouts: self.timeouts@,
            divergence_responses: self.divergence_responses@.map(
                |i: int, d: CanisterHttpDivergenceResponse| d@,
            ),
        }
    }
}

/// The response generated for one agreed outcome: the data on success, the
/// agreed reject otherwise.
pub open spec fn http_outcome_response(r: CanisterHttpResponse) -> ResponseView {
    consensus_response(
        r.id,
        match r.content {
            CanisterHttpResponseContent::Success(d) => PayloadView::Data(d@),
            CanisterHttpResponseContent::Reject(rej) => PayloadView::Reject(
                RejectContextView { code: rej.code, message: rej.message@ },
            ),
        },
    )
}

/// The transient reject generated for one timed-out call.
pub open spec fn http_timeout_response(callback_id: u64) -> ResponseView {
    consensus_response(
        callback_id,
        PayloadView::Reject(
            RejectContextView {
                code: RejectCode::SysTransient,
                message: TIMEOUT_MESSAGE.spec_bytes(),
            },
        ),
    )
}

/// The transient reject generated for one divergence record, addressed by the
/// first share's callback id.
pub open spec fn http_divergence_response(callback_id: u64) -> ResponseView {
    consensus_response(
        callback_id,
        PayloadView::Reject(
            RejectContextView {
                code: RejectCode::SysTransient,
                message: DIVERGENCE_MESSAGE.spec_bytes(),
            },
        ),
    )
}

/// The responses generated for divergence records, in order; a record with no
/// share is skipped, since no callback id can address it.
pub open spec fn http_divergence_responses(
    divergences: Seq<CanisterHttpDivergenceResponse>,
) -> Seq<ResponseView>
    decreases divergences.len(),
{
    if divergences.len() == 0 {
        Seq::empty()
    } else {
        http_divergence_responses(divergences.drop_last()) + (if divergences.last().shares.len()
            > 0 {
            seq![http_divergence_response(divergences.last().shares[0].id)]
        } else {
            Seq::empty()
        })
    }
}

/// All responses a canister-http payload generates: agreed outcomes, then
/// timeouts, then divergences.
pub open spec fn canister_http_responses(p: CanisterHttpPayload) -> Seq<ResponseView> {
    p.responses@.map(|i: int, r: CanisterHttpResponse| http_outcome_response(r))
        + p.timeouts@.map(|i: int, t: u64| http_timeout_response(t)) + http_divergence_responses(
        p.divergence_responses@,
    )
}

/// Copies the bytes of an ASCII string literal.
fn literal_bytes(s: &str) -> (r: Vec<u8>)
    ensures
        r@ == s.spec_bytes(),
{
    let b = s.as_bytes();
    let mut r: Vec<u8> = Vec::new();
    let mut i: usize = 0;
    while i < b.len()
        invariant
            i <= b.len(),
            b@ == s.spec_bytes(),
            r@ == b@.take(i as int),
        decreases b.len() - i,
    {
        r.push(b[i]);
        proof {
            assert(b@.take(i as int).push(b@[i as int]) =~= b@.take(i + 1));
        }
        i = i + 1;
    }
    proof {
        assert(b@.take(b@.len() as int) =~= b@);
    }
    r
}

/// Converts the canister-http outcomes of one data payload into the responses
/// the execution layer receives.
pub fn generate_execution_responses_for_canister_http_responses(
    canister_http_payload: &CanisterHttpPayload,
) -> (out: Vec<Response>)
    ensures
        response_views(out@) == canister_http_responses(*canister_http_payload),
{
    let mut out: Vec<Response> = Vec::new();
    let ghost outcome_views = canister_http_payload.responses@.map(
        |i: int, r: CanisterHttpResponse| http_outcome_response(r),
    );
    let ghost timeout_views = canister_http_payload.timeouts@.map(
        |i: int, t: u64| http_timeout_response(t),
    );
    proof {
        assert(response_views(out@) =~= outcome_views.take(0));
    }
    let mut i: usize = 0;
    while i < canister_http_payload.responses.len()
        invariant
            i <= canister_http_payload.responses.len(),
            outcome_views == canister_http_payload.responses@.map(
                |i: int, r: CanisterHttpResponse| http_outcome_response(r),
            ),
            response_views(out@) == outcome_views.take(i as int),
        decreases canister_http_payload.responses.len() - i,
    {
        let r = &canister_http_payload.responses[i];
        let payload = match &r.content {
            CanisterHttpResponseContent::Success(d) => Payload::Data(copy_bytes(d)),
            CanisterHttpResponseContent::Reject(rej) => Payload::Reject(
                RejectContext { code: rej.code, message: copy_bytes(&rej.message) },
            ),
        };
        let resp = make_consensus_response(r.id, payload);
        let ghost prev = out@;
        out.push(resp);
        proof {
            lemma_response_views_push(prev, resp);
            assert(outcome_views[i as int] == http_outcome_response(
                canister_http_payload.responses@[i as int],
            ));
            assert(resp@ == outcome_views[i as int]);
            assert(outcome_views.take(i as int).push(outcome_views[i as int])
                =~= outcome_views.take(i as int + 1));
        }
        i = i + 1;
    }
    proof {
        assert(outcome_views.take(canister_http_payload.responses@.len() as int)
            =~= outcome_views);
        assert(outcome_views + timeout_views.take(0) =~= outcome_views);
    }
    let mut j: usize = 0;
    while j < canister_http_payload.timeouts.len()
        invariant
            j <= canister_http_payload.timeouts.len(),
            outcome_views == canister_http_payload.responses@.map(
                |i: int, r: CanisterHttpResponse| http_outcome_response(r),
            ),
            timeout_views == canister_http_payload.timeouts@.map(
                |i: int, t: u64| http_timeout_response(t),
            ),
            response_views(out@) == outcome_views + timeout_views.take(j as int),
        decreases canister_http_payload.timeouts.len() - j,
    {
        let cb = canister_http_payload.timeouts[j];
        let resp = make_consensus_response(
            cb,
            Payload::Reject(
                RejectContext {
                    code: RejectCode::SysTransient,
                    message: literal_bytes(TIMEOUT_MESSAGE),
                },
            ),
        );
        let ghost prev = out@;
        out.push(resp);
        proof {
            lemma_response_views_push(prev, resp);
            assert(timeout_views[j as int] == http_timeout_response(
                canister_http_payload.timeouts@[j as int],
            ));
            assert(resp@ == timeout_views[j as int]);
            assert((outcome_views + timeout_views.take(j as int)).push(timeout_views[j as int])
                =~= outcome_views + timeout_views.take(j as int + 1));
        }
        j = j + 1;
    }
    proof {
        assert(timeout_views.take(canister_http_payload.timeouts@.len() as int) =~= timeout_views);
        assert(http_divergence_responses(canister_http_payload.divergence_responses@.take(0))
            == Seq::<ResponseView>::empty()) by {
            assert(canister_http_payload.divergence_responses@.take(0) =~= Seq::<
                CanisterHttpDivergenceResponse,
            >::empty());
        }
        assert(outcome_views + timeout_views + Seq::<ResponseView>::empty() =~= outcome_views
            + timeout_views);
    }
    let mut k: usize = 0;
    while k < canister_http_payload.divergence_responses.len()
        invariant
            k <= canister_http_payload.divergence_responses.len(),
            outcome_views == canister_http_payload.responses@.map(
                |i: int, r: CanisterHttpResponse| http_outcome_response(r),
            ),
            timeout_views == canister_http_payload.timeouts@.map(
                |i: int, t: u64| http_timeout_response(t),
            ),
            response_views(out@) == outcome_views + timeout_views + http_divergence_responses(
                canister_http_payload.divergence_responses@.take(k as int),
            ),
        decreases canister_http_payload.divergence_responses.len() - k,
    {
        let d = &canister_http_payload.divergence_responses[k];
        proof {
            assert(canister_http_payload.divergence_responses@.take(k as int + 1).drop_last()
                =~= canister_http_payload.divergence_responses@.take(k as int));
            assert(canister_http_payload.divergence_responses@.take(k as int + 1).last()
                == canister_http_payload.divergence_responses@[k as int]);
        }
        let ghost before = http_divergence_responses(
            canister_http_payload.divergence_responses@.take(k as int),
        );
        if d.shares.len() > 0 {
            let cb = d.shares[0].id;
            let resp = make_consensus_response(
                cb,
                Payload::Reject(
                    RejectContext {
                        code: RejectCode::SysTransient,
                        message: literal_bytes(DIVERGENCE_MESSAGE),
                    },
                ),
            );
            let ghost prev = out@;
            out.push(resp);
            proof {
                lemma_response_views_push(prev, resp);
                assert(resp@ == http_divergence_response(d.shares@[0].id));
                assert(http_divergence_responses(
                    canister_http_payload.divergence_responses@.take(k as int + 1),
                ) == before + seq![http_divergence_response(d.shares@[0].id)]);
                assert((outcome_views + timeout_views + before).push(
                    http_divergence_response(d.shares@[0].id),
                ) =~= outcome_views + timeout_views + (before + seq![
                    http_divergence_response(d.shares@[0].id),
                ]));
            }
        } else {
            proof {
                assert(http_divergence_responses(
                    canister_http_payload.divergence_responses@.take(k as int + 1),
                ) =~= before + Seq::<ResponseView>::empty());
                assert(before + Seq::<ResponseView>::empty() =~= before);
            }
        }
        k = k + 1;
    }
    proof {
        assert(canister_http_payload.divergence_responses@.take(
            canister_http_payload.divergence_responses@.len() as int,
        ) =~= canister_http_payload.divergence_responses@);
    }
    out
}

} // verus!
