//! Plain data model shared by the whole crate: response payloads addressed to
//! callbacks, and small helpers for copying byte vectors with exact contracts.

use vstd::prelude::*;

verus! {

/// The id of the management canister, which originates subnet calls.
pub const MANAGEMENT_CANISTER_ID: u64 = 0;

/// Reject codes a response payload may carry.
#[derive(Clone, Copy, Debug, PartialEq, Eq)]
pub enum RejectCode {
    SysFatal,
    SysTransient,
    DestinationInvalid,
    CanisterReject,
    CanisterError,
}

/// A reject: a code plus the message bytes shown to the caller.
#[derive(Clone, Debug, PartialEq, Eq)]
pub struct RejectContext {
    pub code: RejectCode,
    pub message: Vec<u8>,
}

/// Mathematical value of a `RejectContext`.
pub struct RejectContextView {
    pub code: RejectCode,
    pub message: Seq<u8>,
}

impl View for RejectContext {
    type V = RejectContextView;

    open spec fn view(&self) -> RejectContextView {
        RejectContextView { code: self.code, message: self.message@ }
    }
}

/// Payload of a response: success data, or a reject.
#[derive(Clone, Debug, PartialEq, Eq)]
pub enum Payload {
    Data(Vec<u8>),
    Reject(RejectContext),
}

/// Mathematical value of a `Payload`.
pub enum PayloadView {
    Data(Seq<u8>),
    Reject(RejectContextView),
}

impl View for Payload {
    type V = PayloadView;

    open spec fn view(&self) -> PayloadView {
        match self {
            Payload::Data(d) => PayloadView::Data(d@),
            Payload::Reject(r) => PayloadView::Reject(r@),
        }
    }
}

/// A response to a subnet call, addressed by the callback id of the call.
#[derive(Clone, Debug, PartialEq, Eq)]
pub struct Response {
    pub originator: u64,
    pub respondent: u64,
    pub originator_reply_callback: u64,
    pub refund: u64,
    pub response_payload: Payload,
}

/// Mathematical value of a `Response`.
pub struct ResponseView {
    pub originator: u64,
    pub respondent: u64,
    pub originator_reply_callback: u64,
    pub refund: u64,
    pub response_payload: PayloadView,
}

impl View for Response {
    type V = ResponseView;

    open spec fn view(&self) -> ResponseView {
        ResponseView {
            originator: self.originator,
            respondent: self.respondent,
            originator_reply_callback: self.originator_reply_callback,
            refund: self.refund,
            response_payload: self.response_payload@,
        }
    }
}

/// A response from consensus to a subnet call: both endpoints are the
/// management canister and no cycles are refunded.
pub open spec fn consensus_response(callback_id: u64, payload: PayloadView) -> ResponseView {
    ResponseView {
        originator: MANAGEMENT_CANISTER_ID,
        respondent: MANAGEMENT_CANISTER_ID,
        originator_reply_callback: callback_id,
        refund: 0,
        response_payload: payload,
    }
}

/// Builds the response carrying `payload` addressed to `callback_id`.
pub fn make_consensus_response(callback_id: u64, payload: Payload) -> (r: Response)
    ensures
        r@ == consensus_response(callback_id, payload@),
{
    Response {
        originator: MANAGEMENT_CANISTER_ID,
        respondent: MANAGEMENT_CANISTER_ID,
        originator_reply_callback: callback_id,
        refund: 0,
        response_payload: payload,
    }
}

/// The contents of a sequence of responses.
pub open spec fn response_views(s: Seq<Response>) -> Seq<ResponseView> {
    s.map(|i: int, r: Response| r@)
}

/// Pushing a response appends its value to the sequence's contents.
pub proof fn lemma_response_views_push(s: Seq<Response>, x: Response)
    ensures
        response_views(s.push(x)) == response_views(s).push(x@),
{
    assert forall|l: int| 0 <= l < s.push(x).len() implies #[trigger] response_views(s.push(x))[l]
        == response_views(s).push(x@)[l] by {
        if l < s.len() {
            assert(s.push(x)[l] == s[l]);
        } else {
            assert(s.push(x)[l] == x);
        }
    }
    assert(response_views(s.push(x)) =~= response_views(s).push(x@));
}

/// Copies a byte vector; the copy has exactly the same contents.
pub fn copy_bytes(v: &Vec<u8>) -> (r: Vec<u8>)
    ensures
        r@ == v@,
{
    let mut r: Vec<u8> = Vec::new();
    let mut i: usize = 0;
    while i < v.len()
        invariant
            i <= v.len(),
            r@ == v@.take(i as int),
        decreases v.len() - i,
    {
        r.push(v[i]);
        proof {
            assert(v@.take(i as int).push(v@[i as int]) =~= v@.take(i + 1));
        }
        i = i + 1;
    }
    proof {
        assert(v@.take(v@.len() as int) =~= v@);
    }
    r
}

/// Copies a reject context.
pub fn copy_reject_context(c: &RejectContext) -> (r: RejectContext)
    ensures
        r@ == c@,
{
    RejectContext { code: c.code, message: copy_bytes(&c.message) }
}

/// Copies a response payload.
pub fn copy_payload(p: &Payload) -> (r: Payload)
    ensures
        r@ == p@,
{
    match p {
        Payload::Data(d) => Payload::Data(copy_bytes(d)),
        Payload::Reject(c) => Payload::Reject(copy_reject_context(c)),
    }
}

/// Copies a response.
pub fn copy_response(r: &Response) -> (out: Response)
    ensures
        out@ == r@,
{
    Response {
        originator: r.originator,
        respondent: r.respondent,
        originator_reply_callback: r.originator_reply_callback,
        refund: r.refund,
        response_payload: copy_payload(&r.response_payload),
    }
}

/// Appends the contents of `src` to `dst`.
pub fn append_bytes(dst: &mut Vec<u8>, src: &Vec<u8>)
    ensures
        final (dst)@ == old(dst)@ + src@,
{
    let mut i: usize = 0;
    while i < src.len()
        invariant
            i <= src.len(),
            dst@ == old(dst)@ + src@.take(i as int),
        decreases src.len() - i,
    {
        dst.push(src[i]);
        proof {
            assert(old(dst)@ + src@.take(i as int).push(src@[i as int]) =~= old(dst)@ + src@.take(
                i + 1,
            ));
        }
        i = i + 1;
    }
    proof {
        assert(old(dst)@ + src@.take(src@.len() as int) =~= old(dst)@ + src@);
    }
}

} // verus!
