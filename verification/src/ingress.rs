//! The ingress portion of a data payload: a buffer holding the serialized
//! ingress messages, each framed as an eight-byte big-endian length followed
//! by the message bytes. Decoding fails exactly on truncated buffers, which
//! models a malformed ingress payload.

use crate::types::append_bytes;
use crate::wire::{be64_bytes, be64_value, frame_bytes, lemma_be64_round_trip, push_be64, read_be64};
use vstd::prelude::*;

verus! {

/// Serialized ingress messages of one data payload.
#[derive(Clone, Debug, PartialEq, Eq)]
pub struct IngressPayload {
    pub buffer: Vec<u8>,
}

impl View for IngressPayload {
    type V = Seq<u8>;

    open spec fn view(&self) -> Seq<u8> {
        self.buffer@
    }
}

/// The contents of a sequence of byte vectors.
pub open spec fn message_views(msgs: Seq<Vec<u8>>) -> Seq<Seq<u8>> {
    msgs.map(|i: int, m: Vec<u8>| m@)
}

/// The buffer that holds `msgs`, in order.
pub open spec fn encode_ingress(msgs: Seq<Seq<u8>>) -> Seq<u8>
    decreases msgs.len(),
{
    if msgs.len() == 0 {
        Seq::empty()
    } else {
        frame_bytes(msgs[0]) + encode_ingress(msgs.skip(1))
    }
}

/// The messages held by `buf`, or `None` when the buffer is truncated.
pub open spec fn decode_ingress(buf: Seq<u8>) -> Option<Seq<Seq<u8>>>
    decreases buf.len(),
{
    if buf.len() == 0 {
        Some(Seq::empty())
    } else if buf.len() < 8 {
        None
    } else {
        let n = be64_value(buf[0], buf[1], buf[2], buf[3], buf[4], buf[5], buf[6], buf[7]) as int;
        if buf.len() - 8 < n {
            None
        } else {
            match decode_ingress(buf.skip(8 + n)) {
                Some(rest) => Some(seq![buf.subrange(8, 8 + n)] + rest),
                None => None,
            }
        }
    }
}

/// Builds the payload that carries `msgs`.
pub fn ingress_payload_from_messages(msgs: &Vec<Vec<u8>>) -> (r: IngressPayload)
    ensures
        r@ == encode_ingress(message_views(msgs@)),
{
    let mut buffer: Vec<u8> = Vec::new();
    let mut i: usize = 0;
    proof {
        assert(message_views(msgs@).skip(0) =~= message_views(msgs@));
        assert(Seq::<u8>::empty() + encode_ingress(message_views(msgs@)) =~= encode_ingress(
            message_views(msgs@),
        ));
    }
    while i < msgs.len()
        invariant
            i <= msgs.len(),
            encode_ingress(message_views(msgs@)) == buffer@ + encode_ingress(
                message_views(msgs@).skip(i as int),
            ),
        decreases msgs.len() - i,
    {
        let ghost prev = buffer@;
        push_be64(&mut buffer, msgs[i].len() as u64);
        append_bytes(&mut buffer, &msgs[i]);
        proof {
            let mv = message_views(msgs@);
            assert(mv.skip(i as int)[0] == msgs@[i as int]@);
            assert(mv.skip(i as int).skip(1) =~= mv.skip(i as int + 1));
            assert(encode_ingress(mv.skip(i as int)) == frame_bytes(msgs@[i as int]@)
                + encode_ingress(mv.skip(i as int + 1)));
            assert(buffer@ == prev + frame_bytes(msgs@[i as int]@));
            assert(prev + frame_bytes(msgs@[i as int]@) + encode_ingress(mv.skip(i as int + 1))
                =~= prev + (frame_bytes(msgs@[i as int]@) + encode_ingress(mv.skip(i as int + 1))));
        }
        i = i + 1;
    }
    proof {
        assert(message_views(msgs@).skip(msgs@.len() as int) =~= Seq::<Seq<u8>>::empty());
        assert(encode_ingress(message_views(msgs@)) =~= buffer@);
    }
    IngressPayload { buffer }
}

/// Copies `b[start .. start + len]` into a fresh vector.
pub fn copy_byte_range(b: &Vec<u8>, start: usize, len: usize) -> (r: Vec<u8>)
    requires
        start + len <= b.len(),
    ensures
        r@ == b@.subrange(start as int, start as int + len as int),
{
    let mut r: Vec<u8> = Vec::new();
    let mut i: usize = 0;
    while i < len
        invariant
            i <= len,
            start + len <= b.len(),
            r@ == b@.subrange(start as int, start as int + i as int),
        decreases len - i,
    {
        r.push(b[start + i]);
        proof {
            assert(b@.subrange(start as int, start as int + i as int).push(
                b@[start as int + i as int],
            ) =~= b@.subrange(start as int, start as int + i as int + 1));
        }
        i = i + 1;
    }
    r
}

/// Decodes the messages of `p`; `None` exactly when the buffer is malformed.
pub fn ingress_messages(p: &IngressPayload) -> (r: Option<Vec<Vec<u8>>>)
    ensures
        match r {
            Some(msgs) => decode_ingress(p@) == Some(message_views(msgs@)),
            None => decode_ingress(p@) is None,
        },
{
    let buf = &p.buffer;
    let mut out: Vec<Vec<u8>> = Vec::new();
    let mut pos: usize = 0;
    proof {
        assert(buf@.skip(0) =~= buf@);
        if decode_ingress(buf@) is Some {
            assert(message_views(out@) + decode_ingress(buf@).unwrap() =~= decode_ingress(
                buf@,
            ).unwrap());
        }
    }
    loop
        invariant
            buf@ == p@,
            pos <= buf.len(),
            match decode_ingress(buf@.skip(pos as int)) {
                Some(rest) => decode_ingress(buf@) == Some(message_views(out@) + rest),
                None => decode_ingress(buf@) is None,
            },
        decreases buf.len() - pos,
    {
        if pos == buf.len() {
            proof {
                assert(buf@.skip(pos as int) =~= Seq::<u8>::empty());
                assert(message_views(out@) + Seq::<Seq<u8>>::empty() =~= message_views(out@));
            }
            return Some(out);
        }
        let rem = buf.len() - pos;
        let ghost tail = buf@.skip(pos as int);
        proof {
            assert(tail.len() == rem);
        }
        if rem < 8 {
            proof {
                assert(decode_ingress(tail) is None);
            }
            return None;
        }
        let n64 = read_be64(buf, pos);
        proof {
            assert forall|k: int| 0 <= k < 8 implies tail[k] == buf@[pos as int + k] by {}
        }
        if n64 > (rem - 8) as u64 {
            proof {
                assert(decode_ingress(tail) is None);
            }
            return None;
        }
        let n = n64 as usize;
        let msg = copy_byte_range(buf, pos + 8, n);
        let ghost prev_out = out@;
        out.push(msg);
        proof {
            assert(tail.subrange(8, 8 + n as int) =~= buf@.subrange(
                pos as int + 8,
                pos as int + 8 + n as int,
            ));
            assert(tail.skip(8 + n as int) =~= buf@.skip(pos as int + 8 + n as int));
            assert(message_views(out@) =~= message_views(prev_out).push(msg@));
            match decode_ingress(buf@.skip(pos as int + 8 + n as int)) {
                Some(rest_after) => {
                    assert(decode_ingress(tail) == Some(seq![msg@] + rest_after));
                    assert(message_views(prev_out).push(msg@) + rest_after =~= message_views(
                        prev_out,
                    ) + (seq![msg@] + rest_after));
                },
                None => {
                    assert(decode_ingress(tail) is None);
                },
            }
        }
        pos = pos + 8 + n;
    }
}

/// Decoding recovers exactly the messages that were encoded.
#[verifier::rlimit(100)]
pub proof fn lemma_ingress_round_trip(msgs: Seq<Seq<u8>>)
    requires
        forall|i: int| 0 <= i < msgs.len() ==> #[trigger] msgs[i].len() <= u64::MAX,
    ensures
        decode_ingress(encode_ingress(msgs)) == Some(msgs),
    decreases msgs.len(),
{
    if msgs.len() == 0 {
        assert(decode_ingress(encode_ingress(msgs)) == Some(Seq::<Seq<u8>>::empty()));
        assert(msgs =~= Seq::<Seq<u8>>::empty());
    } else {
        let m0 = msgs[0];
        assert(m0.len() <= u64::MAX);
        let x = m0.len() as u64;
        let lenb = be64_bytes(x);
        let rest = encode_ingress(msgs.skip(1));
        let enc = encode_ingress(msgs);
        assert(enc == (lenb + m0) + rest);
        assert(lenb.len() == 8);
        assert(enc.len() == 8 + m0.len() + rest.len());
        assert(enc[0] == lenb[0] && enc[1] == lenb[1] && enc[2] == lenb[2] && enc[3] == lenb[3]
            && enc[4] == lenb[4] && enc[5] == lenb[5] && enc[6] == lenb[6] && enc[7] == lenb[7]);
        assert(lenb[0] == (x >> 56) as u8 && lenb[1] == (x >> 48) as u8 && lenb[2] == (x
            >> 40) as u8 && lenb[3] == (x >> 32) as u8 && lenb[4] == (x >> 24) as u8 && lenb[5] == (
        x >> 16) as u8 && lenb[6] == (x >> 8) as u8 && lenb[7] == x as u8);
        lemma_be64_round_trip(x);
        assert(be64_value(enc[0], enc[1], enc[2], enc[3], enc[4], enc[5], enc[6], enc[7]) == x);
        let n = be64_value(enc[0], enc[1], enc[2], enc[3], enc[4], enc[5], enc[6], enc[7]) as int;
        assert(n == m0.len());
        assert(enc.subrange(8, 8 + n) =~= m0);
        assert(enc.skip(8 + n) =~= rest);
        assert forall|i: int| 0 <= i < msgs.skip(1).len() implies #[trigger] msgs.skip(
            1,
        )[i].len() <= u64::MAX by {
            assert(msgs.skip(1)[i] == msgs[i + 1]);
        }
        lemma_ingress_round_trip(msgs.skip(1));
        assert(decode_ingress(enc) == Some(seq![m0] + msgs.skip(1)));
        assert(seq![m0] + msgs.skip(1) =~= msgs);
    }
}

} // verus!
