//! The WebSocket transport adapter's decisions: the inbound frame stream
//! is cut at the first malformed frame, and the upgrade response always
//! advertises the `graphql-ws` sub-protocol.

use vstd::prelude::*;
use crate::args::string_of;

verus! {

broadcast use vstd::std_specs::vec::group_vec_axioms, vstd::seq::group_seq_axioms;

/// One inbound frame: its byte payload, or a frame that could not be read.
#[derive(Debug)]
pub enum InboundFrame {
    Payload(Vec<u8>),
    Malformed,
}

/// The byte payloads fed to the sub-protocol engine: the longest prefix of
/// well-formed frames. A malformed frame ends the logical stream rather
/// than surfacing an error value.
pub open spec fn payload_prefix(frames: Seq<InboundFrame>) -> Seq<Seq<u8>>
    decreases frames.len(),
{
    if frames.len() == 0 {
        Seq::empty()
    } else {
        match frames[0] {
            InboundFrame::Payload(b) => seq![b@] + payload_prefix(frames.skip(1)),
            InboundFrame::Malformed => Seq::empty(),
        }
    }
}

/// Every frame of a prefix of well-formed frames contributes its payload.
proof fn lemma_prefix_all_payload(frames: Seq<InboundFrame>)
    requires
        forall|i: int| 0 <= i < frames.len() ==> (#[trigger] frames[i]) is Payload,
    ensures
        payload_prefix(frames).len() == frames.len(),
        forall|i: int|
            0 <= i < frames.len() ==> payload_prefix(frames)[i] == (#[trigger] frames[i])->Payload_0@,
    decreases frames.len(),
{
    if frames.len() > 0 {
        assert(forall|i: int|
            0 <= i < frames.skip(1).len() ==> #[trigger] frames.skip(1)[i] == frames[i + 1]);
        lemma_prefix_all_payload(frames.skip(1));
        let p = payload_prefix(frames);
        let q = payload_prefix(frames.skip(1));
        assert(p == seq![frames[0]->Payload_0@] + q);
        assert forall|i: int| 0 <= i < frames.len() implies p[i] == (#[trigger] frames[
            i
        ])->Payload_0@ by {
            if i > 0 {
                assert(p[i] == q[i - 1]);
                assert(q[i - 1] == frames.skip(1)[i - 1]->Payload_0@);
            }
        }
    }
}

/// A malformed frame at position `k` cuts the stream after the first `k`
/// payloads.
proof fn lemma_prefix_cut(frames: Seq<InboundFrame>, k: int)
    requires
        0 <= k < frames.len(),
        forall|j: int| 0 <= j < k ==> (#[trigger] frames[j]) is Payload,
        frames[k] is Malformed,
    ensures
        payload_prefix(frames).len() == k,
        forall|j: int|
            0 <= j < k ==> payload_prefix(frames)[j] == (#[trigger] frames[j])->Payload_0@,
    decreases k,
{
    if k > 0 {
        assert(forall|i: int|
            0 <= i < frames.skip(1).len() ==> #[trigger] frames.skip(1)[i] == frames[i + 1]);
        lemma_prefix_cut(frames.skip(1), k - 1);
        let p = payload_prefix(frames);
        let q = payload_prefix(frames.skip(1));
        assert(p == seq![frames[0]->Payload_0@] + q);
        assert forall|j: int| 0 <= j < k implies p[j] == (#[trigger] frames[j])->Payload_0@ by {
            if j > 0 {
                assert(p[j] == q[j - 1]);
                assert(q[j - 1] == frames.skip(1)[j - 1]->Payload_0@);
            }
        }
    }
}

/// Converts the inbound frames to the byte payloads handed to the
/// sub-protocol engine, stopping at the first malformed frame; frames
/// after it are never taken from the sequence.
#[verifier::loop_isolation(false)]
pub fn inbound_payloads(frames: Vec<InboundFrame>) -> (out: Vec<Vec<u8>>)
    ensures
        out@.map_values(|b: Vec<u8>| b@) == payload_prefix(frames@),
{
    let ghost orig = frames@;
    let mut rest = frames;
    let total = rest.len();
    let mut out: Vec<Vec<u8>> = Vec::new();
    let mut stopped = false;
    let mut k: usize = 0;
    while !stopped && rest.len() > 0
        invariant
            orig.len() == total as int,
            !stopped ==> {
                &&& k + rest@.len() == orig.len()
                &&& rest@ == orig.skip(k as int)
                &&& out@.map_values(|b: Vec<u8>| b@).len() == k as int
                &&& forall|j: int| 0 <= j < k ==> (#[trigger] orig[j]) is Payload
                &&& forall|j: int|
                    0 <= j < k ==> out@.map_values(|b: Vec<u8>| b@)[j] == (#[trigger] orig[
                        j
                    ])->Payload_0@
            },
            stopped ==> out@.map_values(|b: Vec<u8>| b@) == payload_prefix(orig),
        decreases rest@.len() + (if stopped { 0int } else { 1int }),
    {
        let f = rest.remove(0);
        proof {
            assert(orig.skip(k as int)[0] == orig[k as int]);
            assert(orig.skip(k as int).remove(0) =~= orig.skip(k as int + 1));
        }
        match f {
            InboundFrame::Payload(b) => {
                out.push(b);
                k = k + 1;
            },
            InboundFrame::Malformed => {
                stopped = true;
                proof {
                    lemma_prefix_cut(orig, k as int);
                    assert forall|j: int| 0 <= j < k implies out@.map_values(|b: Vec<u8>| b@)[j]
                        == payload_prefix(orig)[j] by {
                        assert(out@.map_values(|b: Vec<u8>| b@)[j] == orig[j]->Payload_0@);
                        assert(payload_prefix(orig)[j] == orig[j]->Payload_0@);
                    }
                    assert(out@.map_values(|b: Vec<u8>| b@) =~= payload_prefix(orig));
                }
            },
        }
    }
    proof {
        if !stopped {
            assert(k == orig.len());
            lemma_prefix_all_payload(orig);
            assert forall|j: int| 0 <= j < k implies out@.map_values(|b: Vec<u8>| b@)[j]
                == payload_prefix(orig)[j] by {
                assert(out@.map_values(|b: Vec<u8>| b@)[j] == orig[j]->Payload_0@);
                assert(payload_prefix(orig)[j] == orig[j]->Payload_0@);
            }
            assert(out@.map_values(|b: Vec<u8>| b@) =~= payload_prefix(orig));
        }
    }
    out
}

/// Whether a header list advertises the `graphql-ws` sub-protocol.
pub open spec fn advertises_graphql_ws(headers: Seq<(String, String)>) -> bool {
    exists|i: int|
        0 <= i < headers.len() && (#[trigger] headers[i]).0@ == "Sec-WebSocket-Protocol"@
            && headers[i].1@ == "graphql-ws"@
}

/// Completes the upgrade handshake response: whatever headers the upgrade
/// already carries, the `graphql-ws` sub-protocol is advertised — a fixed,
/// unconditional contract of the adapter, not negotiated per request.
pub fn upgrade_response_headers(base: Vec<(String, String)>) -> (r: Vec<(String, String)>)
    ensures
        r@.len() == base@.len() + 1,
        forall|i: int| 0 <= i < base@.len() ==> r@[i] == base@[i],
        r@[base@.len() as int].0@ == "Sec-WebSocket-Protocol"@,
        r@[base@.len() as int].1@ == "graphql-ws"@,
        advertises_graphql_ws(r@),
{
    let mut r = base;
    r.push((string_of("Sec-WebSocket-Protocol"), string_of("graphql-ws")));
    r
}

} // verus!
