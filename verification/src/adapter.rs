//! The adapter transport state: the monotonic sequence counter, the
//! request registry correlating responses with the requests that
//! triggered them, and the capabilities stored from the `initialize`
//! response.
//!
//! The child process and its pipes live outside the library; what is
//! held here is everything the protocol's ordering rules rest on. The
//! ghost log `issued` records every outbound sequence number in
//! allocation order, and well-formedness pins it strictly increasing.

use vstd::prelude::*;

use crate::config::Config;
use crate::msg::{Capabilities, Request, Response, ResponsePayload};

verus! {

use vstd::hash_map::HashMapWithView;

broadcast use vstd::std_specs::hash::group_hash_axioms;

/// The next sequence number after a message numbered `new_seq` has
/// been received: past it, or unchanged when already past it.
pub open spec fn spec_update_seq(cur: u32, new_seq: u32) -> int {
    if new_seq >= cur {
        new_seq + 1
    } else {
        cur as int
    }
}

/// The transport-side state of the adapter connection.
pub struct Adapter {
    /// The configuration the adapter was started from.
    pub config: Config,
    /// Capabilities reported by the adapter; populated exactly once,
    /// upon the `initialize` response.
    pub capabilities: Option<Capabilities>,
    /// Outbound requests not yet answered, keyed by their sequence
    /// number, so responses can be correlated.
    pub requests: HashMapWithView<u32, Request>,
    /// The next locally generated sequence number.
    pub next_seq: u32,
    /// Every outbound sequence number, in allocation order.
    pub issued: Ghost<Seq<u32>>,
}

impl Adapter {
    /// Outbound sequence numbers were allocated strictly increasing,
    /// all below the counter, and every registered request was sent.
    pub open spec fn wf(&self) -> bool {
        &&& forall|i: int, j: int|
            0 <= i < j < self.issued@.len() ==> self.issued@[i] < self.issued@[j]
        &&& forall|i: int| 0 <= i < self.issued@.len() ==> #[trigger] self.issued@[i]
            < self.next_seq
        &&& forall|s: u32| #[trigger] self.requests@.contains_key(s) ==> self.issued@.contains(s)
    }

    /// A fresh transport: counter at zero, no pending requests, no
    /// capabilities yet.
    pub fn new(config: Config) -> (a: Adapter)
        ensures
            a.wf(),
            a.config == config,
            a.capabilities is None,
            a.requests@ == Map::<u32, Request>::empty(),
            a.next_seq == 0,
            a.issued@ == Seq::<u32>::empty(),
    {
        Adapter {
            config,
            capabilities: None,
            requests: HashMapWithView::new(),
            next_seq: 0,
            issued: Ghost(Seq::empty()),
        }
    }

    /// Allocates the next sequence number and stores the request in
    /// the registry under it, so its response can be correlated. The
    /// caller frames a Request message with the returned number.
    pub fn send_request(&mut self, request: Request) -> (seq: u32)
        requires
            old(self).wf(),
            old(self).next_seq < u32::MAX,
        ensures
            final(self).wf(),
            seq == old(self).next_seq,
            final(self).next_seq == old(self).next_seq + 1,
            final(self).requests@ == old(self).requests@.insert(seq, request),
            final(self).issued@ == old(self).issued@.push(seq),
            final(self).capabilities == old(self).capabilities,
            final(self).config == old(self).config,
    {
        let seq = self.next_seq;
        self.next_seq = self.next_seq + 1;
        self.requests.insert(seq, request);
        proof {
            self.issued@ = self.issued@.push(seq);
            assert forall|s: u32| self.requests@.contains_key(s) implies self.issued@.contains(
                s,
            ) by {
                if s == seq {
                    assert(self.issued@[self.issued@.len() - 1] == seq);
                } else {
                    assert(old(self).requests@.contains_key(s));
                    assert(old(self).issued@.contains(s));
                    let i = choose|i: int|
                        0 <= i < old(self).issued@.len() && old(self).issued@[i] == s;
                    assert(self.issued@[i] == s);
                }
            }
        }
        seq
    }

    /// Builds a Response message under a freshly allocated sequence
    /// number; the caller frames and writes it.
    pub fn send_response(
        &mut self,
        request_seq: u32,
        success: bool,
        message: Option<String>,
        response: Response,
    ) -> (msg: ResponsePayload)
        requires
            old(self).wf(),
            old(self).next_seq < u32::MAX,
        ensures
            final(self).wf(),
            msg == (ResponsePayload {
                seq: old(self).next_seq,
                request_seq,
                success,
                message,
                response,
            }),
            final(self).next_seq == old(self).next_seq + 1,
            final(self).requests@ == old(self).requests@,
            final(self).issued@ == old(self).issued@.push(old(self).next_seq),
            final(self).capabilities == old(self).capabilities,
            final(self).config == old(self).config,
    {
        let seq = self.next_seq;
        self.next_seq = self.next_seq + 1;
        proof {
            self.issued@ = self.issued@.push(seq);
            assert forall|s: u32| self.requests@.contains_key(s) implies self.issued@.contains(
                s,
            ) by {
                assert(old(self).requests@.contains_key(s));
                assert(old(self).issued@.contains(s));
                let i = choose|i: int|
                    0 <= i < old(self).issued@.len() && old(self).issued@[i] == s;
                assert(self.issued@[i] == s);
            }
        }
        ResponsePayload { seq, request_seq, success, message, response }
    }

    /// Removes and returns the stored request for the given sequence
    /// number; the registry is otherwise untouched, and nothing else
    /// ever removes an entry.
    pub fn get_request(&mut self, seq: u32) -> (r: Option<Request>)
        requires
            old(self).wf(),
        ensures
            final(self).wf(),
            match r {
                Some(req) => old(self).requests@.contains_key(seq) && req == old(
                    self,
                ).requests@[seq] && final(self).requests@ == old(self).requests@.remove(seq),
                None => !old(self).requests@.contains_key(seq) && final(self).requests@ == old(
                    self,
                ).requests@,
            },
            final(self).next_seq == old(self).next_seq,
            final(self).issued@ == old(self).issued@,
            final(self).capabilities == old(self).capabilities,
            final(self).config == old(self).config,
    {
        self.requests.remove(&seq)
    }

    /// The number of outbound requests still awaiting a response.
    pub fn num_requests(&self) -> (n: usize)
        ensures
            n == self.requests@.len(),
    {
        self.requests.len()
    }

    /// Advances the counter past a received sequence number, so no
    /// locally generated number ever repeats or trails one seen.
    pub fn update_seq(&mut self, new_seq: u32)
        requires
            old(self).wf(),
            new_seq < u32::MAX,
        ensures
            final(self).wf(),
            final(self).next_seq == spec_update_seq(old(self).next_seq, new_seq),
            final(self).next_seq > new_seq,
            final(self).next_seq >= old(self).next_seq,
            final(self).requests@ == old(self).requests@,
            final(self).issued@ == old(self).issued@,
            final(self).capabilities == old(self).capabilities,
            final(self).config == old(self).config,
    {
        if new_seq >= self.next_seq {
            self.next_seq = new_seq + 1;
        }
    }
}

/// Outbound sequence numbers are strictly increasing: of any two
/// requests sent, the later carries the larger number.
pub proof fn lemma_outbound_seqs_strictly_increase(a: Adapter, i: int, j: int)
    requires
        a.wf(),
        0 <= i < j < a.issued@.len(),
    ensures
        a.issued@[i] < a.issued@[j],
{
}

/// After a message numbered `s` is received, the next locally
/// generated sequence number is greater than `s`.
pub proof fn lemma_next_seq_outruns_inbound(cur: u32, s: u32)
    requires
        s < u32::MAX,
    ensures
        spec_update_seq(cur, s) > s,
{
}

/// A registry entry is removed at most once: once taken under its
/// sequence number, taking the same number again yields nothing, and
/// no other entry is touched.
pub proof fn lemma_registry_take_at_most_once(m: Map<u32, Request>, s: u32, t: u32)
    ensures
        !m.remove(s).contains_key(s),
        t != s ==> m.remove(s).contains_key(t) == m.contains_key(t),
        t != s && m.contains_key(t) ==> m.remove(s)[t] == m[t],
{
}

} // verus!
