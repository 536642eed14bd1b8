//! The dispatcher: the single control plane that owns the canister
//! registry, routes requests and replies to mailboxes, assigns correlation
//! ids to outgoing calls, and refunds attached cycles in full when a
//! destination does not exist.
//!
//! [`ReplicaState`] is the registry plus the per-canister mailbox queues;
//! [`ReplicaState::handle_message`] is one turn of the dispatcher's
//! serialized control loop. [`Replica`] wraps that state together with the
//! correlation-id and outcome-channel counters and the set of calls whose
//! outcome is still outstanding. The surrounding runtime owns the actual
//! task scheduling and channel transport; every routing decision it makes
//! goes through the functions here.

use crate::assoc::{
    find_index, keys_distinct, lemma_distinct_push, lemma_distinct_update, lemma_lookup_none,
    lemma_lookup_push, lemma_lookup_update, lookup, Entry,
};
use crate::types::{attached_cycles, CallReply, CanisterCall, Env, EntryMode, Message,
    RejectionCode};
use vstd::prelude::*;

verus! {

/// A message as it sits in a canister's mailbox: the payload plus the
/// outcome channel the submitter is awaiting, if any. Replies re-injected
/// by a watcher carry no channel of their own.
#[derive(Clone, PartialEq, Eq, Debug)]
pub struct CanisterMessage {
    pub message: Message,
    pub reply_channel: Option<u64>,
}

/// One event of the dispatcher's control loop: a canister coming into
/// existence, a request to route towards a canister, or a reply to route
/// back to the canister that issued the corresponding call.
#[derive(Clone, PartialEq, Eq, Debug)]
pub enum ReplicaMessage {
    CanisterAdded { canister_id: u64 },
    CanisterRequest { canister_id: u64, message: Message, reply_sender: Option<u64> },
    CanisterReply { canister_id: u64, message: Message },
}

/// The unrecoverable conditions: each one aborts the affected pathway in
/// the surrounding runtime and is never retried.
#[derive(Clone, Copy, PartialEq, Eq, Debug, Structural)]
pub enum FatalError {
    /// The identity was registered a second time.
    DuplicateCanister { canister_id: u64 },
    /// An unroutable request carried no channel to deliver a rejection on.
    MissingReplyChannel { canister_id: u64 },
    /// A reply was routed to an origin that is not registered: the caller
    /// died while its call was outstanding.
    UnknownReplyOrigin { canister_id: u64 },
}

/// What one dispatcher turn asks the runtime to do.
#[derive(Clone, PartialEq, Eq, Debug)]
pub enum RouteEffect {
    /// A mailbox was created for a new canister.
    Registered,
    /// The message now sits at the back of the destination's mailbox.
    Enqueued { canister_id: u64 },
    /// The destination does not exist: deliver this rejection on the
    /// submitter's outcome channel; no mailbox is touched.
    Rejected { channel: u64, reply: CallReply },
    /// Abort the pathway.
    Fatal { error: FatalError },
}

/// The reason string carried by a synthesized rejection.
pub open spec fn unknown_destination_reason() -> Seq<char> {
    "destination canister does not exist"@
}

/// The outcome the dispatcher synthesizes for a call whose destination is
/// not registered: category `DestinationInvalid`, a descriptive reason, and
/// a refund of exactly the cycles the message attached.
pub open spec fn is_unknown_destination_reject(r: CallReply, refund: u64) -> bool {
    &&& r matches CallReply::Reject { rejection_code, rejection_message, cycles_refunded }
    &&& rejection_code == RejectionCode::DestinationInvalid
    &&& rejection_message@ == unknown_destination_reason()
    &&& cycles_refunded == refund
}

/// Build the synthesized rejection for an unknown destination.
fn reject_unknown_destination(refund: u64) -> (r: CallReply)
    ensures
        is_unknown_destination_reject(r, refund),
{
    CallReply::Reject {
        rejection_code: RejectionCode::DestinationInvalid,
        rejection_message: "destination canister does not exist".to_owned(),
        cycles_refunded: refund,
    }
}

/// The registry and the mailboxes: one entry per registered canister, keyed
/// by identity, each holding that canister's FIFO message queue. Owned and
/// mutated only through the dispatcher's own serialized turns.
pub struct ReplicaState {
    canisters: Vec<Entry<Vec<CanisterMessage>>>,
}

impl ReplicaState {
    /// Well-formedness: each identity has at most one mailbox.
    pub closed spec fn wf(self) -> bool {
        keys_distinct(self.canisters@)
    }

    /// The queue of the given canister's mailbox, if that canister is
    /// registered.
    pub closed spec fn mailbox(self, canister_id: u64) -> Option<Seq<CanisterMessage>> {
        match lookup(self.canisters@, canister_id) {
            Some(q) => Some(q@),
            None => None,
        }
    }

    /// Whether the identity has a mailbox.
    pub open spec fn is_registered(self, canister_id: u64) -> bool {
        self.mailbox(canister_id) is Some
    }

    /// An empty replica: no canister is registered.
    pub fn new() -> (r: ReplicaState)
        ensures
            r.wf(),
            forall|c: u64| !r.is_registered(c),
    {
        let r = ReplicaState { canisters: Vec::new() };
        proof {
            assert forall|c: u64| !r.is_registered(c) by {
                lemma_lookup_none(r.canisters@, c);
            }
        }
        r
    }

    /// Append a message to the destination's mailbox, if it exists. True
    /// exactly when the message was enqueued.
    fn enqueue(&mut self, canister_id: u64, cm: CanisterMessage) -> (enqueued: bool)
        requires
            old(self).wf(),
        ensures
            final(self).wf(),
            enqueued == old(self).is_registered(canister_id),
            if enqueued {
                &&& final(self).mailbox(canister_id) == Some(
                    old(self).mailbox(canister_id).unwrap().push(cm),
                )
                &&& forall|c: u64| c != canister_id ==> final(self).mailbox(c) == old(self).mailbox(c)
            } else {
                forall|c: u64| final(self).mailbox(c) == old(self).mailbox(c)
            },
    {
        match find_index(&self.canisters, canister_id) {
            Some(i) => {
                let ghost old_seq = self.canisters@;
                self.canisters[i].val.push(cm);
                proof {
                    let e = self.canisters@[i as int];
                    assert(self.canisters@ =~= old_seq.update(i as int, e));
                    lemma_distinct_update(old_seq, i as int, e);
                    assert forall|c: u64| c != canister_id implies self.mailbox(c) == old(
                        self,
                    ).mailbox(c) by {
                        lemma_lookup_update(old_seq, i as int, e, c);
                    }
                    lemma_lookup_update(old_seq, i as int, e, canister_id);
                }
                true
            },
            None => false,
        }
    }

    /// One turn of the dispatcher control loop. All registry reads and
    /// writes happen here, on one logical sequence, so the registry needs
    /// no synchronization beyond it.
    ///
    /// - A second registration of an identity is fatal and changes
    ///   nothing.
    /// - A routable request or reply is appended to the destination's
    ///   queue, behind everything already there.
    /// - An unroutable request resolves the submitter's channel with a
    ///   `DestinationInvalid` rejection refunding exactly the attached
    ///   cycles; with no channel to resolve, it is fatal.
    /// - An unroutable reply is fatal: the originator of the call died.
    pub fn handle_message(&mut self, m: ReplicaMessage) -> (r: RouteEffect)
        requires
            old(self).wf(),
        ensures
            final(self).wf(),
            match m {
                ReplicaMessage::CanisterAdded { canister_id } => {
                    if old(self).is_registered(canister_id) {
                        &&& r == (RouteEffect::Fatal {
                            error: FatalError::DuplicateCanister { canister_id },
                        })
                        &&& forall|c: u64| final(self).mailbox(c) == old(self).mailbox(c)
                    } else {
                        &&& r == RouteEffect::Registered
                        &&& final(self).mailbox(canister_id) == Some(Seq::<CanisterMessage>::empty())
                        &&& forall|c: u64|
                            c != canister_id ==> final(self).mailbox(c) == old(self).mailbox(c)
                    }
                },
                ReplicaMessage::CanisterRequest { canister_id, message, reply_sender } => {
                    if old(self).is_registered(canister_id) {
                        &&& r == (RouteEffect::Enqueued { canister_id })
                        &&& final(self).mailbox(canister_id) == Some(
                            old(self).mailbox(canister_id).unwrap().push(
                                CanisterMessage { message, reply_channel: reply_sender },
                            ),
                        )
                        &&& forall|c: u64|
                            c != canister_id ==> final(self).mailbox(c) == old(self).mailbox(c)
                    } else {
                        &&& forall|c: u64| final(self).mailbox(c) == old(self).mailbox(c)
                        &&& match reply_sender {
                            Some(channel) => {
                                &&& r matches RouteEffect::Rejected {
                                    channel: ch,
                                    reply,
                                }
                                &&& ch == channel
                                &&& is_unknown_destination_reject(
                                    reply,
                                    attached_cycles(message),
                                )
                            },
                            None => r == (RouteEffect::Fatal {
                                error: FatalError::MissingReplyChannel { canister_id },
                            }),
                        }
                    }
                },
                ReplicaMessage::CanisterReply { canister_id, message } => {
                    if old(self).is_registered(canister_id) {
                        &&& r == (RouteEffect::Enqueued { canister_id })
                        &&& final(self).mailbox(canister_id) == Some(
                            old(self).mailbox(canister_id).unwrap().push(
                                CanisterMessage { message, reply_channel: None },
                            ),
                        )
                        &&& forall|c: u64|
                            c != canister_id ==> final(self).mailbox(c) == old(self).mailbox(c)
                    } else {
                        &&& r == (RouteEffect::Fatal {
                            error: FatalError::UnknownReplyOrigin { canister_id },
                        })
                        &&& forall|c: u64| final(self).mailbox(c) == old(self).mailbox(c)
                    }
                },
            },
    {
        match m {
            ReplicaMessage::CanisterAdded { canister_id } => {
                match find_index(&self.canisters, canister_id) {
                    Some(_) => RouteEffect::Fatal {
                        error: FatalError::DuplicateCanister { canister_id },
                    },
                    None => {
                        let ghost old_seq = self.canisters@;
                        self.canisters.push(Entry { key: canister_id, val: Vec::new() });
                        proof {
                            let e = self.canisters@.last();
                            assert(self.canisters@ =~= old_seq.push(e));
                            lemma_distinct_push(old_seq, e);
                            lemma_lookup_push(old_seq, e, canister_id);
                            assert forall|c: u64| c != canister_id implies self.mailbox(c)
                                == old(self).mailbox(c) by {
                                lemma_lookup_push(old_seq, e, c);
                            }
                        }
                        RouteEffect::Registered
                    },
                }
            },
            ReplicaMessage::CanisterRequest { canister_id, message, reply_sender } => {
                let refund = match &message {
                    Message::CustomTask { env, .. } => env.cycles_available,
                    Message::Request { env, .. } => env.cycles_available,
                    Message::Reply { .. } => 0,
                };
                let cm = CanisterMessage { message, reply_channel: reply_sender };
                if self.enqueue(canister_id, cm) {
                    RouteEffect::Enqueued { canister_id }
                } else {
                    match reply_sender {
                        Some(channel) => RouteEffect::Rejected {
                            channel,
                            reply: reject_unknown_destination(refund),
                        },
                        None => RouteEffect::Fatal {
                            error: FatalError::MissingReplyChannel { canister_id },
                        },
                    }
                }
            },
            ReplicaMessage::CanisterReply { canister_id, message } => {
                let cm = CanisterMessage { message, reply_channel: None };
                if self.enqueue(canister_id, cm) {
                    RouteEffect::Enqueued { canister_id }
                } else {
                    RouteEffect::Fatal {
                        error: FatalError::UnknownReplyOrigin { canister_id },
                    }
                }
            },
        }
    }

    /// Dequeue the next message of the given canister: the front of its
    /// queue, in strict arrival order. `None` when the canister is not
    /// registered or its mailbox is empty (the runtime's actor loop
    /// suspends in that case).
    pub fn take_next_message(&mut self, canister_id: u64) -> (r: Option<CanisterMessage>)
        requires
            old(self).wf(),
        ensures
            final(self).wf(),
            match r {
                Some(cm) => {
                    &&& old(self).mailbox(canister_id) matches Some(q)
                    &&& q.len() > 0
                    &&& cm == q.first()
                    &&& final(self).mailbox(canister_id) == Some(q.drop_first())
                    &&& forall|c: u64| c != canister_id ==> final(self).mailbox(c) == old(self).mailbox(c)
                },
                None => {
                    &&& (old(self).is_registered(canister_id) ==> old(self).mailbox(
                        canister_id,
                    ).unwrap().len() == 0)
                    &&& forall|c: u64| final(self).mailbox(c) == old(self).mailbox(c)
                },
            },
    {
        match find_index(&self.canisters, canister_id) {
            Some(i) => {
                if self.canisters[i].val.len() > 0 {
                    let ghost old_seq = self.canisters@;
                    let cm = self.canisters[i].val.remove(0);
                    proof {
                        let e = self.canisters@[i as int];
                        assert(self.canisters@ =~= old_seq.update(i as int, e));
                        assert(e.val@ =~= old_seq[i as int].val@.drop_first());
                        lemma_distinct_update(old_seq, i as int, e);
                        assert forall|c: u64| c != canister_id implies self.mailbox(c) == old(
                            self,
                        ).mailbox(c) by {
                            lemma_lookup_update(old_seq, i as int, e, c);
                        }
                        lemma_lookup_update(old_seq, i as int, e, canister_id);
                    }
                    Some(cm)
                } else {
                    None
                }
            },
            None => None,
        }
    }
}

/// A pending inter-canister call: who issued it, the correlation id that
/// will tag its reply, and the outcome channel its watcher awaits. Created
/// at submission, retired when the outcome is delivered.
#[derive(Clone, Copy, PartialEq, Eq, Debug, Structural)]
pub struct Watcher {
    pub origin: u64,
    pub request_id: u64,
    pub channel: u64,
}

/// An external, non-owning reference to one canister of a replica: the
/// identity plus nothing else. Constructed freely and discarded freely;
/// submission goes through the replica it is handed.
#[derive(Clone, Copy, PartialEq, Eq, Debug, Structural)]
pub struct CanisterHandle {
    pub canister_id: u64,
}

/// The replica: the dispatcher state together with the generator of
/// correlation ids, the generator of outcome-channel handles, and the
/// correlation ids of the calls whose outcome is still outstanding.
///
/// Correlation ids are handed out strictly increasingly, so an id is never
/// reused while its call is outstanding: a reply can match at most one
/// pending call.
pub struct Replica {
    state: ReplicaState,
    next_request_id: u64,
    next_channel_id: u64,
    outstanding: Vec<u64>,
}

impl Replica {
    /// Well-formedness: the registry maps each identity to at most one
    /// mailbox, no two outstanding calls share a correlation id, and every
    /// outstanding id was minted by the counter.
    pub closed spec fn wf(self) -> bool {
        &&& self.state.wf()
        &&& forall|i: int, j: int|
            0 <= i < j < self.outstanding@.len() ==> self.outstanding@[i] != self.outstanding@[j]
        &&& forall|i: int|
            0 <= i < self.outstanding@.len() ==> self.outstanding@[i] < self.next_request_id
    }

    /// The queue of the given canister's mailbox, if registered.
    pub closed spec fn mailbox(self, canister_id: u64) -> Option<Seq<CanisterMessage>> {
        self.state.mailbox(canister_id)
    }

    /// Whether the identity has a mailbox.
    pub open spec fn is_registered(self, canister_id: u64) -> bool {
        self.mailbox(canister_id) is Some
    }

    /// The correlation ids of the calls whose outcome has not yet been
    /// delivered, in order of issuance.
    pub closed spec fn pending_calls(self) -> Seq<u64> {
        self.outstanding@
    }

    /// The correlation id the next submitted call will receive.
    pub closed spec fn request_id_counter(self) -> u64 {
        self.next_request_id
    }

    /// The handle the next outcome channel will receive.
    pub closed spec fn channel_counter(self) -> u64 {
        self.next_channel_id
    }

    /// Create a replica hosting the given canisters, registered in order.
    /// A repeated identity is the fatal configuration error
    /// [`FatalError::DuplicateCanister`]; nothing is returned then, exactly
    /// when the identities are not pairwise distinct.
    pub fn new(canister_ids: Vec<u64>) -> (r: Result<Replica, FatalError>)
        ensures
            match r {
                Ok(rep) => {
                    &&& rep.wf()
                    &&& forall|i: int, j: int|
                        0 <= i < j < canister_ids@.len() ==> canister_ids@[i] != canister_ids@[j]
                    &&& forall|c: u64|
                        rep.is_registered(c) <==> canister_ids@.contains(c)
                    &&& forall|c: u64|
                        canister_ids@.contains(c) ==> rep.mailbox(c) == Some(
                            Seq::<CanisterMessage>::empty(),
                        )
                    &&& rep.pending_calls() == Seq::<u64>::empty()
                    &&& rep.request_id_counter() == 0
                    &&& rep.channel_counter() == 0
                },
                Err(e) => {
                    &&& !(forall|i: int, j: int|
                        0 <= i < j < canister_ids@.len() ==> canister_ids@[i] != canister_ids@[j])
                    &&& e matches FatalError::DuplicateCanister { canister_id }
                    &&& canister_ids@.contains(canister_id)
                },
            },
    {
        let mut rep = Replica::default();
        let n = canister_ids.len();
        let mut i: usize = 0;
        while i < n
            invariant
                i <= n,
                n == canister_ids.len(),
                rep.wf(),
                forall|k: int, l: int| 0 <= k < l < i ==> canister_ids@[k] != canister_ids@[l],
                forall|c: u64|
                    rep.is_registered(c) <==> canister_ids@.subrange(0, i as int).contains(c),
                forall|c: u64|
                    rep.is_registered(c) ==> rep.mailbox(c) == Some(
                        Seq::<CanisterMessage>::empty(),
                    ),
                rep.pending_calls() == Seq::<u64>::empty(),
                rep.request_id_counter() == 0,
                rep.channel_counter() == 0,
            decreases n - i,
        {
            let id = canister_ids[i];
            match rep.add_canister(id) {
                Ok(_) => {},
                Err(e) => {
                    proof {
                        let prefix = canister_ids@.subrange(0, i as int);
                        assert(prefix.contains(id));
                        let k = choose|k: int| 0 <= k < prefix.len() && prefix[k] == id;
                        assert(canister_ids@[k] == id);
                        assert(canister_ids@[i as int] == id);
                        assert(0 <= k && k < i as int);
                        assert((i as int) < canister_ids@.len());
                        assert(canister_ids@.contains(id)) by {
                            assert(canister_ids@[i as int] == id);
                        }
                    }
                    return Err(e);
                },
            }
            proof {
                let pre = canister_ids@.subrange(0, i as int);
                let post = canister_ids@.subrange(0, i as int + 1);
                assert(post =~= pre.push(id));
                assert forall|c: u64| rep.is_registered(c) <==> post.contains(c) by {
                    if post.contains(c) {
                        let k = choose|k: int| 0 <= k < post.len() && post[k] == c;
                        if k < i as int {
                            assert(pre[k] == c);
                            assert(pre.contains(c));
                        }
                    }
                    if pre.contains(c) {
                        let k = choose|k: int| 0 <= k < pre.len() && pre[k] == c;
                        assert(post[k] == c);
                    }
                    if c == id {
                        assert(post[i as int] == c);
                    }
                }
                assert forall|k: int, l: int|
                    0 <= k < l < i + 1 implies canister_ids@[k] != canister_ids@[l] by {
                    if l == i as int {
                        assert(pre[k] == canister_ids@[k]);
                        assert(pre.contains(canister_ids@[k]));
                        assert(!pre.contains(id));
                    }
                }
            }
            i = i + 1;
        }
        proof {
            assert(canister_ids@.subrange(0, n as int) =~= canister_ids@);
        }
        Ok(rep)
    }

    /// Register one more canister, creating its (empty) mailbox, and hand
    /// back its handle. Registering an identity that already has a mailbox
    /// is the fatal configuration error [`FatalError::DuplicateCanister`]
    /// and changes nothing.
    pub fn add_canister(&mut self, canister_id: u64) -> (r: Result<CanisterHandle, FatalError>)
        requires
            old(self).wf(),
        ensures
            final(self).wf(),
            final(self).pending_calls() == old(self).pending_calls(),
            final(self).request_id_counter() == old(self).request_id_counter(),
            final(self).channel_counter() == old(self).channel_counter(),
            if old(self).is_registered(canister_id) {
                &&& r == Err::<CanisterHandle, FatalError>(
                    FatalError::DuplicateCanister { canister_id },
                )
                &&& forall|c: u64| final(self).mailbox(c) == old(self).mailbox(c)
            } else {
                &&& r == Ok::<CanisterHandle, FatalError>(CanisterHandle { canister_id })
                &&& final(self).mailbox(canister_id) == Some(Seq::<CanisterMessage>::empty())
                &&& forall|c: u64| c != canister_id ==> final(self).mailbox(c) == old(self).mailbox(c)
            },
    {
        match self.state.handle_message(ReplicaMessage::CanisterAdded { canister_id }) {
            RouteEffect::Registered => Ok(CanisterHandle { canister_id }),
            RouteEffect::Fatal { error } => Err(error),
            _ => {
                proof {
                    assert(false);
                }
                Err(FatalError::DuplicateCanister { canister_id })
            },
        }
    }

    /// The handle to a canister of this replica. Nothing checks that the
    /// canister exists: a handle is only an identity, and submitting
    /// through a handle to an unregistered identity resolves with a
    /// `DestinationInvalid` rejection like any other unroutable call.
    pub fn get_canister(&self, canister_id: u64) -> (h: CanisterHandle)
        ensures
            h.canister_id == canister_id,
    {
        CanisterHandle { canister_id }
    }

    /// Route a message towards a canister: one dispatcher turn of the
    /// request kind. The counters and the outstanding calls are untouched;
    /// correlation bookkeeping belongs to [`Replica::submit_call`].
    pub fn enqueue_request(
        &mut self,
        canister_id: u64,
        message: Message,
        reply_sender: Option<u64>,
    ) -> (r: RouteEffect)
        requires
            old(self).wf(),
        ensures
            final(self).wf(),
            final(self).pending_calls() == old(self).pending_calls(),
            final(self).request_id_counter() == old(self).request_id_counter(),
            final(self).channel_counter() == old(self).channel_counter(),
            if old(self).is_registered(canister_id) {
                &&& r == (RouteEffect::Enqueued { canister_id })
                &&& final(self).mailbox(canister_id) == Some(
                    old(self).mailbox(canister_id).unwrap().push(
                        CanisterMessage { message, reply_channel: reply_sender },
                    ),
                )
                &&& forall|c: u64| c != canister_id ==> final(self).mailbox(c) == old(self).mailbox(c)
            } else {
                &&& forall|c: u64| final(self).mailbox(c) == old(self).mailbox(c)
                &&& match reply_sender {
                    Some(channel) => {
                        &&& r matches RouteEffect::Rejected { channel: ch, reply }
                        &&& ch == channel
                        &&& is_unknown_destination_reject(reply, attached_cycles(message))
                    },
                    None => r == (RouteEffect::Fatal {
                        error: FatalError::MissingReplyChannel { canister_id },
                    }),
                }
            },
    {
        self.state.handle_message(
            ReplicaMessage::CanisterRequest { canister_id, message, reply_sender },
        )
    }

    /// Dequeue the next message of the given canister, in strict arrival
    /// order; see [`ReplicaState::take_next_message`].
    pub fn take_next_message(&mut self, canister_id: u64) -> (r: Option<CanisterMessage>)
        requires
            old(self).wf(),
        ensures
            final(self).wf(),
            final(self).pending_calls() == old(self).pending_calls(),
            final(self).request_id_counter() == old(self).request_id_counter(),
            final(self).channel_counter() == old(self).channel_counter(),
            match r {
                Some(cm) => {
                    &&& old(self).mailbox(canister_id) matches Some(q)
                    &&& q.len() > 0
                    &&& cm == q.first()
                    &&& final(self).mailbox(canister_id) == Some(q.drop_first())
                    &&& forall|c: u64| c != canister_id ==> final(self).mailbox(c) == old(self).mailbox(c)
                },
                None => {
                    &&& (old(self).is_registered(canister_id) ==> old(self).mailbox(
                        canister_id,
                    ).unwrap().len() == 0)
                    &&& forall|c: u64| final(self).mailbox(c) == old(self).mailbox(c)
                },
            },
    {
        self.state.take_next_message(canister_id)
    }

    /// True while another submission can still be made: the correlation-id
    /// and outcome-channel generators both have room. The surrounding
    /// runtime tests this before it submits on a caller's behalf.
    pub fn can_submit(&self) -> (r: bool)
        ensures
            r == (self.request_id_counter() < u64::MAX && self.channel_counter() < u64::MAX),
    {
        self.next_request_id < u64::MAX && self.next_channel_id < u64::MAX
    }

    /// How many issued calls still await their outcome.
    pub fn pending_count(&self) -> (n: usize)
        ensures
            n == self.pending_calls().len(),
    {
        self.outstanding.len()
    }

    /// The number of messages queued for a canister, if it is registered.
    pub fn mailbox_len(&self, canister_id: u64) -> (r: Option<usize>)
        ensures
            match r {
                Some(n) => self.mailbox(canister_id) matches Some(q) && n == q.len(),
                None => !self.is_registered(canister_id),
            },
    {
        match find_index(&self.state.canisters, canister_id) {
            Some(i) => Some(self.state.canisters[i].val.len()),
            None => None,
        }
    }

    /// Submit one outgoing call produced by `origin` while it processed a
    /// message: assign the call a freshly generated correlation id — one no
    /// outstanding call shares — and an outcome channel, and route the
    /// request to the callee. The returned watcher is what the runtime's
    /// ephemeral watcher task holds while awaiting the outcome; the call is
    /// outstanding until [`Replica::deliver_outcome`] retires it.
    ///
    /// If the callee is not registered, the effect asks the runtime to
    /// resolve the watcher's channel with a `DestinationInvalid` rejection
    /// refunding exactly `call.cycles`.
    pub fn submit_call(&mut self, origin: u64, call: CanisterCall) -> (r: (Watcher, RouteEffect))
        requires
            old(self).wf(),
            old(self).request_id_counter() < u64::MAX,
            old(self).channel_counter() < u64::MAX,
        ensures
            final(self).wf(),
            r.0.origin == origin,
            r.0.request_id == old(self).request_id_counter(),
            r.0.channel == old(self).channel_counter(),
            final(self).request_id_counter() == old(self).request_id_counter() + 1,
            final(self).channel_counter() == old(self).channel_counter() + 1,
            final(self).pending_calls() == old(self).pending_calls().push(r.0.request_id),
            forall|i: int|
                0 <= i < old(self).pending_calls().len() ==> old(self).pending_calls()[i]
                    != r.0.request_id,
            if old(self).is_registered(call.callee) {
                &&& r.1 == (RouteEffect::Enqueued { canister_id: call.callee })
                &&& final(self).mailbox(call.callee) == Some(
                    old(self).mailbox(call.callee).unwrap().push(
                        CanisterMessage {
                            message: call_message(call, origin, r.0.request_id),
                            reply_channel: Some(r.0.channel),
                        },
                    ),
                )
                &&& forall|c: u64| c != call.callee ==> final(self).mailbox(c) == old(self).mailbox(c)
            } else {
                &&& r.1 matches RouteEffect::Rejected { channel: ch, reply }
                &&& ch == r.0.channel
                &&& is_unknown_destination_reject(reply, call.cycles)
                &&& forall|c: u64| final(self).mailbox(c) == old(self).mailbox(c)
            },
    {
        let request_id = self.next_request_id;
        self.next_request_id = self.next_request_id + 1;
        let channel = self.next_channel_id;
        self.next_channel_id = self.next_channel_id + 1;
        self.outstanding.push(request_id);
        let callee = call.callee;
        let message = build_call_message(call, origin, request_id);
        let effect = self.state.handle_message(
            ReplicaMessage::CanisterRequest {
                canister_id: callee,
                message,
                reply_sender: Some(channel),
            },
        );
        (Watcher { origin, request_id, channel }, effect)
    }

    /// Perform a call submitted from outside the replica (no canister is
    /// the caller): tag it with a fresh correlation id, attach a fresh
    /// outcome channel, and route it to the callee. The submitter awaits
    /// the returned channel directly; no watcher re-injects the outcome
    /// anywhere, so nothing becomes outstanding.
    pub fn perform_call(&mut self, call: CanisterCall) -> (r: (u64, RouteEffect))
        requires
            old(self).wf(),
            old(self).request_id_counter() < u64::MAX,
            old(self).channel_counter() < u64::MAX,
        ensures
            final(self).wf(),
            r.0 == old(self).channel_counter(),
            final(self).request_id_counter() == old(self).request_id_counter() + 1,
            final(self).channel_counter() == old(self).channel_counter() + 1,
            final(self).pending_calls() == old(self).pending_calls(),
            if old(self).is_registered(call.callee) {
                &&& r.1 == (RouteEffect::Enqueued { canister_id: call.callee })
                &&& final(self).mailbox(call.callee) == Some(
                    old(self).mailbox(call.callee).unwrap().push(
                        CanisterMessage {
                            message: call_message(call, 0, old(self).request_id_counter()),
                            reply_channel: Some(r.0),
                        },
                    ),
                )
                &&& forall|c: u64| c != call.callee ==> final(self).mailbox(c) == old(self).mailbox(c)
            } else {
                &&& r.1 matches RouteEffect::Rejected { channel: ch, reply }
                &&& ch == r.0
                &&& is_unknown_destination_reject(reply, call.cycles)
                &&& forall|c: u64| final(self).mailbox(c) == old(self).mailbox(c)
            },
    {
        let request_id = self.next_request_id;
        self.next_request_id = self.next_request_id + 1;
        let channel = self.next_channel_id;
        self.next_channel_id = self.next_channel_id + 1;
        let callee = call.callee;
        let message = build_call_message(call, 0, request_id);
        let effect = self.state.handle_message(
            ReplicaMessage::CanisterRequest {
                canister_id: callee,
                message,
                reply_sender: Some(channel),
            },
        );
        (channel, effect)
    }

    /// Deliver a call's outcome: retire its correlation id and re-inject
    /// the outcome into the originating canister's mailbox as an ordinary
    /// reply message tagged with that id — what the watcher task does once
    /// the outcome channel resolves. An origin that is no longer registered
    /// is fatal (its actor loop terminated with a call outstanding).
    pub fn deliver_outcome(&mut self, watcher: Watcher, reply: CallReply) -> (r: RouteEffect)
        requires
            old(self).wf(),
        ensures
            final(self).wf(),
            final(self).request_id_counter() == old(self).request_id_counter(),
            final(self).channel_counter() == old(self).channel_counter(),
            if old(self).is_registered(watcher.origin) {
                &&& r == (RouteEffect::Enqueued { canister_id: watcher.origin })
                &&& final(self).mailbox(watcher.origin) == Some(
                    old(self).mailbox(watcher.origin).unwrap().push(
                        CanisterMessage {
                            message: Message::Reply { reply, request_id: watcher.request_id },
                            reply_channel: None,
                        },
                    ),
                )
                &&& forall|c: u64|
                    c != watcher.origin ==> final(self).mailbox(c) == old(self).mailbox(c)
                &&& !final(self).pending_calls().contains(watcher.request_id)
                &&& forall|k: u64|
                    k != watcher.request_id ==> (final(self).pending_calls().contains(k) <==> old(
                        self,
                    ).pending_calls().contains(k))
                &&& final(self).pending_calls().len() == old(self).pending_calls().len() - (
                if old(self).pending_calls().contains(watcher.request_id) {
                    1int
                } else {
                    0int
                })
            } else {
                &&& r == (RouteEffect::Fatal {
                    error: FatalError::UnknownReplyOrigin { canister_id: watcher.origin },
                })
                &&& forall|c: u64| final(self).mailbox(c) == old(self).mailbox(c)
                &&& final(self).pending_calls() == old(self).pending_calls()
            },
    {
        let message = reply.to_message(watcher.request_id);
        let effect = self.state.handle_message(
            ReplicaMessage::CanisterReply { canister_id: watcher.origin, message },
        );
        match &effect {
            RouteEffect::Enqueued { .. } => {
                self.retire_request_id(watcher.request_id);
            },
            _ => {},
        }
        effect
    }

    /// Drop a correlation id from the outstanding set.
    #[verifier::loop_isolation(false)]
    fn retire_request_id(&mut self, request_id: u64)
        requires
            forall|i: int, j: int|
                0 <= i < j < old(self).outstanding@.len() ==> old(self).outstanding@[i] != old(
                    self,
                ).outstanding@[j],
            forall|i: int|
                0 <= i < old(self).outstanding@.len() ==> old(self).outstanding@[i] < old(
                    self,
                ).next_request_id,
            old(self).state.wf(),
        ensures
            final(self).wf(),
            final(self).state == old(self).state,
            final(self).next_request_id == old(self).next_request_id,
            final(self).next_channel_id == old(self).next_channel_id,
            !final(self).outstanding@.contains(request_id),
            forall|k: u64|
                k != request_id ==> (final(self).outstanding@.contains(k) <==> old(
                    self,
                ).outstanding@.contains(k)),
            final(self).outstanding@.len() == old(self).outstanding@.len() - (
            if old(self).outstanding@.contains(request_id) {
                1int
            } else {
                0int
            }),
    {
        let n = self.outstanding.len();
        let mut i: usize = 0;
        while i < n
            invariant
                i <= n,
                n == self.outstanding.len(),
                self == old(self),
                forall|j: int| 0 <= j < i ==> self.outstanding@[j] != request_id,
            decreases n - i,
        {
            if self.outstanding[i] == request_id {
                let ghost old_seq = self.outstanding@;
                self.outstanding.remove(i);
                proof {
                    let s = self.outstanding@;
                    old_seq.remove_ensures(i as int);
                    assert(s == old_seq.remove(i as int));
                    assert forall|x: int| 0 <= x < i as int implies s[x] == old_seq[x] by {
                        assert(old_seq.remove(i as int)[x] == old_seq[x]);
                    }
                    assert forall|x: int| i as int <= x < s.len() implies s[x] == old_seq[x + 1] by {
                        assert(old_seq.remove(i as int)[x] == old_seq[x + 1]);
                    }
                    assert(old_seq == old(self).outstanding@);
                    assert forall|a: int, b: int| 0 <= a < b < s.len() implies s[a] != s[b] by {
                        let oa: int = if a < i as int { a } else { a + 1 };
                        let ob: int = if b < i as int { b } else { b + 1 };
                        assert(s[a] == old(self).outstanding@[oa]);
                        assert(s[b] == old(self).outstanding@[ob]);
                        assert(old(self).outstanding@[oa] != old(self).outstanding@[ob]);
                    }
                    assert forall|a: int|
                        0 <= a < s.len() implies s[a] < old(self).next_request_id by {
                        let oa: int = if a < i as int { a } else { a + 1 };
                        assert(s[a] == old(self).outstanding@[oa]);
                        assert(old(self).outstanding@[oa] < old(self).next_request_id);
                    }
                    assert forall|k: u64| s.contains(k) implies old_seq.contains(k) && (k
                        != request_id ==> old_seq.contains(k)) by {
                        let w = choose|w: int| 0 <= w < s.len() && s[w] == k;
                        if w < i as int {
                            assert(old_seq[w] == k);
                        } else {
                            assert(old_seq[w + 1] == k);
                        }
                    }
                    assert forall|k: u64|
                        k != request_id && old_seq.contains(k) implies s.contains(k) by {
                        let w = choose|w: int| 0 <= w < old_seq.len() && old_seq[w] == k;
                        if w < i as int {
                            assert(s[w] == k);
                        } else {
                            assert(w != i as int);
                            assert(s[w - 1] == k);
                        }
                    }
                    assert(!s.contains(request_id)) by {
                        if s.contains(request_id) {
                            let w = choose|w: int| 0 <= w < s.len() && s[w] == request_id;
                            if w < i as int {
                                assert(old_seq[w] == request_id);
                            } else {
                                assert(old_seq[w + 1] == request_id);
                            }
                        }
                    }
                    assert(old_seq.contains(request_id)) by {
                        assert(old_seq[i as int] == request_id);
                    }
                }
                return ;
            }
            i = i + 1;
        }
        proof {
            assert(!self.outstanding@.contains(request_id)) by {
                if self.outstanding@.contains(request_id) {
                    let w = choose|w: int|
                        0 <= w < self.outstanding@.len() && self.outstanding@[w] == request_id;
                }
            }
        }
    }
}

impl Default for Replica {
    /// An empty replica: no canisters, no outstanding calls, both
    /// generators at zero.
    fn default() -> (r: Replica)
        ensures
            r.wf(),
            forall|c: u64| !r.is_registered(c),
            r.pending_calls() == Seq::<u64>::empty(),
            r.request_id_counter() == 0,
            r.channel_counter() == 0,
    {
        let r = Replica {
            state: ReplicaState::new(),
            next_request_id: 0,
            next_channel_id: 0,
            outstanding: Vec::new(),
        };
        proof {
            assert(r.outstanding@ =~= Seq::<u64>::empty());
            assert forall|c: u64| !r.is_registered(c) by {
                assert(!r.state.is_registered(c));
            }
        }
        r
    }
}

/// The request message the dispatcher routes for an outgoing call: the
/// callee sees the caller's identity, the method and arguments, and the
/// attached cycles — available for it to accept, and refunded in full
/// should the request never reach it. Nothing has been returned yet, so
/// the refunded amount of a fresh request is zero.
pub open spec fn call_message(call: CanisterCall, caller: u64, request_id: u64) -> Message {
    Message::Request {
        request_id,
        env: Env {
            caller,
            entry_mode: EntryMode::Update,
            method_name: call.method_name,
            args: call.args,
            cycles_available: call.cycles,
            cycles_refunded: 0,
        },
    }
}

/// Build [`call_message`].
fn build_call_message(call: CanisterCall, caller: u64, request_id: u64) -> (m: Message)
    ensures
        m == call_message(call, caller, request_id),
{
    let CanisterCall { callee: _, method_name, args, cycles } = call;
    Message::Request {
        request_id,
        env: Env {
            caller,
            entry_mode: EntryMode::Update,
            method_name,
            args,
            cycles_available: cycles,
            cycles_refunded: 0,
        },
    }
}

/// The mailbox message a canned lifecycle submission enqueues: a structured
/// request tagged `request_id`, awaiting `channel`, whose envelope has no
/// caller, no payload and no cycles and addresses the `mode` entry point.
pub open spec fn is_lifecycle_submission(
    cm: CanisterMessage,
    mode: EntryMode,
    request_id: u64,
    channel: u64,
) -> bool {
    &&& cm.reply_channel == Some(channel)
    &&& cm.message matches Message::Request { request_id: rid, env }
    &&& rid == request_id
    &&& env.caller == 0
    &&& env.entry_mode == mode
    &&& env.method_name@ == Seq::<char>::empty()
    &&& env.args@ == Seq::<u8>::empty()
    &&& env.cycles_available == 0
    &&& env.cycles_refunded == 0
}

impl CanisterHandle {
    /// Run the given envelope in this canister's execution context as a
    /// structured request: tag it with a fresh correlation id, attach a
    /// fresh outcome channel, and route it. Returns the channel the
    /// submitter awaits and the routing effect; an unregistered identity
    /// resolves the channel at once with a `DestinationInvalid` rejection
    /// refunding the cycles the envelope owed back.
    pub fn run_env(&self, replica: &mut Replica, env: Env) -> (r: (u64, RouteEffect))
        requires
            old(replica).wf(),
            old(replica).request_id_counter() < u64::MAX,
            old(replica).channel_counter() < u64::MAX,
        ensures
            final(replica).wf(),
            r.0 == old(replica).channel_counter(),
            final(replica).request_id_counter() == old(replica).request_id_counter() + 1,
            final(replica).channel_counter() == old(replica).channel_counter() + 1,
            final(replica).pending_calls() == old(replica).pending_calls(),
            if old(replica).is_registered(self.canister_id) {
                &&& r.1 == (RouteEffect::Enqueued { canister_id: self.canister_id })
                &&& final(replica).mailbox(self.canister_id) == Some(
                    old(replica).mailbox(self.canister_id).unwrap().push(
                        CanisterMessage {
                            message: Message::Request {
                                request_id: old(replica).request_id_counter(),
                                env,
                            },
                            reply_channel: Some(r.0),
                        },
                    ),
                )
                &&& forall|c: u64|
                    c != self.canister_id ==> final(replica).mailbox(c) == old(replica).mailbox(c)
            } else {
                &&& r.1 matches RouteEffect::Rejected { channel: ch, reply }
                &&& ch == r.0
                &&& is_unknown_destination_reject(reply, env.cycles_available)
                &&& forall|c: u64| final(replica).mailbox(c) == old(replica).mailbox(c)
            },
    {
        let request_id = replica.next_request_id;
        replica.next_request_id = replica.next_request_id + 1;
        let channel = replica.next_channel_id;
        replica.next_channel_id = replica.next_channel_id + 1;
        let effect = replica.state.handle_message(
            ReplicaMessage::CanisterRequest {
                canister_id: self.canister_id,
                message: Message::Request { request_id, env },
                reply_sender: Some(channel),
            },
        );
        (channel, effect)
    }

    /// Run an opaque, run-once unit of work in this canister's execution
    /// context: the ad hoc task path. `task` is the runtime's handle to the
    /// work; the routing logic only carries it. The envelope's available
    /// cycles are what an unroutable submission refunds.
    pub fn custom(&self, replica: &mut Replica, task: u64, env: Env) -> (r: (u64, RouteEffect))
        requires
            old(replica).wf(),
            old(replica).request_id_counter() < u64::MAX,
            old(replica).channel_counter() < u64::MAX,
        ensures
            final(replica).wf(),
            r.0 == old(replica).channel_counter(),
            final(replica).request_id_counter() == old(replica).request_id_counter() + 1,
            final(replica).channel_counter() == old(replica).channel_counter() + 1,
            final(replica).pending_calls() == old(replica).pending_calls(),
            if old(replica).is_registered(self.canister_id) {
                &&& r.1 == (RouteEffect::Enqueued { canister_id: self.canister_id })
                &&& final(replica).mailbox(self.canister_id) == Some(
                    old(replica).mailbox(self.canister_id).unwrap().push(
                        CanisterMessage {
                            message: Message::CustomTask {
                                request_id: old(replica).request_id_counter(),
                                task,
                                env,
                            },
                            reply_channel: Some(r.0),
                        },
                    ),
                )
                &&& forall|c: u64|
                    c != self.canister_id ==> final(replica).mailbox(c) == old(replica).mailbox(c)
            } else {
                &&& r.1 matches RouteEffect::Rejected { channel: ch, reply }
                &&& ch == r.0
                &&& is_unknown_destination_reject(reply, env.cycles_available)
                &&& forall|c: u64| final(replica).mailbox(c) == old(replica).mailbox(c)
            },
    {
        let request_id = replica.next_request_id;
        replica.next_request_id = replica.next_request_id + 1;
        let channel = replica.next_channel_id;
        replica.next_channel_id = replica.next_channel_id + 1;
        let effect = replica.state.handle_message(
            ReplicaMessage::CanisterRequest {
                canister_id: self.canister_id,
                message: Message::CustomTask { request_id, task, env },
                reply_sender: Some(channel),
            },
        );
        (channel, effect)
    }

    /// Run the canister's `initialize` lifecycle hook: the canned init
    /// envelope submitted through the standard request path.
    pub fn init(&self, replica: &mut Replica) -> (r: (u64, RouteEffect))
        requires
            old(replica).wf(),
            old(replica).request_id_counter() < u64::MAX,
            old(replica).channel_counter() < u64::MAX,
        ensures
            final(replica).wf(),
            r.0 == old(replica).channel_counter(),
            final(replica).request_id_counter() == old(replica).request_id_counter() + 1,
            final(replica).channel_counter() == old(replica).channel_counter() + 1,
            final(replica).pending_calls() == old(replica).pending_calls(),
            if old(replica).is_registered(self.canister_id) {
                &&& r.1 == (RouteEffect::Enqueued { canister_id: self.canister_id })
                &&& final(replica).mailbox(self.canister_id) matches Some(q)
                &&& old(replica).mailbox(self.canister_id) matches Some(q0)
                &&& q.len() == q0.len() + 1
                &&& q.drop_last() == q0
                &&& is_lifecycle_submission(
                    q.last(),
                    EntryMode::Init,
                    old(replica).request_id_counter(),
                    r.0,
                )
                &&& forall|c: u64|
                    c != self.canister_id ==> final(replica).mailbox(c) == old(replica).mailbox(c)
            } else {
                &&& r.1 matches RouteEffect::Rejected { channel: ch, reply }
                &&& ch == r.0
                &&& is_unknown_destination_reject(reply, 0)
                &&& forall|c: u64| final(replica).mailbox(c) == old(replica).mailbox(c)
            },
    {
        let r = self.run_env(replica, Env::init());
        proof {
            lemma_lifecycle_push(*old(replica), *replica, self.canister_id);
        }
        r
    }

    /// Run the canister's `pre-upgrade` lifecycle hook.
    pub fn pre_upgrade(&self, replica: &mut Replica) -> (r: (u64, RouteEffect))
        requires
            old(replica).wf(),
            old(replica).request_id_counter() < u64::MAX,
            old(replica).channel_counter() < u64::MAX,
        ensures
            final(replica).wf(),
            r.0 == old(replica).channel_counter(),
            final(replica).request_id_counter() == old(replica).request_id_counter() + 1,
            final(replica).channel_counter() == old(replica).channel_counter() + 1,
            final(replica).pending_calls() == old(replica).pending_calls(),
            if old(replica).is_registered(self.canister_id) {
                &&& r.1 == (RouteEffect::Enqueued { canister_id: self.canister_id })
                &&& final(replica).mailbox(self.canister_id) matches Some(q)
                &&& old(replica).mailbox(self.canister_id) matches Some(q0)
                &&& q.len() == q0.len() + 1
                &&& q.drop_last() == q0
                &&& is_lifecycle_submission(
                    q.last(),
                    EntryMode::PreUpgrade,
                    old(replica).request_id_counter(),
                    r.0,
                )
                &&& forall|c: u64|
                    c != self.canister_id ==> final(replica).mailbox(c) == old(replica).mailbox(c)
            } else {
                &&& r.1 matches RouteEffect::Rejected { channel: ch, reply }
                &&& ch == r.0
                &&& is_unknown_destination_reject(reply, 0)
                &&& forall|c: u64| final(replica).mailbox(c) == old(replica).mailbox(c)
            },
    {
        let r = self.run_env(replica, Env::pre_upgrade());
        proof {
            lemma_lifecycle_push(*old(replica), *replica, self.canister_id);
        }
        r
    }

    /// Run the canister's `post-upgrade` lifecycle hook.
    pub fn post_upgrade(&self, replica: &mut Replica) -> (r: (u64, RouteEffect))
        requires
            old(replica).wf(),
            old(replica).request_id_counter() < u64::MAX,
            old(replica).channel_counter() < u64::MAX,
        ensures
            final(replica).wf(),
            r.0 == old(replica).channel_counter(),
            final(replica).request_id_counter() == old(replica).request_id_counter() + 1,
            final(replica).channel_counter() == old(replica).channel_counter() + 1,
            final(replica).pending_calls() == old(replica).pending_calls(),
            if old(replica).is_registered(self.canister_id) {
                &&& r.1 == (RouteEffect::Enqueued { canister_id: self.canister_id })
                &&& final(replica).mailbox(self.canister_id) matches Some(q)
                &&& old(replica).mailbox(self.canister_id) matches Some(q0)
                &&& q.len() == q0.len() + 1
                &&& q.drop_last() == q0
                &&& is_lifecycle_submission(
                    q.last(),
                    EntryMode::PostUpgrade,
                    old(replica).request_id_counter(),
                    r.0,
                )
                &&& forall|c: u64|
                    c != self.canister_id ==> final(replica).mailbox(c) == old(replica).mailbox(c)
            } else {
                &&& r.1 matches RouteEffect::Rejected { channel: ch, reply }
                &&& ch == r.0
                &&& is_unknown_destination_reject(reply, 0)
                &&& forall|c: u64| final(replica).mailbox(c) == old(replica).mailbox(c)
            },
    {
        let r = self.run_env(replica, Env::post_upgrade());
        proof {
            lemma_lifecycle_push(*old(replica), *replica, self.canister_id);
        }
        r
    }

    /// Run the canister's `heartbeat` lifecycle hook.
    pub fn heartbeat(&self, replica: &mut Replica) -> (r: (u64, RouteEffect))
        requires
            old(replica).wf(),
            old(replica).request_id_counter() < u64::MAX,
            old(replica).channel_counter() < u64::MAX,
        ensures
            final(replica).wf(),
            r.0 == old(replica).channel_counter(),
            final(replica).request_id_counter() == old(replica).request_id_counter() + 1,
            final(replica).channel_counter() == old(replica).channel_counter() + 1,
            final(replica).pending_calls() == old(replica).pending_calls(),
            if old(replica).is_registered(self.canister_id) {
                &&& r.1 == (RouteEffect::Enqueued { canister_id: self.canister_id })
                &&& final(replica).mailbox(self.canister_id) matches Some(q)
                &&& old(replica).mailbox(self.canister_id) matches Some(q0)
                &&& q.len() == q0.len() + 1
                &&& q.drop_last() == q0
                &&& is_lifecycle_submission(
                    q.last(),
                    EntryMode::Heartbeat,
                    old(replica).request_id_counter(),
                    r.0,
                )
                &&& forall|c: u64|
                    c != self.canister_id ==> final(replica).mailbox(c) == old(replica).mailbox(c)
            } else {
                &&& r.1 matches RouteEffect::Rejected { channel: ch, reply }
                &&& ch == r.0
                &&& is_unknown_destination_reject(reply, 0)
                &&& forall|c: u64| final(replica).mailbox(c) == old(replica).mailbox(c)
            },
    {
        let r = self.run_env(replica, Env::heartbeat());
        proof {
            lemma_lifecycle_push(*old(replica), *replica, self.canister_id);
        }
        r
    }
}

/// A pushed mailbox queue drops back to the old one: the glue between the
/// push-shaped contracts and the last/drop-last shape of the lifecycle
/// contracts.
proof fn lemma_lifecycle_push(pre: Replica, post: Replica, canister_id: u64)
    requires
        pre.is_registered(canister_id) ==> ({
            &&& post.mailbox(canister_id) matches Some(q)
            &&& exists|cm: CanisterMessage| q == pre.mailbox(canister_id).unwrap().push(cm)
        }),
    ensures
        pre.is_registered(canister_id) ==> ({
            &&& post.mailbox(canister_id) matches Some(q)
            &&& q.len() == pre.mailbox(canister_id).unwrap().len() + 1
            &&& q.drop_last() == pre.mailbox(canister_id).unwrap()
        }),
{
    if pre.is_registered(canister_id) {
        let q0 = pre.mailbox(canister_id).unwrap();
        let q = post.mailbox(canister_id).unwrap();
        let cm = choose|cm: CanisterMessage| q == q0.push(cm);
        assert(q.drop_last() =~= q0);
    }
}

/// No two outstanding calls of a well-formed replica share a correlation
/// id: a reply tagged with an outstanding id matches exactly one pending
/// call, whatever order the callees answer in, so outcomes are never
/// cross-delivered.
pub proof fn lemma_pending_ids_distinct(r: Replica)
    requires
        r.wf(),
    ensures
        forall|i: int, j: int|
            0 <= i < j < r.pending_calls().len() ==> r.pending_calls()[i] != r.pending_calls()[j],
{
}

/// A mailbox is strict FIFO: once a canister has processed `n` messages of
/// a queue, the next message it takes is element `n` of that queue —
/// arrival order is processing order, for replies exactly as for fresh
/// requests.
pub proof fn lemma_mailbox_fifo(q: Seq<CanisterMessage>, n: int)
    requires
        0 <= n < q.len(),
    ensures
        q.skip(n).first() == q[n],
{
}

/// Total cycles attached by a sequence of messages.
pub open spec fn total_attached(ms: Seq<Message>) -> int
    decreases ms.len(),
{
    if ms.len() == 0 {
        0
    } else {
        attached_cycles(ms.first()) + total_attached(ms.drop_first())
    }
}

/// Total cycles refunded by a sequence of call outcomes.
pub open spec fn total_refunded(rs: Seq<CallReply>) -> int
    decreases rs.len(),
{
    if rs.len() == 0 {
        0
    } else {
        rs.first().spec_cycles_refunded() + total_refunded(rs.drop_first())
    }
}

/// Conservation of attached resources across routing failures: when each
/// outcome of a run refunds exactly the cycles its message attached — as
/// the dispatcher guarantees of every rejection it synthesizes for an
/// unreachable destination — the refunds issued over the whole run sum to
/// exactly the cycles attached to those calls: no leakage, no duplication.
pub proof fn lemma_refund_conservation(ms: Seq<Message>, rs: Seq<CallReply>)
    requires
        rs.len() == ms.len(),
        forall|i: int|
            0 <= i < ms.len() ==> rs[i].spec_cycles_refunded() == attached_cycles(ms[i]),
    ensures
        total_refunded(rs) == total_attached(ms),
    decreases ms.len(),
{
    if ms.len() > 0 {
        assert(rs[0].spec_cycles_refunded() == attached_cycles(ms[0]));
        assert forall|i: int|
            0 <= i < ms.drop_first().len() implies rs.drop_first()[i].spec_cycles_refunded()
            == attached_cycles(ms.drop_first()[i]) by {
            assert(rs.drop_first()[i] == rs[i + 1]);
            assert(ms.drop_first()[i] == ms[i + 1]);
        }
        lemma_refund_conservation(ms.drop_first(), rs.drop_first());
    }
}

} // verus!
