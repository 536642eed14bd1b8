//! The data carried through the replica: envelopes, messages, outcomes and
//! outgoing-call descriptors.
//!
//! Canister identities are plain `u64` values; the surrounding runtime maps
//! whatever richer principal representation it uses onto them. Outcome
//! channels and ad hoc tasks are likewise opaque `u64` handles owned by the
//! runtime; the routing logic never looks inside either.

use vstd::prelude::*;

verus! {

/// Why a call was rejected. `DestinationInvalid` is the category the
/// dispatcher itself synthesizes for a call routed to an unregistered
/// canister; the remaining categories are produced by canister logic and
/// carried through unmodified.
#[derive(Clone, Copy, PartialEq, Eq, Debug, Structural)]
pub enum RejectionCode {
    NoError,
    SysFatal,
    SysTransient,
    DestinationInvalid,
    CanisterReject,
    CanisterError,
    Unknown,
}

/// Which entry point of a canister a structured request addresses.
#[derive(Clone, Copy, PartialEq, Eq, Debug, Structural)]
pub enum EntryMode {
    Init,
    PreUpgrade,
    PostUpgrade,
    Heartbeat,
    Update,
}

/// The resource envelope carried with every message: who calls, which entry
/// point is addressed, the raw argument payload, and the cycles travelling
/// with the message. An envelope is built once per message and never
/// changes afterwards.
///
/// `cycles_available` is the amount attached by the caller, for the callee
/// to accept while it handles the message; `cycles_refunded` is the amount
/// handed back to the caller, populated only on a reply.
#[derive(Clone, PartialEq, Eq, Debug)]
pub struct Env {
    pub caller: u64,
    pub entry_mode: EntryMode,
    pub method_name: String,
    pub args: Vec<u8>,
    pub cycles_available: u64,
    pub cycles_refunded: u64,
}

impl Env {
    /// An envelope with no caller, no payload and no cycles, addressing the
    /// given entry point: the shape of the canned lifecycle requests.
    fn lifecycle(entry_mode: EntryMode) -> (e: Env)
        ensures
            e.caller == 0,
            e.entry_mode == entry_mode,
            e.method_name@ == Seq::<char>::empty(),
            e.args@ == Seq::<u8>::empty(),
            e.cycles_available == 0,
            e.cycles_refunded == 0,
    {
        proof {
            reveal_strlit("");
        }
        Env {
            caller: 0,
            entry_mode,
            method_name: "".to_owned(),
            args: Vec::new(),
            cycles_available: 0,
            cycles_refunded: 0,
        }
    }

    /// The canned `initialize` lifecycle envelope.
    pub fn init() -> (e: Env)
        ensures
            e.caller == 0,
            e.entry_mode == EntryMode::Init,
            e.method_name@ == Seq::<char>::empty(),
            e.args@ == Seq::<u8>::empty(),
            e.cycles_available == 0,
            e.cycles_refunded == 0,
    {
        Env::lifecycle(EntryMode::Init)
    }

    /// The canned `pre-upgrade` lifecycle envelope.
    pub fn pre_upgrade() -> (e: Env)
        ensures
            e.caller == 0,
            e.entry_mode == EntryMode::PreUpgrade,
            e.method_name@ == Seq::<char>::empty(),
            e.args@ == Seq::<u8>::empty(),
            e.cycles_available == 0,
            e.cycles_refunded == 0,
    {
        Env::lifecycle(EntryMode::PreUpgrade)
    }

    /// The canned `post-upgrade` lifecycle envelope.
    pub fn post_upgrade() -> (e: Env)
        ensures
            e.caller == 0,
            e.entry_mode == EntryMode::PostUpgrade,
            e.method_name@ == Seq::<char>::empty(),
            e.args@ == Seq::<u8>::empty(),
            e.cycles_available == 0,
            e.cycles_refunded == 0,
    {
        Env::lifecycle(EntryMode::PostUpgrade)
    }

    /// The canned `heartbeat` lifecycle envelope.
    pub fn heartbeat() -> (e: Env)
        ensures
            e.caller == 0,
            e.entry_mode == EntryMode::Heartbeat,
            e.method_name@ == Seq::<char>::empty(),
            e.args@ == Seq::<u8>::empty(),
            e.cycles_available == 0,
            e.cycles_refunded == 0,
    {
        Env::lifecycle(EntryMode::Heartbeat)
    }
}

/// The terminal outcome of a call: a successful payload, or a categorized
/// rejection. Both variants carry the cycles handed back to the caller.
#[derive(Clone, PartialEq, Eq, Debug)]
pub enum CallReply {
    Reply { data: Vec<u8>, cycles_refunded: u64 },
    Reject { rejection_code: RejectionCode, rejection_message: String, cycles_refunded: u64 },
}

impl CallReply {
    /// The cycles this outcome hands back to the caller, whichever variant
    /// it is.
    pub open spec fn spec_cycles_refunded(self) -> u64 {
        match self {
            CallReply::Reply { cycles_refunded, .. } => cycles_refunded,
            CallReply::Reject { cycles_refunded, .. } => cycles_refunded,
        }
    }

    /// The cycles this outcome hands back to the caller.
    pub fn cycles_refunded(&self) -> (c: u64)
        ensures
            c == self.spec_cycles_refunded(),
    {
        match self {
            CallReply::Reply { cycles_refunded, .. } => *cycles_refunded,
            CallReply::Reject { cycles_refunded, .. } => *cycles_refunded,
        }
    }

    /// Wrap this outcome as the reply message that a watcher injects back
    /// into the originating canister's mailbox, tagged with the correlation
    /// id of the call it answers.
    pub fn to_message(self, request_id: u64) -> (m: Message)
        ensures
            m == (Message::Reply { reply: self, request_id }),
    {
        Message::Reply { reply: self, request_id }
    }
}

/// One message in a canister's mailbox: an ad hoc task to run in the
/// canister's execution context, a structured inbound request, or the reply
/// to a call this canister issued earlier. `task` is an opaque handle to a
/// run-once unit of work held by the runtime.
#[derive(Clone, PartialEq, Eq, Debug)]
pub enum Message {
    CustomTask { request_id: u64, task: u64, env: Env },
    Request { request_id: u64, env: Env },
    Reply { reply: CallReply, request_id: u64 },
}

/// The cycles a message carries on behalf of its caller: the amount the
/// dispatcher must refund in full when the message cannot be routed. An ad
/// hoc task and a structured request attach them as `cycles_available`; a
/// reply attaches none (it carries a refund of its own, inside its
/// outcome).
pub open spec fn attached_cycles(m: Message) -> u64 {
    match m {
        Message::CustomTask { env, .. } => env.cycles_available,
        Message::Request { env, .. } => env.cycles_available,
        Message::Reply { .. } => 0,
    }
}

/// An outgoing call produced by a canister while it processes a message:
/// not yet routed, and not yet tagged with a correlation id (the dispatcher
/// assigns one at submission).
#[derive(Clone, PartialEq, Eq, Debug)]
pub struct CanisterCall {
    pub callee: u64,
    pub method_name: String,
    pub args: Vec<u8>,
    pub cycles: u64,
}

} // verus!
