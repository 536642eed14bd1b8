//! The execution context of one canister: the ambient values its code
//! reads while it processes a message (its own identity, the caller, the
//! time, the cycle balances), the typed storage and the stable memory it
//! keeps between messages, and the ordered list of outgoing calls it
//! produces.
//!
//! The context is a plain value owned exclusively by the canister's
//! processing task; the accessors here are the whole interface its code
//! uses. Typed storage is modelled as bytes under caller-chosen `u64`
//! keys, and the stable value blob as bytes: whatever encoding the
//! surrounding runtime uses, the context stores and returns its bytes
//! unchanged. The paged stable memory always holds a whole number of
//! 64 KiB pages; the value blob kept by `stable_store` lives apart from
//! it.

use crate::assoc::{
    find_index, keys_distinct, lemma_distinct_push, lemma_distinct_remove, lemma_distinct_update,
    lemma_lookup_push, lemma_lookup_remove, lemma_lookup_update, lookup, Entry,
};
use crate::types::CanisterCall;
use vstd::prelude::*;

verus! {

/// Stable memory could not grow: the new size would pass the 4 GiB limit.
#[derive(Clone, Copy, PartialEq, Eq, Debug, Structural)]
pub struct StableMemoryError;

/// Bytes per page of stable memory.
pub const STABLE_PAGE_BYTES: u64 = 65536;

/// The largest stable memory allowed, in bytes.
pub const STABLE_MEMORY_LIMIT: u64 = 0x1_0000_0000;

/// One canister's execution state between and during messages.
#[derive(Clone, PartialEq, Eq, Debug)]
pub struct CanisterContext {
    /// The canister's own identity.
    pub id: u64,
    /// Who invoked the message being processed.
    pub caller: u64,
    /// The time, in nanoseconds.
    pub time: u64,
    /// The canister's cycle balance.
    pub balance: u64,
    /// Cycles sent along with the message being processed and not yet
    /// accepted.
    pub cycles_available: u64,
    /// Cycles sent back by the canister that was just called.
    pub cycles_refunded: u64,
    /// Typed storage: bytes under caller-chosen keys.
    pub storage: Vec<Entry<Vec<u8>>>,
    /// Paged stable memory: always a whole number of 64 KiB pages.
    pub stable: Vec<u8>,
    /// The value blob kept by `stable_store`, apart from the paged
    /// memory.
    pub stable_value: Vec<u8>,
    /// The certified data last set by this canister.
    pub certified_data: Option<Vec<u8>>,
    /// The certificate authenticating the certified data, if the runtime
    /// issued one for this message.
    pub certificate: Option<Vec<u8>>,
    /// The outgoing calls produced while processing the current message,
    /// in issue order.
    pub outgoing_calls: Vec<CanisterCall>,
}

impl CanisterContext {
    /// Well-formedness: storage keys are unique and the stable memory is
    /// within its limit.
    pub open spec fn wf(self) -> bool {
        &&& keys_distinct(self.storage@)
        &&& self.stable@.len() <= STABLE_MEMORY_LIMIT
        &&& self.stable@.len() as int % (STABLE_PAGE_BYTES as int) == 0
    }

    /// A fresh context for the canister with the given identity: empty
    /// storage, empty stable memory, zero balances.
    pub fn new(id: u64) -> (c: CanisterContext)
        ensures
            c.wf(),
            c.id == id,
            c.caller == 0,
            c.time == 0,
            c.balance == 0,
            c.cycles_available == 0,
            c.cycles_refunded == 0,
            c.storage@ == Seq::<Entry<Vec<u8>>>::empty(),
            c.stable@ == Seq::<u8>::empty(),
            c.stable_value@ == Seq::<u8>::empty(),
            c.certified_data is None,
            c.certificate is None,
            c.outgoing_calls@ == Seq::<CanisterCall>::empty(),
    {
        let c = CanisterContext {
            id,
            caller: 0,
            time: 0,
            balance: 0,
            cycles_available: 0,
            cycles_refunded: 0,
            storage: Vec::new(),
            stable: Vec::new(),
            stable_value: Vec::new(),
            certified_data: None,
            certificate: None,
            outgoing_calls: Vec::new(),
        };
        proof {
            assert(c.storage@ =~= Seq::<Entry<Vec<u8>>>::empty());
            assert(c.stable@ =~= Seq::<u8>::empty());
            assert(c.stable_value@ =~= Seq::<u8>::empty());
            assert(c.outgoing_calls@ =~= Seq::<CanisterCall>::empty());
        }
        c
    }
}

/// The bytes stored under `key` of the context's typed storage, if any.
pub open spec fn storage_lookup(ctx: CanisterContext, key: u64) -> Option<Seq<u8>> {
    match lookup(ctx.storage@, key) {
        Some(v) => Some(v@),
        None => None,
    }
}

/// Everything of the context but its typed storage is unchanged.
pub open spec fn same_but_storage(a: CanisterContext, b: CanisterContext) -> bool {
    &&& a.id == b.id
    &&& a.caller == b.caller
    &&& a.time == b.time
    &&& a.balance == b.balance
    &&& a.cycles_available == b.cycles_available
    &&& a.cycles_refunded == b.cycles_refunded
    &&& a.stable == b.stable
    &&& a.stable_value == b.stable_value
    &&& a.certified_data == b.certified_data
    &&& a.certificate == b.certificate
    &&& a.outgoing_calls == b.outgoing_calls
}

/// A byte-for-byte copy of `v`.
fn copy_bytes(v: &Vec<u8>) -> (r: Vec<u8>)
    ensures
        r@ == v@,
{
    let n = v.len();
    let mut r: Vec<u8> = Vec::new();
    let mut i: usize = 0;
    while i < n
        invariant
            i <= n,
            n == v.len(),
            r@ == v@.subrange(0, i as int),
        decreases n - i,
    {
        r.push(v[i]);
        proof {
            assert(r@ =~= v@.subrange(0, i as int + 1));
        }
        i = i + 1;
    }
    proof {
        assert(v@.subrange(0, n as int) =~= v@);
    }
    r
}

/// The identity of the executing canister.
pub fn id(ctx: &CanisterContext) -> (r: u64)
    ensures
        r == ctx.id,
{
    ctx.id
}

/// The time, in nanoseconds.
pub fn time(ctx: &CanisterContext) -> (r: u64)
    ensures
        r == ctx.time,
{
    ctx.time
}

/// The cycle balance of the canister.
pub fn balance(ctx: &CanisterContext) -> (r: u64)
    ensures
        r == ctx.balance,
{
    ctx.balance
}

/// The caller who invoked this method on the canister.
pub fn caller(ctx: &CanisterContext) -> (r: u64)
    ensures
        r == ctx.caller,
{
    ctx.caller
}

/// The cycles sent by the caller and not yet accepted.
pub fn msg_cycles_available(ctx: &CanisterContext) -> (r: u64)
    ensures
        r == ctx.cycles_available,
{
    ctx.cycles_available
}

/// The cycles sent back by the canister that was just called.
pub fn msg_cycles_refunded(ctx: &CanisterContext) -> (r: u64)
    ensures
        r == ctx.cycles_refunded,
{
    ctx.cycles_refunded
}

/// Accept up to `amount` of the cycles sent with the current message:
/// what is actually available caps the acceptance, and what is accepted
/// moves into the canister's balance. Returns the amount accepted.
pub fn msg_cycles_accept(ctx: &mut CanisterContext, amount: u64) -> (accepted: u64)
    requires
        old(ctx).balance + old(ctx).cycles_available <= u64::MAX,
    ensures
        accepted == if amount <= old(ctx).cycles_available {
            amount
        } else {
            old(ctx).cycles_available
        },
        final(ctx).cycles_available == old(ctx).cycles_available - accepted,
        final(ctx).balance == old(ctx).balance + accepted,
        final(ctx).id == old(ctx).id,
        final(ctx).caller == old(ctx).caller,
        final(ctx).time == old(ctx).time,
        final(ctx).cycles_refunded == old(ctx).cycles_refunded,
        final(ctx).storage == old(ctx).storage,
        final(ctx).stable == old(ctx).stable,
        final(ctx).stable_value == old(ctx).stable_value,
        final(ctx).certified_data == old(ctx).certified_data,
        final(ctx).certificate == old(ctx).certificate,
        final(ctx).outgoing_calls == old(ctx).outgoing_calls,
{
    let accepted = if amount <= ctx.cycles_available {
        amount
    } else {
        ctx.cycles_available
    };
    ctx.cycles_available = ctx.cycles_available - accepted;
    ctx.balance = ctx.balance + accepted;
    accepted
}

/// Store `data` under `key` of the typed storage, replacing what was
/// there.
pub fn store(ctx: &mut CanisterContext, key: u64, data: Vec<u8>)
    requires
        old(ctx).wf(),
    ensures
        final(ctx).wf(),
        storage_lookup(*final(ctx), key) == Some(data@),
        forall|k: u64| k != key ==> storage_lookup(*final(ctx), k) == storage_lookup(*old(ctx), k),
        same_but_storage(*final(ctx), *old(ctx)),
{
    match find_index(&ctx.storage, key) {
        Some(i) => {
            let ghost old_seq = ctx.storage@;
            ctx.storage[i] = Entry { key, val: data };
            proof {
                let e = ctx.storage@[i as int];
                assert(ctx.storage@ =~= old_seq.update(i as int, e));
                lemma_distinct_update(old_seq, i as int, e);
                lemma_lookup_update(old_seq, i as int, e, key);
                assert forall|k: u64|
                    k != key implies storage_lookup(*ctx, k) == storage_lookup(*old(ctx), k) by {
                    lemma_lookup_update(old_seq, i as int, e, k);
                }
            }
        },
        None => {
            let ghost old_seq = ctx.storage@;
            ctx.storage.push(Entry { key, val: data });
            proof {
                let e = ctx.storage@.last();
                assert(ctx.storage@ =~= old_seq.push(e));
                lemma_distinct_push(old_seq, e);
                lemma_lookup_push(old_seq, e, key);
                assert forall|k: u64|
                    k != key implies storage_lookup(*ctx, k) == storage_lookup(*old(ctx), k) by {
                    lemma_lookup_push(old_seq, e, k);
                }
            }
        },
    }
}

/// The bytes stored under `key`, if any.
pub fn get_maybe(ctx: &CanisterContext, key: u64) -> (r: Option<Vec<u8>>)
    ensures
        match r {
            Some(v) => storage_lookup(*ctx, key) == Some(v@),
            None => storage_lookup(*ctx, key) is None,
        },
{
    match find_index(&ctx.storage, key) {
        Some(i) => Some(copy_bytes(&ctx.storage[i].val)),
        None => None,
    }
}

/// The bytes stored under `key`; when nothing is present yet, the empty
/// default is stored under the key and returned.
pub fn get(ctx: &mut CanisterContext, key: u64) -> (r: Vec<u8>)
    requires
        old(ctx).wf(),
    ensures
        final(ctx).wf(),
        same_but_storage(*final(ctx), *old(ctx)),
        match storage_lookup(*old(ctx), key) {
            Some(v) => {
                &&& r@ == v
                &&& final(ctx).storage == old(ctx).storage
            },
            None => {
                &&& r@ == Seq::<u8>::empty()
                &&& storage_lookup(*final(ctx), key) == Some(Seq::<u8>::empty())
                &&& forall|k: u64|
                    k != key ==> storage_lookup(*final(ctx), k) == storage_lookup(*old(ctx), k)
            },
        },
{
    match find_index(&ctx.storage, key) {
        Some(i) => copy_bytes(&ctx.storage[i].val),
        None => {
            let empty: Vec<u8> = Vec::new();
            proof {
                assert(empty@ =~= Seq::<u8>::empty());
            }
            store(ctx, key, empty);
            let r: Vec<u8> = Vec::new();
            proof {
                assert(r@ =~= Seq::<u8>::empty());
            }
            r
        },
    }
}

/// A mutable borrow of the bytes stored under `key`; when nothing is
/// present yet, the empty default is installed first. Changes made
/// through the borrow are kept in the storage.
pub fn get_mut<'a>(ctx: &'a mut CanisterContext, key: u64) -> (r: &'a mut Vec<u8>)
    requires
        old(ctx).wf(),
    ensures
        r@ == match storage_lookup(*old(ctx), key) {
            Some(v) => v,
            None => Seq::<u8>::empty(),
        },
        final(ctx).wf(),
        storage_lookup(*final(ctx), key) == Some(final(r)@),
        forall|k: u64| k != key ==> storage_lookup(*final(ctx), k) == storage_lookup(*old(ctx), k),
        same_but_storage(*final(ctx), *old(ctx)),
{
    let idx: usize;
    match find_index(&ctx.storage, key) {
        Some(i) => {
            idx = i;
        },
        None => {
            let ghost pre_seq = ctx.storage@;
            let empty: Vec<u8> = Vec::new();
            proof {
                assert(empty@ =~= Seq::<u8>::empty());
            }
            ctx.storage.push(Entry { key, val: empty });
            idx = ctx.storage.len() - 1;
            proof {
                let e = ctx.storage@.last();
                assert(ctx.storage@ =~= pre_seq.push(e));
                lemma_distinct_push(pre_seq, e);
                lemma_lookup_push(pre_seq, e, key);
                assert forall|k: u64|
                    k != key implies lookup(ctx.storage@, k) == lookup(pre_seq, k) by {
                    lemma_lookup_push(pre_seq, e, k);
                }
                crate::assoc::lemma_lookup_none(pre_seq, key);
            }
        },
    }
    let ghost mid_seq = ctx.storage@;
    proof {
        assert(mid_seq[idx as int].key == key);
        assert forall|v: Vec<u8>, k: u64|
            k != key implies lookup(mid_seq.update(idx as int, Entry { key, val: v }), k)
            == lookup(mid_seq, k) by {
            lemma_lookup_update(mid_seq, idx as int, Entry { key, val: v }, k);
        }
        assert forall|v: Vec<u8>|
            lookup(mid_seq.update(idx as int, Entry { key, val: v }), key) == Some(v) by {
            lemma_lookup_update(mid_seq, idx as int, Entry { key, val: v }, key);
        }
        assert forall|v: Vec<u8>|
            keys_distinct(mid_seq.update(idx as int, Entry { key, val: v })) by {
            lemma_distinct_update(mid_seq, idx as int, Entry { key, val: v });
        }
    }
    let entry = &mut ctx.storage[idx];
    &mut entry.val
}

/// Remove what is stored under `key`. True exactly when something was
/// there.
pub fn delete(ctx: &mut CanisterContext, key: u64) -> (r: bool)
    requires
        old(ctx).wf(),
    ensures
        final(ctx).wf(),
        same_but_storage(*final(ctx), *old(ctx)),
        r == (storage_lookup(*old(ctx), key) is Some),
        storage_lookup(*final(ctx), key) is None,
        forall|k: u64| k != key ==> storage_lookup(*final(ctx), k) == storage_lookup(*old(ctx), k),
{
    match find_index(&ctx.storage, key) {
        Some(i) => {
            let ghost old_seq = ctx.storage@;
            ctx.storage.remove(i);
            proof {
                lemma_distinct_remove(old_seq, i as int);
                lemma_lookup_remove(old_seq, i as int, key);
                assert forall|k: u64|
                    k != key implies storage_lookup(*ctx, k) == storage_lookup(*old(ctx), k) by {
                    lemma_lookup_remove(old_seq, i as int, k);
                }
            }
            true
        },
        None => false,
    }
}

/// Replace the stored stable value with the given bytes. The paged
/// stable memory is untouched: the value blob lives apart from it.
pub fn stable_store(ctx: &mut CanisterContext, data: Vec<u8>)
    requires
        old(ctx).wf(),
    ensures
        final(ctx).wf(),
        final(ctx).stable_value@ == data@,
        final(ctx).id == old(ctx).id,
        final(ctx).caller == old(ctx).caller,
        final(ctx).time == old(ctx).time,
        final(ctx).balance == old(ctx).balance,
        final(ctx).cycles_available == old(ctx).cycles_available,
        final(ctx).cycles_refunded == old(ctx).cycles_refunded,
        final(ctx).storage == old(ctx).storage,
        final(ctx).stable == old(ctx).stable,
        final(ctx).certified_data == old(ctx).certified_data,
        final(ctx).certificate == old(ctx).certificate,
        final(ctx).outgoing_calls == old(ctx).outgoing_calls,
{
    ctx.stable_value = data;
}

/// The bytes of the stored stable value, as last stored.
pub fn stable_restore(ctx: &CanisterContext) -> (r: Vec<u8>)
    ensures
        r@ == ctx.stable_value@,
{
    copy_bytes(&ctx.stable_value)
}

/// The current size of the stable memory, in 64 KiB pages. The memory is
/// always whole pages, so the page count times the page size is exactly
/// the number of addressable bytes.
pub fn stable_size(ctx: &CanisterContext) -> (pages: u32)
    requires
        ctx.wf(),
    ensures
        pages == ctx.stable@.len() as int / (STABLE_PAGE_BYTES as int),
        pages as int * (STABLE_PAGE_BYTES as int) == ctx.stable@.len(),
{
    proof {
        vstd::arithmetic::div_mod::lemma_fundamental_div_mod(
            ctx.stable@.len() as int,
            STABLE_PAGE_BYTES as int,
        );
    }
    (ctx.stable.len() as u64 / STABLE_PAGE_BYTES) as u32
}

/// Grow the stable memory by `new_pages` pages of zeroes. Returns the
/// previous size in pages, or an error — and an unchanged memory — when
/// the new size would pass the 4 GiB limit.
pub fn stable_grow(ctx: &mut CanisterContext, new_pages: u32) -> (r: Result<
    u32,
    StableMemoryError,
>)
    requires
        old(ctx).wf(),
    ensures
        final(ctx).wf(),
        final(ctx).id == old(ctx).id,
        final(ctx).caller == old(ctx).caller,
        final(ctx).time == old(ctx).time,
        final(ctx).balance == old(ctx).balance,
        final(ctx).cycles_available == old(ctx).cycles_available,
        final(ctx).cycles_refunded == old(ctx).cycles_refunded,
        final(ctx).storage == old(ctx).storage,
        final(ctx).stable_value == old(ctx).stable_value,
        final(ctx).certified_data == old(ctx).certified_data,
        final(ctx).certificate == old(ctx).certificate,
        final(ctx).outgoing_calls == old(ctx).outgoing_calls,
        if old(ctx).stable@.len() + new_pages as int * STABLE_PAGE_BYTES as int
            <= STABLE_MEMORY_LIMIT {
            &&& r == Ok::<u32, StableMemoryError>(
                (old(ctx).stable@.len() as int / (STABLE_PAGE_BYTES as int)) as u32,
            )
            &&& final(ctx).stable@ == old(ctx).stable@ + Seq::<u8>::new(
                (new_pages as int * STABLE_PAGE_BYTES as int) as nat,
                |i: int| 0u8,
            )
        } else {
            &&& r == Err::<u32, StableMemoryError>(StableMemoryError)
            &&& final(ctx).stable == old(ctx).stable
        },
    {
    let grown = (new_pages as u64) * STABLE_PAGE_BYTES;
    if grown > STABLE_MEMORY_LIMIT || ctx.stable.len() as u64 > STABLE_MEMORY_LIMIT - grown {
        return Err(StableMemoryError);
    }
    let prev = (ctx.stable.len() as u64 / STABLE_PAGE_BYTES) as u32;
    let mut added: u64 = 0;
    while added < grown
        invariant
            added <= grown,
            ctx.stable@ == old(ctx).stable@ + Seq::<u8>::new(added as nat, |i: int| 0u8),
            ctx.stable@.len() == old(ctx).stable@.len() + added,
            old(ctx).stable@.len() + grown <= STABLE_MEMORY_LIMIT,
            ctx.id == old(ctx).id,
            ctx.caller == old(ctx).caller,
            ctx.time == old(ctx).time,
            ctx.balance == old(ctx).balance,
            ctx.cycles_available == old(ctx).cycles_available,
            ctx.cycles_refunded == old(ctx).cycles_refunded,
            ctx.storage == old(ctx).storage,
            ctx.stable_value == old(ctx).stable_value,
            ctx.certified_data == old(ctx).certified_data,
            ctx.certificate == old(ctx).certificate,
            ctx.outgoing_calls == old(ctx).outgoing_calls,
            keys_distinct(ctx.storage@),
        decreases grown - added,
    {
        ctx.stable.push(0u8);
        proof {
            assert(ctx.stable@ =~= old(ctx).stable@ + Seq::<u8>::new(
                added as nat + 1,
                |i: int| 0u8,
            ));
        }
        added = added + 1;
    }
    proof {
        vstd::arithmetic::div_mod::lemma_mod_multiples_vanish(
            new_pages as int,
            old(ctx).stable@.len() as int,
            STABLE_PAGE_BYTES as int,
        );
    }
    Ok(prev)
}

/// Write `buf` into the stable memory at `offset`. The range written must
/// lie within the current memory.
pub fn stable_write(ctx: &mut CanisterContext, offset: u32, buf: &Vec<u8>)
    requires
        old(ctx).wf(),
        offset + buf@.len() <= old(ctx).stable@.len(),
    ensures
        final(ctx).wf(),
        final(ctx).stable@.len() == old(ctx).stable@.len(),
        forall|i: int|
            offset <= i < offset + buf@.len() ==> final(ctx).stable@[i] == buf@[i - offset],
        forall|i: int|
            0 <= i < old(ctx).stable@.len() && !(offset <= i < offset + buf@.len())
                ==> final(ctx).stable@[i] == old(ctx).stable@[i],
        final(ctx).stable_value == old(ctx).stable_value,
        final(ctx).id == old(ctx).id,
        final(ctx).caller == old(ctx).caller,
        final(ctx).time == old(ctx).time,
        final(ctx).balance == old(ctx).balance,
        final(ctx).cycles_available == old(ctx).cycles_available,
        final(ctx).cycles_refunded == old(ctx).cycles_refunded,
        final(ctx).storage == old(ctx).storage,
        final(ctx).certified_data == old(ctx).certified_data,
        final(ctx).certificate == old(ctx).certificate,
        final(ctx).outgoing_calls == old(ctx).outgoing_calls,
{
    let stable_len = ctx.stable.len();
    let n = buf.len();
    let mut i: usize = 0;
    while i < n
        invariant
            i <= n,
            n == buf.len(),
            offset + n <= stable_len,
            stable_len == ctx.stable@.len(),
            ctx.stable@.len() == old(ctx).stable@.len(),
            forall|j: int| offset <= j < offset + i ==> ctx.stable@[j] == buf@[j - offset],
            forall|j: int|
                0 <= j < old(ctx).stable@.len() && !(offset <= j < offset + i) ==> ctx.stable@[j]
                    == old(ctx).stable@[j],
            ctx.id == old(ctx).id,
            ctx.caller == old(ctx).caller,
            ctx.time == old(ctx).time,
            ctx.balance == old(ctx).balance,
            ctx.cycles_available == old(ctx).cycles_available,
            ctx.cycles_refunded == old(ctx).cycles_refunded,
            ctx.storage == old(ctx).storage,
            ctx.stable_value == old(ctx).stable_value,
            ctx.certified_data == old(ctx).certified_data,
            ctx.certificate == old(ctx).certificate,
            ctx.outgoing_calls == old(ctx).outgoing_calls,
            keys_distinct(ctx.storage@),
            ctx.stable@.len() <= STABLE_MEMORY_LIMIT,
        decreases n - i,
    {
        let at = offset as usize + i;
        ctx.stable[at] = buf[i];
        i = i + 1;
    }
}

/// Read from the stable memory at `offset` into `buf`, filling it
/// entirely. The range read must lie within the current memory.
pub fn stable_read(ctx: &CanisterContext, offset: u32, buf: &mut Vec<u8>)
    requires
        offset + old(buf)@.len() <= ctx.stable@.len(),
    ensures
        final(buf)@.len() == old(buf)@.len(),
        forall|i: int|
            0 <= i < final(buf)@.len() ==> final(buf)@[i] == ctx.stable@[offset + i],
{
    let stable_len = ctx.stable.len();
    let n = buf.len();
    let mut i: usize = 0;
    while i < n
        invariant
            i <= n,
            n == buf.len(),
            offset + n <= stable_len,
            stable_len == ctx.stable@.len(),
            forall|j: int| 0 <= j < i ==> buf@[j] == ctx.stable@[offset + j],
        decreases n - i,
    {
        let at = offset as usize + i;
        buf[i] = ctx.stable[at];
        i = i + 1;
    }
}

/// A copy of the whole stable memory.
pub fn stable_bytes(ctx: &CanisterContext) -> (r: Vec<u8>)
    ensures
        r@ == ctx.stable@,
{
    copy_bytes(&ctx.stable)
}

/// Set the certified data of the canister; at most 32 bytes.
pub fn set_certified_data(ctx: &mut CanisterContext, data: &Vec<u8>)
    requires
        old(ctx).wf(),
        data@.len() <= 32,
    ensures
        final(ctx).wf(),
        final(ctx).certified_data matches Some(d) && d@ == data@,
        final(ctx).id == old(ctx).id,
        final(ctx).caller == old(ctx).caller,
        final(ctx).time == old(ctx).time,
        final(ctx).balance == old(ctx).balance,
        final(ctx).cycles_available == old(ctx).cycles_available,
        final(ctx).cycles_refunded == old(ctx).cycles_refunded,
        final(ctx).storage == old(ctx).storage,
        final(ctx).stable == old(ctx).stable,
        final(ctx).stable_value == old(ctx).stable_value,
        final(ctx).certificate == old(ctx).certificate,
        final(ctx).outgoing_calls == old(ctx).outgoing_calls,
{
    ctx.certified_data = Some(copy_bytes(data));
}

/// The certificate authenticating the certified data set by this
/// canister, if the runtime issued one.
pub fn data_certificate(ctx: &CanisterContext) -> (r: Option<Vec<u8>>)
    ensures
        match r {
            Some(v) => ctx.certificate matches Some(c) && v@ == c@,
            None => ctx.certificate is None,
        },
{
    match &ctx.certificate {
        Some(c) => Some(copy_bytes(c)),
        None => None,
    }
}

/// Issue a call to another canister with the given raw argument bytes and
/// attached cycles: the call descriptor joins the ordered list of calls
/// this message produces, to be routed when the message returns.
pub fn call_raw(ctx: &mut CanisterContext, id: u64, method: String, args_raw: Vec<u8>, cycles: u64)
    ensures
        final(ctx).outgoing_calls@ == old(ctx).outgoing_calls@.push(
            CanisterCall { callee: id, method_name: method, args: args_raw, cycles },
        ),
        final(ctx).id == old(ctx).id,
        final(ctx).caller == old(ctx).caller,
        final(ctx).time == old(ctx).time,
        final(ctx).balance == old(ctx).balance,
        final(ctx).cycles_available == old(ctx).cycles_available,
        final(ctx).cycles_refunded == old(ctx).cycles_refunded,
        final(ctx).storage == old(ctx).storage,
        final(ctx).stable == old(ctx).stable,
        final(ctx).stable_value == old(ctx).stable_value,
        final(ctx).certified_data == old(ctx).certified_data,
        final(ctx).certificate == old(ctx).certificate,
{
    ctx.outgoing_calls.push(CanisterCall { callee: id, method_name: method, args: args_raw, cycles });
}

/// Issue a call with no attached cycles.
pub fn call(ctx: &mut CanisterContext, id: u64, method: String, args: Vec<u8>)
    ensures
        final(ctx).outgoing_calls@ == old(ctx).outgoing_calls@.push(
            CanisterCall { callee: id, method_name: method, args, cycles: 0 },
        ),
        final(ctx).id == old(ctx).id,
        final(ctx).caller == old(ctx).caller,
        final(ctx).time == old(ctx).time,
        final(ctx).balance == old(ctx).balance,
        final(ctx).cycles_available == old(ctx).cycles_available,
        final(ctx).cycles_refunded == old(ctx).cycles_refunded,
        final(ctx).storage == old(ctx).storage,
        final(ctx).stable == old(ctx).stable,
        final(ctx).stable_value == old(ctx).stable_value,
        final(ctx).certified_data == old(ctx).certified_data,
        final(ctx).certificate == old(ctx).certificate,
{
    call_with_payment(ctx, id, method, args, 0)
}

/// Issue a call with the given cycles attached.
pub fn call_with_payment(
    ctx: &mut CanisterContext,
    id: u64,
    method: String,
    args: Vec<u8>,
    cycles: u64,
)
    ensures
        final(ctx).outgoing_calls@ == old(ctx).outgoing_calls@.push(
            CanisterCall { callee: id, method_name: method, args, cycles },
        ),
        final(ctx).id == old(ctx).id,
        final(ctx).caller == old(ctx).caller,
        final(ctx).time == old(ctx).time,
        final(ctx).balance == old(ctx).balance,
        final(ctx).cycles_available == old(ctx).cycles_available,
        final(ctx).cycles_refunded == old(ctx).cycles_refunded,
        final(ctx).storage == old(ctx).storage,
        final(ctx).stable == old(ctx).stable,
        final(ctx).stable_value == old(ctx).stable_value,
        final(ctx).certified_data == old(ctx).certified_data,
        final(ctx).certificate == old(ctx).certificate,
{
    call_raw(ctx, id, method, args, cycles)
}

/// Hand over the ordered list of outgoing calls the current message
/// produced, leaving the context with none: what the actor loop collects
/// when the processing entry point returns.
pub fn take_outgoing_calls(ctx: &mut CanisterContext) -> (calls: Vec<CanisterCall>)
    ensures
        calls == old(ctx).outgoing_calls,
        final(ctx).outgoing_calls@ == Seq::<CanisterCall>::empty(),
        final(ctx).id == old(ctx).id,
        final(ctx).caller == old(ctx).caller,
        final(ctx).time == old(ctx).time,
        final(ctx).balance == old(ctx).balance,
        final(ctx).cycles_available == old(ctx).cycles_available,
        final(ctx).cycles_refunded == old(ctx).cycles_refunded,
        final(ctx).storage == old(ctx).storage,
        final(ctx).stable == old(ctx).stable,
        final(ctx).stable_value == old(ctx).stable_value,
        final(ctx).certified_data == old(ctx).certified_data,
        final(ctx).certificate == old(ctx).certificate,
{
    let mut calls: Vec<CanisterCall> = Vec::new();
    core::mem::swap(&mut calls, &mut ctx.outgoing_calls);
    proof {
        assert(ctx.outgoing_calls@ =~= Seq::<CanisterCall>::empty());
    }
    calls
}

} // verus!
