//! The registry: for each DID at most one endpoint, with a lifetime.
//!
//! A registry is viewed as the map from a DID to its row. Rows are never
//! returned once their lifetime has elapsed, whether or not they have been
//! purged.

use crate::table::Table;
use crate::types::{EntryView, RegistryEntry};
use vstd::prelude::*;

verus! {

/// The rows of a registry, keyed by DID.
pub type RegistryMap = Map<Seq<char>, EntryView>;

/// The registry after `entry` is registered: its DID holds `entry` and
/// nothing else changes.
pub open spec fn spec_register(m: RegistryMap, entry: EntryView) -> RegistryMap {
    m.insert(entry.did, entry)
}

/// The registry after `did` is deregistered.
pub open spec fn spec_deregister(m: RegistryMap, did: Seq<char>) -> RegistryMap {
    m.remove(did)
}

/// The row that a lookup of `did` returns at the time `now`: the row of the
/// DID, provided that it is still live.
pub open spec fn spec_lookup(m: RegistryMap, did: Seq<char>, now: int) -> Option<EntryView> {
    if m.contains_key(did) && m[did].live_at(now) {
        Some(m[did])
    } else {
        None
    }
}

/// The registry without the rows that are no longer live at `now`.
pub open spec fn spec_cleanup(m: RegistryMap, now: int) -> RegistryMap {
    m.restrict(Set::new(|did: Seq<char>| m.contains_key(did) && m[did].live_at(now)))
}

/// Every row is stored under its own DID.
pub open spec fn keyed_by_did(m: RegistryMap) -> bool {
    forall|did: Seq<char>| #[trigger] m.contains_key(did) ==> m[did].did == did
}

/// An in-memory registry of DID to endpoint.
pub struct Registry {
    rows: Table<RegistryEntry>,
}

impl Registry {
    /// The rows as a map from DID to row.
    pub closed spec fn view(&self) -> RegistryMap {
        self.rows@
    }

    /// The registry holds at most one row per DID, each under its own DID.
    pub closed spec fn wf(&self) -> bool {
        &&& self.rows.wf()
        &&& keyed_by_did(self.rows@)
    }

    /// In a well-formed registry every row is stored under its own DID.
    pub proof fn lemma_keyed_by_did(&self)
        requires
            self.wf(),
        ensures
            keyed_by_did(self@),
    {
    }

    /// An empty registry.
    pub fn new() -> (r: Self)
        ensures
            r.wf(),
            r@ == RegistryMap::empty(),
    {
        Registry { rows: Table::new() }
    }

    /// The number of rows, live or not.
    pub fn len(&self) -> (n: usize)
        requires
            self.wf(),
        ensures
            n == self@.dom().len(),
    {
        self.rows.len()
    }

    /// Stores `entry` as the row of its DID, in place of any earlier row.
    pub fn register(&mut self, entry: RegistryEntry)
        requires
            old(self).wf(),
        ensures
            final(self).wf(),
            final(self)@ == spec_register(old(self)@, entry@),
    {
        let did = entry.did.clone();
        self.rows.insert(did, entry);
    }

    /// The row of `did`, whether live or not.
    pub fn get(&self, did: &str) -> (r: Option<RegistryEntry>)
        requires
            self.wf(),
        ensures
            match r {
                Some(e) => self@.contains_key(did@) && e@ == self@[did@],
                None => !self@.contains_key(did@),
            },
    {
        match self.rows.get(did) {
            Some(e) => Some(e.duplicate()),
            None => None,
        }
    }

    /// The row of `did` if it is live at `now`.
    pub fn lookup(&self, did: &str, now: i64) -> (r: Option<RegistryEntry>)
        requires
            self.wf(),
        ensures
            match r {
                Some(e) => spec_lookup(self@, did@, now as int) == Some(e@),
                None => spec_lookup(self@, did@, now as int) is None,
            },
    {
        match self.rows.get(did) {
            Some(e) => {
                if now < e.expires_at {
                    Some(e.duplicate())
                } else {
                    None
                }
            },
            None => None,
        }
    }

    /// Removes the row of `did`. Returns whether there was one.
    pub fn deregister(&mut self, did: &str) -> (existed: bool)
        requires
            old(self).wf(),
        ensures
            final(self).wf(),
            final(self)@ == spec_deregister(old(self)@, did@),
            existed == old(self)@.contains_key(did@),
    {
        self.rows.remove(did).is_some()
    }

    /// Removes every row that is no longer live at `now`. Returns how many
    /// rows were removed. No lookup is changed by this.
    pub fn cleanup_expired(&mut self, now: i64) -> (removed: usize)
        requires
            old(self).wf(),
        ensures
            final(self).wf(),
            final(self)@ == spec_cleanup(old(self)@, now as int),
            removed == old(self)@.dom().len() - final(self)@.dom().len(),
    {
        let before = self.rows.len();
        let keys = self.rows.keys();
        let ghost start = self.rows@;
        let mut i: usize = 0;
        while i < keys.len()
            invariant
                i <= keys@.len(),
                self.rows.wf(),
                start == old(self).rows@,
                forall|j: int| 0 <= j < keys@.len() ==> #[trigger] start.contains_key(keys@[j]@),
                forall|k: Seq<char>| #[trigger]
                    start.contains_key(k) ==> exists|j: int|
                        0 <= j < keys@.len() && keys@[j]@ == k,
                self.rows@ == start.restrict(
                    Set::new(
                        |k: Seq<char>|
                            start.contains_key(k) && (start[k].live_at(now as int) || !exists|j: int|
                                0 <= j < i && keys@[j]@ == k),
                    ),
                ),
            decreases keys@.len() - i,
        {
            let ghost prev = self.rows@;
            let key = keys[i].as_str();
            let expired = match self.rows.get(key) {
                Some(e) => now >= e.expires_at,
                None => false,
            };
            if expired {
                self.rows.remove(key);
            }
            proof {
                let next = start.restrict(
                    Set::new(
                        |k: Seq<char>|
                            start.contains_key(k) && (start[k].live_at(now as int) || !exists|j: int|
                                0 <= j < i + 1 && keys@[j]@ == k),
                    ),
                );
                assert forall|k: Seq<char>| self.rows@.contains_key(k) <==> next.contains_key(
                    k,
                ) by {
                    if k == key@ {
                        assert(keys@[i as int]@ == k);
                    } else {
                        if exists|j: int| 0 <= j < i + 1 && keys@[j]@ == k {
                            let j = choose|j: int| 0 <= j < i + 1 && keys@[j]@ == k;
                            assert(0 <= j < i && keys@[j]@ == k);
                        }
                    }
                }
                assert(self.rows@ =~= next);
            }
            i += 1;
        }
        proof {
            let done = spec_cleanup(start, now as int);
            assert forall|k: Seq<char>| self.rows@.contains_key(k) <==> done.contains_key(k) by {
                if start.contains_key(k) {
                    let j = choose|j: int| 0 <= j < keys@.len() && keys@[j]@ == k;
                    assert(0 <= j < i && keys@[j]@ == k);
                }
            }
            assert(self.rows@ =~= done);
            assert(keyed_by_did(self.rows@));
        }
        let after = self.rows.len();
        proof {
            vstd::set_lib::lemma_len_subset(self.rows@.dom(), start.dom());
        }
        before - after
    }
}

/// One change made to a registry.
pub enum RegistryOp {
    /// A row is registered.
    Register(EntryView),
    /// The row of a DID is removed.
    Deregister(Seq<char>),
    /// The rows that are no longer live at the given time are purged.
    Cleanup(int),
}

/// The registry after one change.
pub open spec fn apply_op(m: RegistryMap, op: RegistryOp) -> RegistryMap {
    match op {
        RegistryOp::Register(entry) => spec_register(m, entry),
        RegistryOp::Deregister(did) => spec_deregister(m, did),
        RegistryOp::Cleanup(at) => spec_cleanup(m, at),
    }
}

/// The registry that results from making the changes `ops`, in order, to an
/// empty registry.
pub open spec fn apply_ops(ops: Seq<RegistryOp>) -> RegistryMap
    decreases ops.len(),
{
    if ops.len() == 0 {
        RegistryMap::empty()
    } else {
        apply_op(apply_ops(ops.drop_last()), ops.last())
    }
}

/// The change registers or deregisters `did`.
pub open spec fn writes_did(op: RegistryOp, did: Seq<char>) -> bool {
    match op {
        RegistryOp::Register(entry) => entry.did == did,
        RegistryOp::Deregister(d) => d == did,
        RegistryOp::Cleanup(_) => false,
    }
}

/// The change at position `i` registers `entry` for `did`, and no later
/// change registers or deregisters that DID.
pub open spec fn standing_registration(
    ops: Seq<RegistryOp>,
    did: Seq<char>,
    i: int,
    entry: EntryView,
) -> bool {
    &&& 0 <= i < ops.len()
    &&& ops[i] == RegistryOp::Register(entry)
    &&& entry.did == did
    &&& forall|j: int| i < j < ops.len() ==> !writes_did(#[trigger] ops[j], did)
}

/// No purge in `ops` was made at a time later than `now`.
pub open spec fn purges_not_after(ops: Seq<RegistryOp>, now: int) -> bool {
    forall|j: int|
        0 <= j < ops.len() ==> (#[trigger] ops[j] matches RegistryOp::Cleanup(at) ==> at <= now)
}

/// Every registry built from changes stores each row under its own DID.
pub proof fn lemma_history_keyed_by_did(ops: Seq<RegistryOp>)
    ensures
        keyed_by_did(apply_ops(ops)),
    decreases ops.len(),
{
    if ops.len() > 0 {
        lemma_history_keyed_by_did(ops.drop_last());
    }
}

/// A lookup returns a row exactly when a registration of that DID stands,
/// that is, no later registration or deregistration of the DID has taken its
/// place, and the row is still live; the row returned is the one registered.
/// Purging expired rows changes no lookup made at or after the purge.
pub proof fn law_lookup_history(ops: Seq<RegistryOp>, did: Seq<char>, now: int)
    requires
        purges_not_after(ops, now),
    ensures
        forall|entry: EntryView|
            spec_lookup(apply_ops(ops), did, now) == Some(entry) <==> (entry.live_at(now)
                && exists|i: int| #[trigger] standing_registration(ops, did, i, entry)),
    decreases ops.len(),
{
    if ops.len() == 0 {
        assert forall|entry: EntryView|
            spec_lookup(apply_ops(ops), did, now) == Some(entry) <==> (entry.live_at(now)
                && exists|i: int| #[trigger] standing_registration(ops, did, i, entry)) by {
            if exists|i: int| #[trigger] standing_registration(ops, did, i, entry) {
                let i = choose|i: int| #[trigger] standing_registration(ops, did, i, entry);
                assert(false);
            }
        }
    } else {
        let init = ops.drop_last();
        let last = ops.last();
        let n = ops.len() - 1;
        assert(purges_not_after(init, now)) by {
            assert forall|j: int| 0 <= j < init.len() implies (#[trigger] init[j] matches RegistryOp::Cleanup(
                at,
            ) ==> at <= now) by {
                assert(init[j] == ops[j]);
            }
        }
        law_lookup_history(init, did, now);
        lemma_history_keyed_by_did(init);
        assert forall|entry: EntryView|
            spec_lookup(apply_ops(ops), did, now) == Some(entry) <==> (entry.live_at(now)
                && exists|i: int| #[trigger] standing_registration(ops, did, i, entry)) by {
            if writes_did(last, did) {
                // Only the last change can stand.
                assert forall|i: int| #[trigger]
                    standing_registration(ops, did, i, entry) implies i == n by {
                    if i < n {
                        assert(!writes_did(ops[n], did));
                    }
                }
                match last {
                    RegistryOp::Register(e) => {
                        if e == entry {
                            assert(standing_registration(ops, did, n, entry));
                        }
                    },
                    _ => {},
                }
            } else {
                // The last change leaves the DID alone.
                assert forall|i: int|
                    standing_registration(ops, did, i, entry) <==> standing_registration(
                        init,
                        did,
                        i,
                        entry,
                    ) by {
                    if standing_registration(ops, did, i, entry) {
                        assert(i < n) by {
                            if i == n {
                                assert(writes_did(ops[n], did));
                            }
                        }
                        assert(init[i] == ops[i]);
                        assert forall|j: int| i < j < init.len() implies !writes_did(
                            #[trigger] init[j],
                            did,
                        ) by {
                            assert(init[j] == ops[j]);
                        }
                    }
                    if standing_registration(init, did, i, entry) {
                        assert(init[i] == ops[i]);
                        assert forall|j: int| i < j < ops.len() implies !writes_did(
                            #[trigger] ops[j],
                            did,
                        ) by {
                            if j < n {
                                assert(init[j] == ops[j]);
                            }
                        }
                    }
                }
                match last {
                    RegistryOp::Cleanup(at) => {
                        assert(ops[n] == last);
                        assert(at <= now);
                    },
                    _ => {},
                }
                assert(spec_lookup(apply_ops(ops), did, now) == spec_lookup(
                    apply_ops(init),
                    did,
                    now,
                ));
                if exists|i: int| #[trigger] standing_registration(ops, did, i, entry) {
                    let i = choose|i: int| #[trigger] standing_registration(ops, did, i, entry);
                    assert(standing_registration(init, did, i, entry));
                }
                if exists|i: int| #[trigger] standing_registration(init, did, i, entry) {
                    let i = choose|i: int| #[trigger] standing_registration(init, did, i, entry);
                    assert(standing_registration(ops, did, i, entry));
                }
            }
        }
    }
}

/// Registering twice for one DID leaves what the second registration alone
/// would leave: the row holds the endpoint and the times of the last write.
pub proof fn law_register_last_write_wins(m: RegistryMap, first: EntryView, second: EntryView)
    requires
        first.did == second.did,
    ensures
        spec_register(spec_register(m, first), second) == spec_register(m, second),
        spec_register(spec_register(m, first), second)[second.did] == second,
{
    assert(spec_register(spec_register(m, first), second) =~= spec_register(m, second));
}

/// Registering the same row again changes nothing.
pub proof fn law_register_idempotent(m: RegistryMap, entry: EntryView)
    ensures
        spec_register(spec_register(m, entry), entry) == spec_register(m, entry),
{
    law_register_last_write_wins(m, entry, entry);
}

/// A change to the row of one DID leaves the lookup of every other DID as it
/// was.
pub proof fn law_write_is_local(m: RegistryMap, op: RegistryOp, did: Seq<char>, now: int)
    requires
        !(op is Cleanup),
        !writes_did(op, did),
    ensures
        spec_lookup(apply_op(m, op), did, now) == spec_lookup(m, did, now),
{
}

/// Purging at a time not later than `now` changes no lookup made at `now`.
pub proof fn law_cleanup_keeps_lookups(m: RegistryMap, at: int, did: Seq<char>, now: int)
    requires
        at <= now,
    ensures
        spec_lookup(spec_cleanup(m, at), did, now) == spec_lookup(m, did, now),
{
}

/// The seconds for which a row is to be kept by a store that expires its
/// rows itself: the time that the row has left at `now`, and at least one
/// second.
pub open spec fn spec_store_ttl(expires_at: int, now: int) -> int {
    if expires_at - now >= 1 {
        expires_at - now
    } else {
        1
    }
}

/// The seconds for which a row that expires at `expires_at` is to be kept
/// from `now` on.
pub fn store_ttl(expires_at: i64, now: i64) -> (ttl: u64)
    ensures
        ttl == spec_store_ttl(expires_at as int, now as int),
{
    let left = (expires_at as i128) - (now as i128);
    if left >= 1 {
        left as u64
    } else {
        1
    }
}

/// The row that a store gives back at `now`, of which it says that `ttl`
/// seconds are left: the row expires `ttl` seconds from `now`. There is no
/// row where that time is beyond the range of time.
pub fn restore_entry(did: &str, endpoint: String, registered_at: i64, ttl: i64, now: i64) -> (r:
    Option<RegistryEntry>)
    ensures
        match r {
            Some(entry) => i64::MIN <= now + ttl <= i64::MAX && entry@ == (EntryView {
                did: did@,
                endpoint: endpoint@,
                registered_at: registered_at as int,
                expires_at: now + ttl,
            }),
            None => !(i64::MIN <= now + ttl <= i64::MAX),
        },
{
    let expires = (now as i128) + (ttl as i128);
    if expires < (i64::MIN as i128) || expires > (i64::MAX as i128) {
        None
    } else {
        Some(
            RegistryEntry {
                did: did.to_owned(),
                endpoint,
                registered_at,
                expires_at: expires as i64,
            },
        )
    }
}

/// A row that is stored for its remaining time and given back at once comes
/// back as it was, where it is still live.
pub proof fn law_store_keeps_expiry(expires_at: int, now: int)
    requires
        now < expires_at,
    ensures
        now + spec_store_ttl(expires_at, now) == expires_at,
{
}

} // verus!
