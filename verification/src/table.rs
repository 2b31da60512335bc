//! The encounter table: a bounded mapping from peer address to the last-known
//! record of that peer, with TTL-based blocking and eviction of the
//! least-recently-seen entry under memory pressure.

use vstd::prelude::*;

use crate::mac::mac_eq;
use crate::packet::PeerPayload;
use crate::packet::PeerPayloadV;

verus! {

/// How long an encounter blocks re-handshaking, in seconds (one day).
pub const INTERACTION_TTL: u64 = 86400;

/// How many peers the engine tracks at most.
pub const MAX_PEERS: usize = 20;

/// One recorded encounter with a peer.
pub struct PeerRecord {
    pub address: [u8; 6],
    pub payload: PeerPayload,
    pub first_seen: u64,
    pub last_seen: u64,
    pub interaction_count: u32,
}

/// Mathematical image of a `PeerRecord`.
pub ghost struct PeerRecordV {
    pub address: Seq<u8>,
    pub payload: PeerPayloadV,
    pub first_seen: u64,
    pub last_seen: u64,
    pub interaction_count: u32,
}

impl PeerRecord {
    /// A value-identical copy of the record.
    pub fn duplicate(&self) -> (copy: PeerRecord)
        ensures
            copy@ == self@,
    {
        PeerRecord {
            address: self.address,
            payload: self.payload.duplicate(),
            first_seen: self.first_seen,
            last_seen: self.last_seen,
            interaction_count: self.interaction_count,
        }
    }
}

impl View for PeerRecord {
    type V = PeerRecordV;

    open spec fn view(&self) -> PeerRecordV {
        PeerRecordV {
            address: self.address@,
            payload: self.payload@,
            first_seen: self.first_seen,
            last_seen: self.last_seen,
            interaction_count: self.interaction_count,
        }
    }
}

/// True when a record last refreshed at `last_seen` still blocks at `now`.
///
/// The subtraction is mathematical: a record from the future (clock went
/// backwards) still blocks.
pub open spec fn blocked_at(last_seen: u64, ttl: u64, now: u64) -> bool {
    now - last_seen < ttl
}

/// True when some record in `s` carries address `a`.
pub open spec fn has_addr(s: Seq<PeerRecordV>, a: Seq<u8>) -> bool {
    exists|i: int| 0 <= i < s.len() && (#[trigger] s[i]).address == a
}

/// The position of the record for `a` (meaningful only when unique).
pub open spec fn idx_of(s: Seq<PeerRecordV>, a: Seq<u8>) -> int {
    choose|i: int| 0 <= i < s.len() && (#[trigger] s[i]).address == a
}

/// The record for address `a`.
pub open spec fn rec_of(s: Seq<PeerRecordV>, a: Seq<u8>) -> PeerRecordV {
    s[idx_of(s, a)]
}

/// At most one record per address.
pub open spec fn addrs_unique(s: Seq<PeerRecordV>) -> bool {
    forall|i: int, j: int| 0 <= i < j < s.len() ==> (#[trigger] s[i]).address != (
    #[trigger] s[j]).address
}

/// The per-record invariant.
pub open spec fn rec_wf(r: PeerRecordV) -> bool {
    r.first_seen <= r.last_seen && r.interaction_count >= 1
}

/// The whole-table invariant over a model sequence.
pub open spec fn table_wf(s: Seq<PeerRecordV>, cap: int) -> bool {
    &&& addrs_unique(s)
    &&& s.len() <= cap
    &&& forall|i: int| 0 <= i < s.len() ==> rec_wf(#[trigger] s[i])
}

/// Eviction preference: `r` goes before `s` when it was seen less recently,
/// ties broken by the lower interaction count.
pub open spec fn evict_le(r: PeerRecordV, s: PeerRecordV) -> bool {
    ||| r.last_seen < s.last_seen
    ||| (r.last_seen == s.last_seen && r.interaction_count <= s.interaction_count)
}

/// `r` is an eviction-minimal element of `s`.
pub open spec fn least_recent(s: Seq<PeerRecordV>, r: PeerRecordV) -> bool {
    forall|i: int| 0 <= i < s.len() ==> evict_le(r, #[trigger] s[i])
}

/// The record for `a` after a repeat interaction at `now` with payload `p`.
pub open spec fn updated_record(r: PeerRecordV, p: PeerPayloadV, now: u64) -> PeerRecordV {
    PeerRecordV {
        address: r.address,
        payload: p,
        first_seen: if r.first_seen <= now {
            r.first_seen
        } else {
            now
        },
        last_seen: now,
        interaction_count: if r.interaction_count < 0xffff_ffffu32 {
            (r.interaction_count + 1) as u32
        } else {
            r.interaction_count
        },
    }
}

/// The record created on a first interaction with `a` at `now`.
pub open spec fn fresh_record(a: Seq<u8>, p: PeerPayloadV, now: u64) -> PeerRecordV {
    PeerRecordV { address: a, payload: p, first_seen: now, last_seen: now, interaction_count: 1 }
}

/// Every address other than `a` keeps exactly the record it had.
pub open spec fn others_unchanged(pre: Seq<PeerRecordV>, post: Seq<PeerRecordV>, a: Seq<u8>) -> bool {
    forall|b: Seq<u8>|
        #![trigger has_addr(pre, b)]
        #![trigger has_addr(post, b)]
        b != a ==> {
            &&& (has_addr(post, b) <==> has_addr(pre, b))
            &&& (has_addr(pre, b) ==> rec_of(post, b) == rec_of(pre, b))
        }
}

/// `victim` is the record that made room for `a`: it was eviction-minimal in
/// the old table, it is gone from the new one, and every address other than
/// `a` and `victim` keeps exactly the record it had.
pub open spec fn evict_witness(
    pre: Seq<PeerRecordV>,
    post: Seq<PeerRecordV>,
    a: Seq<u8>,
    victim: Seq<u8>,
) -> bool {
    &&& has_addr(pre, victim)
    &&& least_recent(pre, rec_of(pre, victim))
    &&& victim != a
    &&& post.len() == pre.len()
    &&& !has_addr(post, victim)
    &&& forall|b: Seq<u8>|
        #![trigger has_addr(pre, b)]
        #![trigger has_addr(post, b)]
        b != a && b != victim ==> {
            &&& (has_addr(post, b) <==> has_addr(pre, b))
            &&& (has_addr(pre, b) ==> rec_of(post, b) == rec_of(pre, b))
        }
}

/// What one call of `record_interaction(a, p, now)` does to the table model:
/// an existing record is refreshed in place; otherwise a fresh record is
/// inserted, evicting an eviction-minimal record first when the table is
/// full.
pub open spec fn record_effect(
    pre: Seq<PeerRecordV>,
    post: Seq<PeerRecordV>,
    cap: int,
    a: Seq<u8>,
    p: PeerPayloadV,
    now: u64,
) -> bool {
    &&& has_addr(post, a)
    &&& rec_of(post, a) == (if has_addr(pre, a) {
        updated_record(rec_of(pre, a), p, now)
    } else {
        fresh_record(a, p, now)
    })
    &&& if has_addr(pre, a) {
        &&& post.len() == pre.len()
        &&& others_unchanged(pre, post, a)
    } else if pre.len() < cap {
        &&& post.len() == pre.len() + 1
        &&& others_unchanged(pre, post, a)
    } else {
        exists|victim: Seq<u8>| #[trigger] evict_witness(pre, post, a, victim)
    }
}

/// What one call of `sweep(now)` does to the table model: exactly the records
/// still inside their TTL survive, unchanged.
pub open spec fn sweep_effect(
    pre: Seq<PeerRecordV>,
    post: Seq<PeerRecordV>,
    ttl: u64,
    now: u64,
) -> bool {
    &&& forall|b: Seq<u8>|
        #[trigger] has_addr(post, b) ==> {
            &&& has_addr(pre, b)
            &&& rec_of(post, b) == rec_of(pre, b)
            &&& blocked_at(rec_of(pre, b).last_seen, ttl, now)
        }
    &&& forall|b: Seq<u8>|
        #[trigger] has_addr(pre, b) && blocked_at(rec_of(pre, b).last_seen, ttl, now)
            ==> has_addr(post, b)
}

/// A record at a known position is the record `rec_of` denotes.
pub proof fn lemma_rec_at(s: Seq<PeerRecordV>, i: int)
    requires
        addrs_unique(s),
        0 <= i < s.len(),
    ensures
        has_addr(s, s[i].address),
        idx_of(s, s[i].address) == i,
        rec_of(s, s[i].address) == s[i],
{
    let a = s[i].address;
    assert(has_addr(s, a));
    let j = idx_of(s, a);
    assert(0 <= j < s.len() && s[j].address == a);
    if i < j {
        assert(s[i].address != s[j].address);
    } else if j < i {
        assert(s[j].address != s[i].address);
    }
}

/// Replacing the record at `i` by one with the same address touches no other
/// address.
proof fn lemma_frame_update(pre: Seq<PeerRecordV>, post: Seq<PeerRecordV>, i: int)
    requires
        addrs_unique(pre),
        0 <= i < pre.len(),
        post.len() == pre.len(),
        post[i].address == pre[i].address,
        forall|j: int| 0 <= j < pre.len() && j != i ==> post[j] == pre[j],
    ensures
        addrs_unique(post),
        has_addr(post, pre[i].address),
        rec_of(post, pre[i].address) == post[i],
        others_unchanged(pre, post, pre[i].address),
{
    let a = pre[i].address;
    assert forall|i1: int, j1: int| 0 <= i1 < j1 < post.len() implies post[i1].address != post[j1].address by {
        assert(pre[i1].address != pre[j1].address);
        assert(post[i1].address == pre[i1].address);
        assert(post[j1].address == pre[j1].address);
    }
    lemma_rec_at(post, i);
    assert forall|b: Seq<u8>|
        #![trigger has_addr(pre, b)]
        #![trigger has_addr(post, b)]
        b != a implies {
        &&& (has_addr(post, b) <==> has_addr(pre, b))
        &&& (has_addr(pre, b) ==> rec_of(post, b) == rec_of(pre, b))
    } by {
        if has_addr(pre, b) {
            let j = choose|j: int| 0 <= j < pre.len() && (#[trigger] pre[j]).address == b;
            assert(j != i);
            assert(post[j] == pre[j]);
            lemma_rec_at(pre, j);
            lemma_rec_at(post, j);
        }
        if has_addr(post, b) {
            let j = choose|j: int| 0 <= j < post.len() && (#[trigger] post[j]).address == b;
            assert(j != i);
            assert(post[j] == pre[j]);
            assert(has_addr(pre, b));
        }
    }
}

/// Appending a record with a new address touches no other address.
proof fn lemma_frame_push(pre: Seq<PeerRecordV>, r: PeerRecordV)
    requires
        addrs_unique(pre),
        !has_addr(pre, r.address),
    ensures
        addrs_unique(pre.push(r)),
        has_addr(pre.push(r), r.address),
        rec_of(pre.push(r), r.address) == r,
        others_unchanged(pre, pre.push(r), r.address),
{
    let post = pre.push(r);
    assert forall|i1: int, j1: int| 0 <= i1 < j1 < post.len() implies post[i1].address != post[j1].address by {
        if j1 < pre.len() {
            assert(pre[i1].address != pre[j1].address);
        } else {
            assert(post[j1] == r);
            assert(post[i1] == pre[i1]);
            assert(pre[i1].address != r.address) by {
                if pre[i1].address == r.address {
                    assert(has_addr(pre, r.address));
                }
            }
        }
    }
    assert(post[pre.len() as int] == r);
    lemma_rec_at(post, pre.len() as int);
    assert forall|b: Seq<u8>|
        #![trigger has_addr(pre, b)]
        #![trigger has_addr(post, b)]
        b != r.address implies {
        &&& (has_addr(post, b) <==> has_addr(pre, b))
        &&& (has_addr(pre, b) ==> rec_of(post, b) == rec_of(pre, b))
    } by {
        if has_addr(pre, b) {
            let j = choose|j: int| 0 <= j < pre.len() && (#[trigger] pre[j]).address == b;
            assert(post[j] == pre[j]);
            lemma_rec_at(pre, j);
            lemma_rec_at(post, j);
        }
        if has_addr(post, b) {
            let j = choose|j: int| 0 <= j < post.len() && (#[trigger] post[j]).address == b;
            assert(j < pre.len());
            assert(pre[j] == post[j]);
            assert(has_addr(pre, b));
        }
    }
}

/// Removing the record at `i` touches no other address.
proof fn lemma_frame_remove(pre: Seq<PeerRecordV>, i: int)
    requires
        addrs_unique(pre),
        0 <= i < pre.len(),
    ensures
        addrs_unique(pre.remove(i)),
        !has_addr(pre.remove(i), pre[i].address),
        forall|b: Seq<u8>|
            #![trigger has_addr(pre, b)]
            #![trigger has_addr(pre.remove(i), b)]
            b != pre[i].address ==> {
                &&& (has_addr(pre.remove(i), b) <==> has_addr(pre, b))
                &&& (has_addr(pre, b) ==> rec_of(pre.remove(i), b) == rec_of(pre, b))
            },
{
    let mid = pre.remove(i);
    pre.remove_ensures(i);
    assert forall|i1: int, j1: int| 0 <= i1 < j1 < mid.len() implies mid[i1].address != mid[j1].address by {
        let p1: int = if i1 < i {
            i1
        } else {
            i1 + 1
        };
        let q1: int = if j1 < i {
            j1
        } else {
            j1 + 1
        };
        assert(mid[i1] == pre[p1]);
        assert(mid[j1] == pre[q1]);
        assert(pre[p1].address != pre[q1].address);
    }
    assert forall|j: int| 0 <= j < mid.len() implies mid[j].address != pre[i].address by {
        let p: int = if j < i {
            j
        } else {
            j + 1
        };
        assert(mid[j] == pre[p]);
        assert(pre[p].address != pre[i].address);
    }
    assert forall|b: Seq<u8>|
        #![trigger has_addr(pre, b)]
        #![trigger has_addr(mid, b)]
        b != pre[i].address implies {
        &&& (has_addr(mid, b) <==> has_addr(pre, b))
        &&& (has_addr(pre, b) ==> rec_of(mid, b) == rec_of(pre, b))
    } by {
        if has_addr(pre, b) {
            let j = choose|j: int| 0 <= j < pre.len() && (#[trigger] pre[j]).address == b;
            assert(j != i);
            let j2: int = if j < i {
                j
            } else {
                j - 1
            };
            assert(mid[j2] == pre[j]);
            assert(has_addr(mid, b));
            lemma_rec_at(pre, j);
            lemma_rec_at(mid, j2);
        }
        if has_addr(mid, b) {
            let j = choose|j: int| 0 <= j < mid.len() && (#[trigger] mid[j]).address == b;
            let p: int = if j < i {
                j
            } else {
                j + 1
            };
            assert(mid[j] == pre[p]);
            assert(has_addr(pre, b));
        }
    }
}

/// The bounded, TTL-expiring record of recent encounters.
pub struct EncounterTable {
    pub records: Vec<PeerRecord>,
    pub capacity: usize,
    pub ttl: u64,
}

impl EncounterTable {
    /// The table's contents as a sequence of mathematical records.
    pub open spec fn model(self) -> Seq<PeerRecordV> {
        self.records@.map_values(|r: PeerRecord| r@)
    }

    /// The table's invariant.
    pub open spec fn wf(self) -> bool {
        &&& table_wf(self.model(), self.capacity as int)
        &&& self.capacity >= 1
        &&& self.ttl >= 1
    }

    /// True when `a` is recorded and its record still blocks at `now`.
    pub open spec fn spec_blocked(self, a: Seq<u8>, now: u64) -> bool {
        model_blocked(self.model(), self.ttl, a, now)
    }

    /// An empty table with the given bounds.
    pub fn new(capacity: usize, ttl: u64) -> (table: EncounterTable)
        requires
            capacity >= 1,
            ttl >= 1,
        ensures
            table.wf(),
            table.model() == Seq::<PeerRecordV>::empty(),
            table.capacity == capacity,
            table.ttl == ttl,
    {
        let table = EncounterTable { records: Vec::new(), capacity, ttl };
        proof {
            assert(table.model() =~= Seq::<PeerRecordV>::empty());
        }
        table
    }

    /// How many peers are currently recorded.
    pub fn len(&self) -> (n: usize)
        ensures
            n == self.model().len(),
    {
        self.records.len()
    }

    /// The position of the record for `a`, if any.
    fn find_index(&self, a: &[u8; 6]) -> (found: Option<usize>)
        ensures
            match found {
                Some(i) => i < self.model().len() && self.model()[i as int].address == a@,
                None => !has_addr(self.model(), a@),
            },
    {
        let mut i: usize = 0;
        while i < self.records.len()
            invariant
                0 <= i <= self.records.len(),
                forall|j: int| 0 <= j < i ==> (#[trigger] self.model()[j]).address != a@,
            decreases self.records.len() - i,
        {
            if mac_eq(&self.records[i].address, a) {
                return Some(i);
            }
            i += 1;
        }
        None
    }

    /// The record for `a`, if any; no side effects.
    pub fn lookup(&self, a: &[u8; 6]) -> (found: Option<&PeerRecord>)
        requires
            self.wf(),
        ensures
            match found {
                Some(r) => has_addr(self.model(), a@) && r@ == rec_of(self.model(), a@),
                None => !has_addr(self.model(), a@),
            },
    {
        match self.find_index(a) {
            Some(i) => {
                proof {
                    lemma_rec_at(self.model(), i as int);
                }
                Some(&self.records[i])
            },
            None => None,
        }
    }

    /// Records a completed interaction with `a` at `now`.
    ///
    /// A known peer's record is refreshed in place: `last_seen` becomes
    /// `now`, the interaction count grows by one (saturating), and the stored
    /// payload is replaced.  An unknown peer gains a fresh record; when the
    /// table is already full, the least-recently-seen record (ties broken by
    /// the lowest interaction count) is evicted first, so the table never
    /// exceeds its capacity.
    pub fn record_interaction(&mut self, a: &[u8; 6], payload: PeerPayload, now: u64)
        requires
            old(self).wf(),
        ensures
            final(self).wf(),
            final(self).capacity == old(self).capacity,
            final(self).ttl == old(self).ttl,
            record_effect(
                old(self).model(),
                final(self).model(),
                old(self).capacity as int,
                a@,
                payload@,
                now,
            ),
    {
        let ghost pre = self.model();
        match self.find_index(a) {
            Some(i) => {
                let ghost iv = i as int;
                let count = if self.records[i].interaction_count < u32::MAX {
                    self.records[i].interaction_count + 1
                } else {
                    self.records[i].interaction_count
                };
                let first = if self.records[i].first_seen <= now {
                    self.records[i].first_seen
                } else {
                    now
                };
                let new_rec = PeerRecord {
                    address: *a,
                    payload,
                    first_seen: first,
                    last_seen: now,
                    interaction_count: count,
                };
                let ghost new_rec_v = new_rec@;
                self.records[i] = new_rec;
                proof {
                    let post = self.model();
                    assert(post =~= pre.update(iv, new_rec_v));
                    lemma_rec_at(pre, iv);
                    assert(new_rec_v.address == a@);
                    assert(pre[iv].address == a@);
                    assert(new_rec_v == updated_record(pre[iv], payload@, now));
                    lemma_frame_update(pre, post, iv);
                    assert(record_effect(pre, post, self.capacity as int, a@, payload@, now));
                    assert forall|j: int| 0 <= j < post.len() implies rec_wf(
                        #[trigger] post[j],
                    ) by {
                        if j != iv {
                            assert(post[j] == pre[j]);
                        }
                    }
                }
            },
            None => {
                let new_rec = PeerRecord {
                    address: *a,
                    payload,
                    first_seen: now,
                    last_seen: now,
                    interaction_count: 1,
                };
                let ghost new_rec_v = new_rec@;
                if self.records.len() < self.capacity {
                    self.records.push(new_rec);
                    proof {
                        let post = self.model();
                        assert(post =~= pre.push(new_rec_v));
                        lemma_frame_push(pre, new_rec_v);
                        assert(new_rec_v == fresh_record(a@, payload@, now));
                        assert forall|j: int| 0 <= j < post.len() implies rec_wf(
                            #[trigger] post[j],
                        ) by {
                            if j < pre.len() {
                                assert(post[j] == pre[j]);
                            }
                        }
                    }
                } else {
                    // The table is full: find the eviction-minimal record.
                    let mut best: usize = 0;
                    let mut k: usize = 1;
                    while k < self.records.len()
                        invariant
                            self.records.len() >= 1,
                            0 <= best < k <= self.records.len(),
                            self.model() == pre,
                            forall|j: int|
                                0 <= j < k ==> evict_le(pre[best as int], #[trigger] pre[j]),
                        decreases self.records.len() - k,
                    {
                        let contender_last = self.records[k].last_seen;
                        let contender_count = self.records[k].interaction_count;
                        let best_last = self.records[best].last_seen;
                        let best_count = self.records[best].interaction_count;
                        if contender_last < best_last || (contender_last == best_last
                            && contender_count < best_count) {
                            best = k;
                        }
                        k += 1;
                    }
                    let ghost bi = best as int;
                    let ghost victim_addr = pre[bi].address;
                    proof {
                        lemma_rec_at(pre, bi);
                        lemma_frame_remove(pre, bi);
                    }
                    self.records.remove(best);
                    let ghost mid = self.model();
                    proof {
                        assert(mid =~= pre.remove(bi));
                        assert(!has_addr(mid, a@));
                        lemma_frame_push(mid, new_rec_v);
                    }
                    self.records.push(new_rec);
                    proof {
                        let post = self.model();
                        assert(post =~= mid.push(new_rec_v));
                        assert(new_rec_v == fresh_record(a@, payload@, now));
                        assert(!has_addr(post, victim_addr)) by {
                            assert(victim_addr != a@);
                            assert(!has_addr(mid, victim_addr));
                        }
                        assert(least_recent(pre, rec_of(pre, victim_addr)));
                        assert forall|b: Seq<u8>|
                            #![trigger has_addr(pre, b)]
                            #![trigger has_addr(post, b)]
                            b != a@ && b != victim_addr implies {
                            &&& (has_addr(post, b) <==> has_addr(pre, b))
                            &&& (has_addr(pre, b) ==> rec_of(post, b) == rec_of(pre, b))
                        } by {
                            assert((has_addr(mid, b) <==> has_addr(pre, b)) && (has_addr(pre, b)
                                ==> rec_of(mid, b) == rec_of(pre, b)));
                            assert((has_addr(post, b) <==> has_addr(mid, b)) && (has_addr(mid, b)
                                ==> rec_of(post, b) == rec_of(mid, b)));
                        }
                        assert(victim_addr != a@) by {
                            assert(has_addr(pre, victim_addr));
                        }
                        assert(evict_witness(pre, post, a@, victim_addr));
                        assert(record_effect(pre, post, self.capacity as int, a@, payload@, now));
                        pre.remove_ensures(bi);
                        assert forall|j: int| 0 <= j < post.len() implies rec_wf(
                            #[trigger] post[j],
                        ) by {
                            if j < mid.len() {
                                let p: int = if j < bi {
                                    j
                                } else {
                                    j + 1
                                };
                                assert(post[j] == pre[p]);
                            }
                        }
                    }
                }
            },
        }
    }

    /// Removes every record whose TTL has lapsed at `now`.
    ///
    /// Meant to run periodically from the broadcast loop, keeping the hot
    /// receive path free of full-table scans.
    pub fn sweep(&mut self, now: u64)
        requires
            old(self).wf(),
        ensures
            final(self).wf(),
            final(self).capacity == old(self).capacity,
            final(self).ttl == old(self).ttl,
            sweep_effect(old(self).model(), final(self).model(), old(self).ttl, now),
    {
        let ghost pre = self.model();
        let mut kept: Vec<PeerRecord> = Vec::new();
        let mut i: usize = 0;
        while i < self.records.len()
            invariant
                0 <= i <= self.records.len(),
                self == old(self),
                table_wf(pre, self.capacity as int),
                self.ttl >= 1,
                pre == self.model(),
                kept@.len() <= i,
                addrs_unique(kept@.map_values(|r: PeerRecord| r@)),
                forall|j: int|
                    0 <= j < kept@.len() ==> exists|k: int|
                        0 <= k < i && pre[k] == (#[trigger] kept@[j])@ && blocked_at(
                            pre[k].last_seen,
                            self.ttl,
                            now,
                        ),
                forall|k: int|
                    0 <= k < i && blocked_at((#[trigger] pre[k]).last_seen, self.ttl, now) ==> {
                        &&& has_addr(kept@.map_values(|r: PeerRecord| r@), pre[k].address)
                        &&& rec_of(kept@.map_values(|r: PeerRecord| r@), pre[k].address)
                            == pre[k]
                    },
            decreases self.records.len() - i,
        {
            let ghost km = kept@.map_values(|r: PeerRecord| r@);
            let ghost kv = kept@;
            let last_seen = self.records[i].last_seen;
            let keep = if now <= last_seen {
                true
            } else {
                now - last_seen < self.ttl
            };
            if keep {
                proof {
                    assert forall|j: int| 0 <= j < km.len() implies km[j] == kv[j]@ by {}
                    assert(!has_addr(km, pre[i as int].address)) by {
                        if has_addr(km, pre[i as int].address) {
                            let j = choose|j: int|
                                0 <= j < km.len() && (#[trigger] km[j]).address == pre[
                                    i as int
                                ].address;
                            let k = choose|k: int|
                                0 <= k < i && pre[k] == (#[trigger] kv[j])@ && blocked_at(
                                    pre[k].last_seen,
                                    self.ttl,
                                    now,
                                );
                            assert(pre[k].address == pre[i as int].address);
                        }
                    }
                    lemma_frame_push(km, pre[i as int]);
                }
                kept.push(self.records[i].duplicate());
                proof {
                    let km2 = kept@.map_values(|r: PeerRecord| r@);
                    assert(km2 =~= km.push(pre[i as int]));
                    assert forall|k: int|
                        0 <= k < i + 1 && blocked_at(
                            (#[trigger] pre[k]).last_seen,
                            self.ttl,
                            now,
                        ) implies {
                        &&& has_addr(km2, pre[k].address)
                        &&& rec_of(km2, pre[k].address) == pre[k]
                    } by {
                        if k < i {
                            assert(has_addr(km, pre[k].address));
                            assert(pre[k].address != pre[i as int].address);
                        } else {
                            assert(rec_of(km2, pre[i as int].address) == pre[i as int]);
                        }
                    }
                    assert forall|j: int| 0 <= j < kept@.len() implies exists|k: int|
                        0 <= k < i + 1 && pre[k] == (#[trigger] kept@[j])@ && blocked_at(
                            pre[k].last_seen,
                            self.ttl,
                            now,
                        ) by {
                        if j < kv.len() {
                            assert(kept@[j] == kv[j]);
                            let k = choose|k: int|
                                0 <= k < i && pre[k] == (#[trigger] kv[j])@ && blocked_at(
                                    pre[k].last_seen,
                                    self.ttl,
                                    now,
                                );
                            assert(0 <= k < i + 1 && pre[k] == kept@[j]@ && blocked_at(
                                pre[k].last_seen,
                                self.ttl,
                                now,
                            ));
                        } else {
                            assert(kept@[j]@ == pre[i as int]);
                            assert(0 <= i < i + 1 && pre[i as int] == kept@[j]@ && blocked_at(
                                pre[i as int].last_seen,
                                self.ttl,
                                now,
                            ));
                        }
                    }
                }
            } else {
                proof {
                    assert forall|j: int| 0 <= j < kept@.len() implies exists|k: int|
                        0 <= k < i + 1 && pre[k] == (#[trigger] kept@[j])@ && blocked_at(
                            pre[k].last_seen,
                            self.ttl,
                            now,
                        ) by {
                        let k = choose|k: int|
                            0 <= k < i && pre[k] == (#[trigger] kept@[j])@ && blocked_at(
                                pre[k].last_seen,
                                self.ttl,
                                now,
                            );
                        assert(0 <= k < i + 1 && pre[k] == kept@[j]@ && blocked_at(
                            pre[k].last_seen,
                            self.ttl,
                            now,
                        ));
                    }
                }
            }
            i += 1;
        }
        let ghost kv = kept@;
        self.records = kept;
        proof {
            let post = self.model();
            assert forall|j: int| 0 <= j < post.len() implies post[j] == kv[j]@ by {}
            assert forall|b: Seq<u8>| #[trigger] has_addr(post, b) implies {
                &&& has_addr(pre, b)
                &&& rec_of(post, b) == rec_of(pre, b)
                &&& blocked_at(rec_of(pre, b).last_seen, self.ttl, now)
            } by {
                let j = choose|j: int| 0 <= j < post.len() && (#[trigger] post[j]).address == b;
                let k = choose|k: int|
                    0 <= k < pre.len() && pre[k] == (#[trigger] kv[j])@ && blocked_at(
                        pre[k].last_seen,
                        self.ttl,
                        now,
                    );
                assert(pre[k] == post[j]);
                lemma_rec_at(post, j);
                lemma_rec_at(pre, k);
            }
            assert forall|b: Seq<u8>|
                #[trigger] has_addr(pre, b) && blocked_at(
                    rec_of(pre, b).last_seen,
                    self.ttl,
                    now,
                ) implies has_addr(post, b) by {
                let k = choose|k: int| 0 <= k < pre.len() && (#[trigger] pre[k]).address == b;
                lemma_rec_at(pre, k);
                assert(blocked_at(pre[k].last_seen, self.ttl, now));
                assert(has_addr(post, pre[k].address));
            }
            assert forall|j: int| 0 <= j < post.len() implies rec_wf(#[trigger] post[j]) by {
                let k = choose|k: int|
                    0 <= k < pre.len() && pre[k] == (#[trigger] kv[j])@ && blocked_at(
                        pre[k].last_seen,
                        self.ttl,
                        now,
                    );
                assert(rec_wf(pre[k]));
            }
        }
    }

    /// True iff a record for `a` exists and is still within its TTL at `now`.
    /// A lapsed record no longer blocks, though it may linger until the next
    /// sweep.
    pub fn is_blocked(&self, a: &[u8; 6], now: u64) -> (blocked: bool)
        requires
            self.wf(),
        ensures
            blocked == self.spec_blocked(a@, now),
    {
        match self.lookup(a) {
            Some(r) => {
                if now <= r.last_seen {
                    true
                } else {
                    now - r.last_seen < self.ttl
                }
            },
            None => false,
        }
    }
}

/// True when `a` is recorded in `s` and its record still blocks at `now`.
pub open spec fn model_blocked(s: Seq<PeerRecordV>, ttl: u64, a: Seq<u8>, now: u64) -> bool {
    has_addr(s, a) && blocked_at(rec_of(s, a).last_seen, ttl, now)
}

/// After an interaction with `a` at `now`, the address is blocked at every
/// instant of the TTL window `[now, now + ttl)` and, absent a later
/// interaction, no longer blocked from `now + ttl` on.
pub proof fn lemma_interaction_blocks(
    pre: Seq<PeerRecordV>,
    post: Seq<PeerRecordV>,
    cap: int,
    a: Seq<u8>,
    p: PeerPayloadV,
    now: u64,
    ttl: u64,
)
    requires
        record_effect(pre, post, cap, a, p, now),
    ensures
        forall|t: u64| now <= t < now + ttl ==> model_blocked(post, ttl, a, t),
        forall|t: u64| t >= now + ttl ==> !model_blocked(post, ttl, a, t),
{
    assert(rec_of(post, a).last_seen == now);
}

/// Receiving two beacons in succession from a previously unseen address
/// leaves exactly one record for it — the table grows by one entry, not two
/// — and that record counts both interactions.
pub proof fn lemma_repeat_beacon_single_record(
    s0: Seq<PeerRecordV>,
    s1: Seq<PeerRecordV>,
    s2: Seq<PeerRecordV>,
    cap: int,
    a: Seq<u8>,
    p1: PeerPayloadV,
    p2: PeerPayloadV,
    t1: u64,
    t2: u64,
)
    requires
        !has_addr(s0, a),
        record_effect(s0, s1, cap, a, p1, t1),
        record_effect(s1, s2, cap, a, p2, t2),
    ensures
        has_addr(s2, a),
        rec_of(s2, a).interaction_count == 2,
        rec_of(s2, a).last_seen == t2,
        rec_of(s2, a).first_seen == (if t1 <= t2 {
            t1
        } else {
            t2
        }),
        rec_of(s2, a).payload == p2,
        s0.len() < cap ==> s2.len() == s0.len() + 1 && others_unchanged(s0, s2, a),
{
    assert(rec_of(s1, a) == fresh_record(a, p1, t1));
    assert(rec_of(s2, a) == updated_record(fresh_record(a, p1, t1), p2, t2));
    if s0.len() < cap {
        assert forall|b: Seq<u8>|
            #![trigger has_addr(s0, b)]
            #![trigger has_addr(s2, b)]
            b != a implies {
            &&& (has_addr(s2, b) <==> has_addr(s0, b))
            &&& (has_addr(s0, b) ==> rec_of(s2, b) == rec_of(s0, b))
        } by {
            assert((has_addr(s1, b) <==> has_addr(s0, b)) && (has_addr(s0, b) ==> rec_of(s1, b)
                == rec_of(s0, b)));
            assert((has_addr(s2, b) <==> has_addr(s1, b)) && (has_addr(s1, b) ==> rec_of(s2, b)
                == rec_of(s1, b)));
        }
    }
}

/// A table within its capacity stays within it across any interaction, and
/// recording a fresh address in a full table evicts exactly one
/// eviction-minimal record.
pub proof fn lemma_capacity_respected(
    pre: Seq<PeerRecordV>,
    post: Seq<PeerRecordV>,
    cap: int,
    a: Seq<u8>,
    p: PeerPayloadV,
    now: u64,
)
    requires
        table_wf(pre, cap),
        record_effect(pre, post, cap, a, p, now),
    ensures
        post.len() <= cap,
        !has_addr(pre, a) && pre.len() == cap ==> {
            &&& post.len() == cap
            &&& exists|victim: Seq<u8>| #[trigger] evict_witness(pre, post, a, victim)
        },
{
}

} // verus!
