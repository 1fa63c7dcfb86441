//! The lease store: assignment and release of addresses.
//!
//! `assign` returns the existing lease if one is held, else the static
//! assignment if the hardware address is in the static table, else the
//! first free pool address at or past the cursor; the cursor moves past
//! every address it inspects and never decreases. `release` drops the
//! lease for a hardware address, and with it the reverse entry for its
//! address. Exhaustion of the pool is a normal result, not a fault.

use vstd::prelude::*;
use crate::config::Config;
use crate::lease::{
    Lease, has_mac, ip_for, has_ip, macs_unique, ips_unique, idx_of,
    lemma_record_resolves, lemma_push_effect, lemma_push_unique, lemma_remove_effect,
    lookup, scan_has_ip, copy_bytes,
};

verus! {

/// In-memory lease store: the lease records, the pool cursor, and the
/// configuration it allocates under.
pub struct LeaseDb {
    /// The configuration this store allocates under.
    pub cfg: Config,
    /// The lease records; forward and reverse map are both read off them.
    pub entries: Vec<Lease>,
    /// The next untried pool address; never decreases.
    pub cursor: u32,
}

/// The first pool address in `i ..= end` not held by any record, if any.
pub open spec fn first_free(s: Seq<Lease>, i: int, end: int) -> Option<u32>
    decreases end + 1 - i,
{
    if i > end {
        None
    } else if !has_ip(s, i as u32) {
        Some(i as u32)
    } else {
        first_free(s, i + 1, end)
    }
}

/// What `assign` returns, as a function of the store and the hardware
/// address: the held address, else the static assignment, else the first
/// free pool address from the cursor on (`None` when the pool is spent).
pub open spec fn spec_assign(db: LeaseDb, m: Seq<u8>) -> Option<u32> {
    if db.leased(m) {
        Some(db.addr_of(m))
    } else if has_mac(db.cfg.statics@, m) {
        Some(ip_for(db.cfg.statics@, m))
    } else {
        first_free(db.entries@, db.cursor as int, db.cfg.pool_end as int)
    }
}

/// The store is untouched.
pub open spec fn same_state(s0: LeaseDb, s1: LeaseDb) -> bool {
    s1 == s0
}

/// Exactly one binding, `m` to `a`, was added to both maps; every earlier
/// binding is unchanged.
pub open spec fn fresh_lease_added(s0: LeaseDb, s1: LeaseDb, m: Seq<u8>, a: u32) -> bool {
    &&& s1.cfg == s0.cfg
    &&& forall|x: Seq<u8>|
        #![trigger has_mac(s1.entries@, x)]
        #![trigger has_mac(s0.entries@, x)]
        has_mac(s1.entries@, x) <==> (has_mac(s0.entries@, x) || x == m)
    &&& s1.addr_of(m) == a
    &&& forall|x: Seq<u8>|
        #![trigger ip_for(s1.entries@, x)]
        #![trigger has_mac(s0.entries@, x)]
        has_mac(s0.entries@, x) ==> ip_for(s1.entries@, x) == ip_for(s0.entries@, x)
    &&& forall|b: u32|
        #![trigger has_ip(s1.entries@, b)]
        #![trigger has_ip(s0.entries@, b)]
        has_ip(s1.entries@, b) <==> (has_ip(s0.entries@, b) || b == a)
}

/// Exactly the binding of `m` left both maps; every other binding is
/// unchanged, and the cursor did not move.
pub open spec fn lease_removed(s0: LeaseDb, s1: LeaseDb, m: Seq<u8>) -> bool {
    &&& s1.cfg == s0.cfg
    &&& s1.cursor == s0.cursor
    &&& forall|x: Seq<u8>|
        #![trigger has_mac(s1.entries@, x)]
        #![trigger has_mac(s0.entries@, x)]
        has_mac(s1.entries@, x) <==> (has_mac(s0.entries@, x) && x != m)
    &&& forall|x: Seq<u8>|
        #![trigger ip_for(s1.entries@, x)]
        #![trigger has_mac(s0.entries@, x)]
        x != m && has_mac(s0.entries@, x) ==> ip_for(s1.entries@, x) == ip_for(s0.entries@, x)
    &&& forall|b: u32|
        #![trigger has_ip(s1.entries@, b)]
        #![trigger has_ip(s0.entries@, b)]
        has_ip(s1.entries@, b) <==> (has_ip(s0.entries@, b) && !(s0.leased(m) && s0.addr_of(m)
            == b))
}

/// Full effect of `assign`, case by case over the store it started from.
pub open spec fn assign_transition(s0: LeaseDb, s1: LeaseDb, m: Seq<u8>, r: Option<u32>) -> bool {
    &&& r == spec_assign(s0, m)
    &&& if s0.leased(m) {
        same_state(s0, s1)
    } else if has_mac(s0.cfg.statics@, m) {
        s1.cursor == s0.cursor && fresh_lease_added(s0, s1, m, ip_for(s0.cfg.statics@, m))
    } else {
        match r {
            Some(a) => {
                &&& fresh_lease_added(s0, s1, m, a)
                &&& s0.cfg.in_pool(a)
                &&& s0.cursor <= a
                &&& !s0.in_use(a)
                &&& forall|b: u32| s0.cursor <= b < a ==> #[trigger] has_ip(s0.entries@, b)
                &&& s1.cursor == a + 1
            },
            None => {
                &&& forall|b: u32|
                    s0.cursor <= b <= s0.cfg.pool_end ==> #[trigger] has_ip(s0.entries@, b)
                &&& s1.cfg == s0.cfg
                &&& s1.entries@ == s0.entries@
                &&& s1.cursor == s0.cfg.pool_end + 1
            },
        }
    }
}

/// Full effect of `release`: the binding of `m` is gone if it was there,
/// and nothing else happened.
pub open spec fn release_transition(s0: LeaseDb, s1: LeaseDb, m: Seq<u8>) -> bool {
    if s0.leased(m) {
        lease_removed(s0, s1, m)
    } else {
        same_state(s0, s1)
    }
}

impl LeaseDb {
    /// Forward map: does `m` hold a lease?
    pub open spec fn leased(self, m: Seq<u8>) -> bool {
        has_mac(self.entries@, m)
    }

    /// Forward map: the address `m` holds (meaningful under `leased`).
    pub open spec fn addr_of(self, m: Seq<u8>) -> u32 {
        ip_for(self.entries@, m)
    }

    /// Reverse map: is the address `a` held by any client?
    pub open spec fn in_use(self, a: u32) -> bool {
        has_ip(self.entries@, a)
    }

    /// A record is well-placed under `cfg`: a statically configured client
    /// holds exactly its configured address; any other client holds a pool
    /// address.
    pub open spec fn entry_ok(cfg: Config, l: Lease) -> bool {
        if has_mac(cfg.statics@, l.mac@) {
            l.ip == ip_for(cfg.statics@, l.mac@)
        } else {
            cfg.in_pool(l.ip)
        }
    }

    /// Store invariant: valid configuration, both maps one-to-one, the
    /// cursor inside `pool_start ..= pool_end + 1`, and every record
    /// well-placed.
    pub open spec fn wf(self) -> bool {
        &&& self.cfg.valid()
        &&& macs_unique(self.entries@)
        &&& ips_unique(self.entries@)
        &&& self.cfg.pool_start <= self.cursor <= self.cfg.pool_end + 1
        &&& forall|i: int|
            0 <= i < self.entries@.len() ==> Self::entry_ok(self.cfg, #[trigger] self.entries@[i])
    }

    /// An empty store over `cfg`, with the cursor at the bottom of the pool.
    pub fn new(cfg: Config) -> (db: LeaseDb)
        requires
            cfg.valid(),
        ensures
            db.wf(),
            db.cfg == cfg,
            db.entries@.len() == 0,
            db.cursor == cfg.pool_start,
    {
        let start = cfg.pool_start;
        LeaseDb { cfg, entries: Vec::new(), cursor: start }
    }

    /// Append the fresh binding `m` to `a`; callers must have ruled out
    /// both maps already holding either key.
    fn add_entry(&mut self, mac: &Vec<u8>, a: u32)
        requires
            old(self).wf(),
            !old(self).leased(mac@),
            !old(self).in_use(a),
            has_mac(old(self).cfg.statics@, mac@) ==> a == ip_for(old(self).cfg.statics@, mac@),
            !has_mac(old(self).cfg.statics@, mac@) ==> old(self).cfg.in_pool(a),
        ensures
            final(self).wf(),
            final(self).cfg == old(self).cfg,
            final(self).cursor == old(self).cursor,
            fresh_lease_added(*old(self), *final(self), mac@, a),
    {
        let l = Lease { mac: copy_bytes(mac), ip: a };
        let ghost gl = l;
        let ghost pre = self.entries@;
        self.entries.push(l);
        proof {
            assert(gl.mac@ == mac@);
            lemma_push_effect(pre, gl);
            lemma_push_unique(pre, gl);
            assert(self.entries@ == pre.push(gl));
            assert forall|i: int|
                0 <= i < self.entries@.len() implies Self::entry_ok(
                self.cfg,
                self.entries@[i],
            ) by {
                if i < pre.len() {
                    assert(self.entries@[i] == pre[i]);
                } else {
                    assert(self.entries@[i] == gl);
                }
            }
        }
    }

    /// Assign an address to `mac`: the lease it already holds, else its
    /// static assignment, else the first free pool address from the cursor
    /// on. `None` means the pool is exhausted — a normal outcome. The
    /// cursor never decreases, and moves past every address inspected.
    pub fn assign(&mut self, mac: &Vec<u8>) -> (r: Option<u32>)
        requires
            old(self).wf(),
        ensures
            final(self).wf(),
            final(self).cfg == old(self).cfg,
            old(self).cursor <= final(self).cursor,
            assign_transition(*old(self), *final(self), mac@, r),
    {
        // Existing lease takes precedence over everything.
        match lookup(&self.entries, mac) {
            Some(i) => {
                let a = self.entries[i].ip;
                proof {
                    lemma_record_resolves(self.entries@, i as int);
                }
                return Some(a);
            },
            None => {},
        }
        // Static table comes before the dynamic pool.
        match lookup(&self.cfg.statics, mac) {
            Some(i) => {
                let a = self.cfg.statics[i].ip;
                proof {
                    lemma_record_resolves(self.cfg.statics@, i as int);
                    let s = self.entries@;
                    let st = self.cfg.statics@;
                    if has_ip(s, a) {
                        let j = choose|j: int| 0 <= j < s.len() && #[trigger] s[j].ip == a;
                        assert(Self::entry_ok(self.cfg, s[j]));
                        if has_mac(st, s[j].mac@) {
                            let k = idx_of(st, mac@);
                            let k2 = idx_of(st, s[j].mac@);
                            assert(0 <= k < st.len() && st[k].mac@ == mac@);
                            assert(0 <= k2 < st.len() && st[k2].mac@ == s[j].mac@);
                            assert(st[k].ip == a);
                            assert(st[k2].ip == a);
                            if k2 < k {
                                assert(st[k2].ip != st[k].ip);
                            }
                            if k < k2 {
                                assert(st[k].ip != st[k2].ip);
                            }
                            assert(k == k2);
                            assert(s[j].mac@ == mac@);
                            assert(has_mac(s, mac@));
                            assert(false);
                        } else {
                            let k = idx_of(st, mac@);
                            assert(0 <= k < st.len() && st[k].mac@ == mac@);
                            assert(!self.cfg.in_pool(st[k].ip));
                            assert(false);
                        }
                    }
                }
                self.add_entry(mac, a);
                return Some(a);
            },
            None => {},
        }
        // Scan the dynamic pool from the cursor.
        let ghost s0 = *self;
        let end = self.cfg.pool_end;
        while self.cursor <= end
            invariant
                s0 == *old(self),
                s0.wf(),
                self.cfg == s0.cfg,
                self.entries@ == s0.entries@,
                !s0.leased(mac@),
                !has_mac(s0.cfg.statics@, mac@),
                end == s0.cfg.pool_end,
                s0.cursor <= self.cursor <= end + 1,
                forall|b: u32|
                    s0.cursor <= b < self.cursor ==> #[trigger] has_ip(s0.entries@, b),
                first_free(s0.entries@, s0.cursor as int, end as int) == first_free(
                    s0.entries@,
                    self.cursor as int,
                    end as int,
                ),
            decreases end + 1 - self.cursor,
        {
            let a = self.cursor;
            self.cursor = a + 1;
            if !scan_has_ip(&self.entries, a) {
                proof {
                    assert(first_free(s0.entries@, a as int, end as int) == Some(a));
                    assert(self.cfg.in_pool(a));
                }
                self.add_entry(mac, a);
                return Some(a);
            }
            proof {
                assert(has_ip(s0.entries@, a));
                assert(first_free(s0.entries@, a as int, end as int) == first_free(
                    s0.entries@,
                    a as int + 1,
                    end as int,
                ));
            }
        }
        // Pool exhausted: the cursor stands just past the last address.
        proof {
            assert(self.cursor == end + 1);
            assert(first_free(s0.entries@, self.cursor as int, end as int) is None);
        }
        None
    }

    /// Drop the lease of `mac`, if it holds one, and with it the reverse
    /// entry for its address. Quietly does nothing otherwise. The cursor
    /// does not move: a released pool address the cursor has passed is not
    /// revisited.
    pub fn release(&mut self, mac: &Vec<u8>)
        requires
            old(self).wf(),
        ensures
            final(self).wf(),
            final(self).cfg == old(self).cfg,
            final(self).cursor == old(self).cursor,
            !final(self).leased(mac@),
            release_transition(*old(self), *final(self), mac@),
    {
        match lookup(&self.entries, mac) {
            Some(i) => {
                let ghost pre = self.entries@;
                proof {
                    lemma_record_resolves(pre, i as int);
                    lemma_remove_effect(pre, i as int);
                }
                self.entries.remove(i);
                proof {
                    assert(self.entries@ == pre.remove(i as int));
                    assert forall|j: int|
                        0 <= j < self.entries@.len() implies Self::entry_ok(
                        self.cfg,
                        self.entries@[j],
                    ) by {
                        assert(self.entries@[j] == pre[j] || self.entries@[j] == pre[j + 1]);
                    }
                }
            },
            None => {},
        }
    }
}

} // verus!
