//! The store's laws, stated over the same spec functions its contracts
//! use and proved once and for all.

use vstd::prelude::*;
use crate::lease::{Lease, has_mac, has_ip, ip_for, idx_of, lemma_record_resolves};
use crate::store::{
    LeaseDb, spec_assign, first_free, assign_transition, release_transition,
};

verus! {

/// Idempotence: a hardware address that already holds a lease is assigned
/// that same address again; by `assign`'s contract the store is then left
/// untouched.
pub proof fn lemma_assign_idempotent(db: LeaseDb, m: Seq<u8>)
    requires
        db.wf(),
        db.leased(m),
    ensures
        spec_assign(db, m) == Some(db.addr_of(m)),
{
}

/// Idempotence across two calls: a successful `assign` leaves a store in
/// which assigning the same hardware address returns the same address.
pub proof fn lemma_assign_twice(s0: LeaseDb, s1: LeaseDb, m: Seq<u8>, a: u32)
    requires
        s0.wf(),
        assign_transition(s0, s1, m, Some(a)),
    ensures
        spec_assign(s1, m) == Some(a),
{
    if !s0.leased(m) {
        assert(s1.leased(m));
        assert(s1.addr_of(m) == a);
    }
}

/// Uniqueness: two distinct hardware addresses with active leases hold
/// distinct addresses.
pub proof fn lemma_leases_unique(db: LeaseDb, m1: Seq<u8>, m2: Seq<u8>)
    requires
        db.wf(),
        m1 != m2,
        db.leased(m1),
        db.leased(m2),
    ensures
        db.addr_of(m1) != db.addr_of(m2),
{
    let s = db.entries@;
    let i1 = idx_of(s, m1);
    let i2 = idx_of(s, m2);
    assert(0 <= i1 < s.len() && s[i1].mac@ == m1);
    assert(0 <= i2 < s.len() && s[i2].mac@ == m2);
    if i1 < i2 {
        assert(s[i1].ip != s[i2].ip);
    }
    if i2 < i1 {
        assert(s[i2].ip != s[i1].ip);
    }
}

/// Static precedence: a hardware address in the static table is always
/// assigned its configured address, whatever the pool's state.
pub proof fn lemma_static_precedence(db: LeaseDb, m: Seq<u8>)
    requires
        db.wf(),
        has_mac(db.cfg.statics@, m),
    ensures
        spec_assign(db, m) == Some(ip_for(db.cfg.statics@, m)),
{
    if db.leased(m) {
        let s = db.entries@;
        let i = idx_of(s, m);
        assert(0 <= i < s.len() && s[i].mac@ == m);
        assert(LeaseDb::entry_ok(db.cfg, s[i]));
        lemma_record_resolves(s, i);
    }
}

/// `first_free` finds nothing exactly when every address of the range is
/// held by some record.
pub proof fn lemma_first_free_none(s: Seq<Lease>, i: int, end: int)
    requires
        0 <= i <= end + 1,
        end < 0x1_0000_0000,
    ensures
        first_free(s, i, end) is None <==> (forall|b: u32|
            i <= b <= end ==> #[trigger] has_ip(s, b)),
    decreases end + 1 - i,
{
    if i > end {
    } else if !has_ip(s, i as u32) {
        assert(i <= i as u32 <= end);
    } else {
        lemma_first_free_none(s, i + 1, end);
        if first_free(s, i + 1, end) is None {
            assert forall|b: u32| i <= b <= end implies #[trigger] has_ip(s, b) by {
                if i + 1 <= b {
                    assert(has_ip(s, b));
                } else {
                    assert(b == i as u32);
                }
            }
        } else {
            let b0 = choose|b: u32| !(i + 1 <= b <= end ==> has_ip(s, b));
            assert(!(i <= b0 <= end ==> has_ip(s, b0)));
        }
    }
}

/// Exhaustion: for a fresh, dynamic-only hardware address, `assign`
/// signals exhaustion exactly when every pool address from the cursor on
/// is already in use.
pub proof fn lemma_exhaustion(db: LeaseDb, m: Seq<u8>)
    requires
        db.wf(),
        !db.leased(m),
        !has_mac(db.cfg.statics@, m),
    ensures
        spec_assign(db, m) is None <==> (forall|b: u32|
            db.cursor <= b <= db.cfg.pool_end ==> #[trigger] db.in_use(b)),
{
    let s = db.entries@;
    let i = db.cursor as int;
    let end = db.cfg.pool_end as int;
    lemma_first_free_none(s, i, end);
    if first_free(s, i, end) is None {
        assert forall|b: u32| db.cursor <= b <= db.cfg.pool_end implies #[trigger] db.in_use(
            b,
        ) by {
            assert(has_ip(s, b));
        }
    } else {
        let b0 = choose|b: u32| !(i <= b <= end ==> has_ip(s, b));
        assert(!db.in_use(b0));
        assert(db.cursor <= b0 <= db.cfg.pool_end);
    }
}

/// Release clears state: after a release of `m`, it holds no lease, and a
/// new assignment takes the fresh path — the static assignment if one is
/// configured, else the first free pool address from the cursor on.
pub proof fn lemma_release_fresh(s0: LeaseDb, s1: LeaseDb, m: Seq<u8>)
    requires
        s0.wf(),
        release_transition(s0, s1, m),
    ensures
        !s1.leased(m),
        has_mac(s1.cfg.statics@, m) ==> spec_assign(s1, m) == Some(ip_for(s1.cfg.statics@, m)),
        !has_mac(s1.cfg.statics@, m) ==> spec_assign(s1, m) == first_free(
            s1.entries@,
            s1.cursor as int,
            s1.cfg.pool_end as int,
        ),
{
    if s0.leased(m) {
        assert(!s1.leased(m));
    }
}

/// The maps are in lock-step: an address is in the reverse map exactly
/// when some hardware address resolves to it in the forward map.
pub proof fn lemma_maps_lockstep(db: LeaseDb, a: u32)
    requires
        db.wf(),
    ensures
        db.in_use(a) <==> exists|m: Seq<u8>| #[trigger] db.leased(m) && db.addr_of(m) == a,
{
    if db.in_use(a) {
        let j = choose|j: int| 0 <= j < db.entries@.len() && #[trigger] db.entries@[j].ip == a;
        lemma_record_resolves(db.entries@, j);
        assert(db.leased(db.entries@[j].mac@) && db.addr_of(db.entries@[j].mac@) == a);
    }
    if exists|m: Seq<u8>| #[trigger] db.leased(m) && db.addr_of(m) == a {
        let m = choose|m: Seq<u8>| #[trigger] db.leased(m) && db.addr_of(m) == a;
        let i = idx_of(db.entries@, m);
        assert(0 <= i < db.entries@.len() && db.entries@[i].mac@ == m);
        assert(has_ip(db.entries@, a));
    }
}

/// Cursor monotonicity: neither an assignment nor a release ever moves
/// the pool cursor backwards.
pub proof fn lemma_cursor_monotone(s0: LeaseDb, s1: LeaseDb, m: Seq<u8>, r: Option<u32>)
    requires
        s0.wf(),
        assign_transition(s0, s1, m, r) || release_transition(s0, s1, m),
    ensures
        s0.cursor <= s1.cursor,
{
}

} // verus!
