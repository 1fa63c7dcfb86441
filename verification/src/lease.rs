//! Lease records and the mathematical view of the lease store.
//!
//! A lease binds a client's hardware address (a byte sequence) to the
//! network address assigned to it, held as a 32-bit value. The store keeps
//! records in a vector; the forward map (hardware address to address) and
//! the reverse map (address to hardware address) are both read off the same
//! records, so the two are in lock-step by construction.

use vstd::prelude::*;

verus! {

/// One lease record: a hardware address bound to an assigned address.
pub struct Lease {
    /// The client's hardware address (6 bytes for Ethernet).
    pub mac: Vec<u8>,
    /// The assigned network address, as a 32-bit value in host order.
    pub ip: u32,
}

/// The forward map: some record in `s` binds the hardware address `m`.
pub open spec fn has_mac(s: Seq<Lease>, m: Seq<u8>) -> bool {
    exists|i: int| 0 <= i < s.len() && #[trigger] s[i].mac@ == m
}

/// Index of the record binding `m`, when one exists.
pub open spec fn idx_of(s: Seq<Lease>, m: Seq<u8>) -> int {
    choose|i: int| 0 <= i < s.len() && #[trigger] s[i].mac@ == m
}

/// The address the forward map gives for `m` (meaningful under `has_mac`).
pub open spec fn ip_for(s: Seq<Lease>, m: Seq<u8>) -> u32 {
    s[idx_of(s, m)].ip
}

/// The reverse map: some record in `s` holds the address `a`.
pub open spec fn has_ip(s: Seq<Lease>, a: u32) -> bool {
    exists|i: int| 0 <= i < s.len() && #[trigger] s[i].ip == a
}

/// No two records bind the same hardware address.
pub open spec fn macs_unique(s: Seq<Lease>) -> bool {
    forall|i: int, j: int|
        0 <= i < j < s.len() ==> #[trigger] s[i].mac@ != #[trigger] s[j].mac@
}

/// No two records hold the same address.
pub open spec fn ips_unique(s: Seq<Lease>) -> bool {
    forall|i: int, j: int|
        0 <= i < j < s.len() ==> #[trigger] s[i].ip != #[trigger] s[j].ip
}

/// With unique hardware addresses, each record is the one its own hardware
/// address resolves to.
pub proof fn lemma_record_resolves(s: Seq<Lease>, i: int)
    requires
        macs_unique(s),
        0 <= i < s.len(),
    ensures
        has_mac(s, s[i].mac@),
        ip_for(s, s[i].mac@) == s[i].ip,
{
    assert(has_mac(s, s[i].mac@));
    let j = idx_of(s, s[i].mac@);
    assert(0 <= j < s.len() && s[j].mac@ == s[i].mac@);
    if i < j {
        assert(s[i].mac@ != s[j].mac@);
        assert(false);
    }
    if j < i {
        assert(s[j].mac@ != s[i].mac@);
        assert(false);
    }
}

/// Appending a record extends both maps by exactly its binding.
pub proof fn lemma_push_effect(s: Seq<Lease>, l: Lease)
    ensures
        forall|m: Seq<u8>| has_mac(s.push(l), m) <==> (has_mac(s, m) || l.mac@ == m),
        forall|a: u32| has_ip(s.push(l), a) <==> (has_ip(s, a) || l.ip == a),
{
    let t = s.push(l);
    assert forall|m: Seq<u8>|
        has_mac(t, m) <==> (has_mac(s, m) || l.mac@ == m) by {
        if has_mac(t, m) {
            let i = choose|i: int| 0 <= i < t.len() && #[trigger] t[i].mac@ == m;
            if i < s.len() {
                assert(s[i].mac@ == m);
                assert(has_mac(s, m));
            } else {
                assert(t[i] == l);
            }
        }
        if has_mac(s, m) {
            let i = choose|i: int| 0 <= i < s.len() && #[trigger] s[i].mac@ == m;
            assert(t[i].mac@ == m);
            assert(has_mac(t, m));
        }
        if l.mac@ == m {
            assert(t[s.len() as int].mac@ == m);
            assert(has_mac(t, m));
        }
    }
    assert forall|a: u32| has_ip(t, a) <==> (has_ip(s, a) || l.ip == a) by {
        if has_ip(t, a) {
            let i = choose|i: int| 0 <= i < t.len() && #[trigger] t[i].ip == a;
            if i < s.len() {
                assert(s[i].ip == a);
                assert(has_ip(s, a));
            } else {
                assert(t[i] == l);
            }
        }
        if has_ip(s, a) {
            let i = choose|i: int| 0 <= i < s.len() && #[trigger] s[i].ip == a;
            assert(t[i].ip == a);
            assert(has_ip(t, a));
        }
        if l.ip == a {
            assert(t[s.len() as int].ip == a);
            assert(has_ip(t, a));
        }
    }
}

/// Appending a fresh binding keeps both maps one-to-one, and leaves every
/// earlier binding in place.
pub proof fn lemma_push_unique(s: Seq<Lease>, l: Lease)
    requires
        macs_unique(s),
        ips_unique(s),
        !has_mac(s, l.mac@),
        !has_ip(s, l.ip),
    ensures
        macs_unique(s.push(l)),
        ips_unique(s.push(l)),
        ip_for(s.push(l), l.mac@) == l.ip,
        forall|m: Seq<u8>| has_mac(s, m) ==> ip_for(s.push(l), m) == ip_for(s, m),
{
    let t = s.push(l);
    assert forall|i: int, j: int|
        0 <= i < j < t.len() implies t[i].mac@ != t[j].mac@ by {
        if j < s.len() {
            assert(s[i].mac@ != s[j].mac@);
        } else {
            assert(t[j] == l);
            if t[i].mac@ == l.mac@ {
                assert(s[i].mac@ == l.mac@);
                assert(has_mac(s, l.mac@));
            }
        }
    }
    assert forall|i: int, j: int|
        0 <= i < j < t.len() implies t[i].ip != t[j].ip by {
        if j < s.len() {
            assert(s[i].ip != s[j].ip);
        } else {
            assert(t[j] == l);
            if t[i].ip == l.ip {
                assert(s[i].ip == l.ip);
                assert(has_ip(s, l.ip));
            }
        }
    }
    assert(t[s.len() as int] == l);
    lemma_record_resolves(t, s.len() as int);
    assert forall|m: Seq<u8>| has_mac(s, m) implies ip_for(t, m) == ip_for(s, m) by {
        let i = choose|i: int| 0 <= i < s.len() && #[trigger] s[i].mac@ == m;
        lemma_record_resolves(s, i);
        assert(t[i] == s[i]);
        lemma_record_resolves(t, i);
    }
}

/// Removing the record at `k` deletes exactly its binding from both maps
/// and leaves every other binding in place.
pub proof fn lemma_remove_effect(s: Seq<Lease>, k: int)
    requires
        macs_unique(s),
        ips_unique(s),
        0 <= k < s.len(),
    ensures
        macs_unique(s.remove(k)),
        ips_unique(s.remove(k)),
        forall|m: Seq<u8>| has_mac(s.remove(k), m) <==> (has_mac(s, m) && m != s[k].mac@),
        forall|m: Seq<u8>|
            m != s[k].mac@ && has_mac(s, m) ==> ip_for(s.remove(k), m) == ip_for(s, m),
        forall|a: u32| has_ip(s.remove(k), a) <==> (has_ip(s, a) && a != s[k].ip),
        forall|j: int|
            0 <= j < s.remove(k).len() ==> #[trigger] s.remove(k)[j] == s[j]
                || s.remove(k)[j] == s[j + 1],
{
    s.remove_ensures(k);
    let t = s.remove(k);
    assert forall|j: int|
        0 <= j < t.len() implies #[trigger] t[j] == s[j] || t[j] == s[j + 1] by {
        if j < k {
            assert(t[j] == s[j]);
        } else {
            assert(t[j] == s[j + 1]);
        }
    }
    assert forall|i: int, j: int|
        0 <= i < j < t.len() implies t[i].mac@ != t[j].mac@ by {
        let i2: int = if i < k { i } else { i + 1 };
        let j2: int = if j < k { j } else { j + 1 };
        assert(t[i] == s[i2]);
        assert(t[j] == s[j2]);
        assert(s[i2].mac@ != s[j2].mac@);
    }
    assert forall|i: int, j: int|
        0 <= i < j < t.len() implies t[i].ip != t[j].ip by {
        let i2: int = if i < k { i } else { i + 1 };
        let j2: int = if j < k { j } else { j + 1 };
        assert(t[i] == s[i2]);
        assert(t[j] == s[j2]);
        assert(s[i2].ip != s[j2].ip);
    }
    assert forall|m: Seq<u8>|
        has_mac(t, m) <==> (has_mac(s, m) && m != s[k].mac@) by {
        if has_mac(t, m) {
            let j = choose|j: int| 0 <= j < t.len() && #[trigger] t[j].mac@ == m;
            let i2: int = if j < k { j } else { j + 1 };
            assert(t[j] == s[i2]);
            assert(s[i2].mac@ == m);
            assert(has_mac(s, m));
            if m == s[k].mac@ {
                if i2 < k {
                    assert(s[i2].mac@ != s[k].mac@);
                } else {
                    assert(s[k].mac@ != s[i2].mac@);
                }
                assert(false);
            }
        }
        if has_mac(s, m) && m != s[k].mac@ {
            let i = choose|i: int| 0 <= i < s.len() && #[trigger] s[i].mac@ == m;
            if i < k {
                assert(t[i].mac@ == m);
            } else {
                assert(i != k);
                assert(t[i - 1] == s[i]);
                assert(t[i - 1].mac@ == m);
            }
            assert(has_mac(t, m));
        }
    }
    assert forall|a: u32| has_ip(t, a) <==> (has_ip(s, a) && a != s[k].ip) by {
        if has_ip(t, a) {
            let j = choose|j: int| 0 <= j < t.len() && #[trigger] t[j].ip == a;
            let i2: int = if j < k { j } else { j + 1 };
            assert(t[j] == s[i2]);
            assert(s[i2].ip == a);
            assert(has_ip(s, a));
            if a == s[k].ip {
                if i2 < k {
                    assert(s[i2].ip != s[k].ip);
                } else {
                    assert(s[k].ip != s[i2].ip);
                }
                assert(false);
            }
        }
        if has_ip(s, a) && a != s[k].ip {
            let i = choose|i: int| 0 <= i < s.len() && #[trigger] s[i].ip == a;
            if i < k {
                assert(t[i].ip == a);
            } else {
                assert(i != k);
                assert(t[i - 1] == s[i]);
                assert(t[i - 1].ip == a);
            }
            assert(has_ip(t, a));
        }
    }
    assert forall|m: Seq<u8>|
        m != s[k].mac@ && has_mac(s, m) implies ip_for(t, m) == ip_for(s, m) by {
        let i = choose|i: int| 0 <= i < s.len() && #[trigger] s[i].mac@ == m;
        lemma_record_resolves(s, i);
        assert(i != k);
        if i < k {
            assert(t[i] == s[i]);
            lemma_record_resolves(t, i);
        } else {
            assert(t[i - 1] == s[i]);
            lemma_record_resolves(t, i - 1);
        }
    }
}

/// Byte-for-byte equality of two hardware addresses.
pub fn bytes_eq(a: &Vec<u8>, b: &Vec<u8>) -> (r: bool)
    ensures
        r == (a@ == b@),
{
    if a.len() != b.len() {
        proof {
            if a@ == b@ {
                assert(a@.len() == b@.len());
            }
        }
        return false;
    }
    let n = a.len();
    let mut i: usize = 0;
    while i < n
        invariant
            n == a@.len(),
            n == b@.len(),
            i <= n,
            forall|j: int| 0 <= j < i ==> a@[j] == b@[j],
        decreases n - i,
    {
        if a[i] != b[i] {
            proof {
                if a@ == b@ {
                    assert(a@[i as int] == b@[i as int]);
                }
            }
            return false;
        }
        i += 1;
    }
    proof {
        assert(a@ =~= b@);
    }
    true
}

/// A fresh copy of a hardware address.
pub fn copy_bytes(src: &Vec<u8>) -> (out: Vec<u8>)
    ensures
        out@ == src@,
{
    let mut out: Vec<u8> = Vec::new();
    let mut i: usize = 0;
    while i < src.len()
        invariant
            i <= src@.len(),
            out@.len() == i,
            forall|j: int| 0 <= j < i ==> out@[j] == src@[j],
        decreases src@.len() - i,
    {
        let x = src[i];
        out.push(x);
        i += 1;
    }
    proof {
        assert(out@ =~= src@);
    }
    out
}

/// Linear scan of the forward map for the record binding `mac`.
pub fn lookup(entries: &Vec<Lease>, mac: &Vec<u8>) -> (r: Option<usize>)
    ensures
        match r {
            Some(i) => i < entries@.len() && entries@[i as int].mac@ == mac@
                && has_mac(entries@, mac@),
            None => !has_mac(entries@, mac@),
        },
{
    let mut i: usize = 0;
    while i < entries.len()
        invariant
            i <= entries@.len(),
            forall|j: int| 0 <= j < i ==> entries@[j].mac@ != mac@,
        decreases entries@.len() - i,
    {
        if bytes_eq(&entries[i].mac, mac) {
            return Some(i);
        }
        i += 1;
    }
    proof {
        if has_mac(entries@, mac@) {
            let j = choose|j: int| 0 <= j < entries@.len() && #[trigger] entries@[j].mac@ == mac@;
            assert(entries@[j].mac@ != mac@);
        }
    }
    None
}

/// Linear scan of the reverse map: is the address `a` held by any record?
pub fn scan_has_ip(entries: &Vec<Lease>, a: u32) -> (r: bool)
    ensures
        r == has_ip(entries@, a),
{
    let mut i: usize = 0;
    while i < entries.len()
        invariant
            i <= entries@.len(),
            forall|j: int| 0 <= j < i ==> entries@[j].ip != a,
        decreases entries@.len() - i,
    {
        if entries[i].ip == a {
            return true;
        }
        i += 1;
    }
    proof {
        if has_ip(entries@, a) {
            let j = choose|j: int| 0 <= j < entries@.len() && #[trigger] entries@[j].ip == a;
            assert(entries@[j].ip != a);
        }
    }
    false
}

} // verus!
