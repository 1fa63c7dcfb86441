//! Compiled-in server configuration: the server's own addresses, the
//! lease duration, the dynamic pool bounds, and the static lease table.
//!
//! A configuration is validated at startup: the pool bounds must be
//! ordered, the static table one-to-one in both columns, and every static
//! address outside the dynamic pool, so that allocation can never hand the
//! same address to two clients.

use vstd::prelude::*;
use crate::lease::{Lease, macs_unique, ips_unique, bytes_eq};

verus! {

/// The server's own address, 192.168.1.1.
pub const SERVER_IP: u32 = 0xC0A8_0101;

/// The subnet mask handed to clients, 255.255.255.0.
pub const SUBNET_MASK: u32 = 0xFFFF_FF00;

/// The default router handed to clients, 192.168.1.1.
pub const GATEWAY: u32 = 0xC0A8_0101;

/// Lease duration handed to clients: 24 hours, in seconds.
pub const LEASE_TIME_SECS: u32 = 86400;

/// First address of the dynamic pool, 192.168.1.100.
pub const POOL_START: u32 = 0xC0A8_0164;

/// Last address of the dynamic pool, 192.168.1.200.
pub const POOL_END: u32 = 0xC0A8_01C8;

/// The one statically assigned client address, 192.168.1.50.
pub const STATIC_CLIENT_IP: u32 = 0xC0A8_0132;

/// Server configuration, fixed for the lifetime of the store.
pub struct Config {
    /// The server's own address; also the DHCP server identifier.
    pub server_ip: u32,
    /// Subnet mask offered to clients.
    pub subnet_mask: u32,
    /// Default router offered to clients.
    pub gateway: u32,
    /// Lease duration offered to clients, in seconds.
    pub lease_secs: u32,
    /// First address of the dynamic pool (inclusive).
    pub pool_start: u32,
    /// Last address of the dynamic pool (inclusive).
    pub pool_end: u32,
    /// Pre-configured hardware-address-to-address assignments.
    pub statics: Vec<Lease>,
}

impl Config {
    /// Is `a` inside the dynamic pool?
    pub open spec fn in_pool(self, a: u32) -> bool {
        self.pool_start <= a <= self.pool_end
    }

    /// A usable configuration: ordered pool bounds with room for the
    /// cursor to step past the last address, and a static table that is
    /// one-to-one in both columns and disjoint from the pool.
    pub open spec fn valid(self) -> bool {
        &&& self.pool_start <= self.pool_end
        &&& self.pool_end < 0xFFFF_FFFFu32
        &&& macs_unique(self.statics@)
        &&& ips_unique(self.statics@)
        &&& forall|i: int|
            0 <= i < self.statics@.len() ==> !self.in_pool(#[trigger] self.statics@[i].ip)
    }

    /// Startup validation: decides `valid` exactly.
    pub fn check(&self) -> (r: bool)
        ensures
            r == self.valid(),
    {
        if !(self.pool_start <= self.pool_end) {
            return false;
        }
        if !(self.pool_end < 0xFFFF_FFFF) {
            return false;
        }
        let n = self.statics.len();
        let mut i: usize = 0;
        while i < n
            invariant
                n == self.statics@.len(),
                i <= n,
                forall|x: int, y: int|
                    0 <= x < y < n && x < i ==> #[trigger] self.statics@[x].mac@
                        != #[trigger] self.statics@[y].mac@,
                forall|x: int, y: int|
                    0 <= x < y < n && x < i ==> #[trigger] self.statics@[x].ip
                        != #[trigger] self.statics@[y].ip,
                forall|x: int| 0 <= x < i ==> !self.in_pool(#[trigger] self.statics@[x].ip),
            decreases n - i,
        {
            let a = self.statics[i].ip;
            if self.pool_start <= a && a <= self.pool_end {
                return false;
            }
            let mut j: usize = i + 1;
            while j < n
                invariant
                    n == self.statics@.len(),
                    i < j <= n,
                    forall|y: int|
                        i < y < j ==> #[trigger] self.statics@[y].mac@
                            != self.statics@[i as int].mac@,
                    forall|y: int|
                        i < y < j ==> #[trigger] self.statics@[y].ip
                            != self.statics@[i as int].ip,
                decreases n - j,
            {
                if bytes_eq(&self.statics[i].mac, &self.statics[j].mac) {
                    return false;
                }
                if self.statics[i].ip == self.statics[j].ip {
                    return false;
                }
                j += 1;
            }
            i += 1;
        }
        true
    }

    /// The compiled-in deployment: pool 192.168.1.100 to 192.168.1.200 and
    /// one static lease, with the server answering for router and DNS.
    pub fn standard() -> (c: Config)
        ensures
            c.valid(),
            c.server_ip == SERVER_IP,
            c.subnet_mask == SUBNET_MASK,
            c.gateway == GATEWAY,
            c.lease_secs == LEASE_TIME_SECS,
            c.pool_start == POOL_START,
            c.pool_end == POOL_END,
            c.statics@.len() == 1,
            c.statics@[0].mac@ == static_mac(),
            c.statics@[0].ip == STATIC_CLIENT_IP,
    {
        let c = Config {
            server_ip: SERVER_IP,
            subnet_mask: SUBNET_MASK,
            gateway: GATEWAY,
            lease_secs: LEASE_TIME_SECS,
            pool_start: POOL_START,
            pool_end: POOL_END,
            statics: static_leases(),
        };
        c
    }
}

/// The hardware address holding the one static lease: AA:BB:CC:DD:EE:FF.
pub open spec fn static_mac() -> Seq<u8> {
    seq![0xAAu8, 0xBBu8, 0xCCu8, 0xDDu8, 0xEEu8, 0xFFu8]
}

/// The static lease table of the compiled-in deployment:
/// AA:BB:CC:DD:EE:FF is always assigned 192.168.1.50.
pub fn static_leases() -> (v: Vec<Lease>)
    ensures
        v@.len() == 1,
        v@[0].mac@ == static_mac(),
        v@[0].ip == STATIC_CLIENT_IP,
{
    let mut mac: Vec<u8> = Vec::new();
    mac.push(0xAA);
    mac.push(0xBB);
    mac.push(0xCC);
    mac.push(0xDD);
    mac.push(0xEE);
    mac.push(0xFF);
    proof {
        assert(mac@ =~= static_mac());
    }
    let mut v: Vec<Lease> = Vec::new();
    v.push(Lease { mac, ip: STATIC_CLIENT_IP });
    v
}

} // verus!
