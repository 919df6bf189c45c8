//! The records the tunneller keeps and exchanges about tunnels, and the
//! periodic liveness check of a tunnel.

use vstd::prelude::*;

verus! {

/// A request to open (or update) a tunnel to a destination under a realm.
#[derive(Clone)]
pub struct TunnellerRequest {
    pub id: String,
    pub realm: String,
    pub dst_host: String,
    pub dst_port: i32,
}

impl TunnellerRequest {
    /// Whether the request closes its tunnel: a request with an empty realm
    /// removes an existing tunnel of its id.
    pub fn closes_tunnel(&self) -> (r: bool)
        ensures
            r == (self.realm@.len() == 0),
    {
        self.realm.as_str().is_empty()
    }
}

/// The answer to a tunnel request: the tunnel, its realm and its public port.
pub struct TunnellerResponse {
    pub tunnel_id: String,
    pub realm: String,
    pub public_port: i32,
}

/// A tunnel: where it listens, where it leads, and when it was last in use.
#[derive(Debug, Clone)]
pub struct Tunnel {
    pub id: String,
    pub realm_name: String,
    pub public_host: String,
    pub public_port: i32,
    pub destination_host: String,
    pub destination_port: i32,
    pub last_occupied_time: u128,
    pub last_issuer_alive_time: u128,
    pub online: i32,
}

/// How long a tunnel may stay unused, in milliseconds, before it can be closed.
pub const IDLE_LIMIT_MILLIS: u128 = 60000;

/// How long the issuer of a tunnel may stay silent, in milliseconds, before the
/// tunnel can be closed.
pub const ISSUER_SILENCE_LIMIT_MILLIS: u128 = 15000;

/// The number of references to a tunnel's shared record that exist without any
/// connection: each connection adds two.
pub const BASE_REFERENCES: usize = 3;

/// The number of players `ref_count` references stand for: the references
/// beyond the base ones, halved, rounded toward zero.
pub open spec fn online_count(ref_count: int) -> int {
    if ref_count >= 3 {
        (ref_count - 3) / 2
    } else if ref_count == 2 {
        0
    } else {
        -1
    }
}

impl Tunnel {
    /// A new tunnel for `info` on `public_port`, reached at `public_host`, in
    /// use and heard from at `now`, with nobody online.
    pub fn from_request(info: &TunnellerRequest, public_port: i32, public_host: String, now: u128) -> (t: Tunnel)
        ensures
            t.id@ == info.id@,
            t.realm_name@ == info.realm@,
            t.public_host@ == public_host@,
            t.public_port == public_port,
            t.destination_host@ == info.dst_host@,
            t.destination_port == info.dst_port,
            t.last_occupied_time == now,
            t.last_issuer_alive_time == now,
            t.online == 0,
    {
        Tunnel {
            id: info.id.clone(),
            realm_name: info.realm.clone(),
            public_host,
            public_port,
            destination_host: info.dst_host.clone(),
            destination_port: info.dst_port,
            last_occupied_time: now,
            last_issuer_alive_time: now,
            online: 0,
        }
    }

    /// The periodic check at `time` of a tunnel whose shared record has
    /// `ref_count` references. With connections open (more than the base
    /// references) the tunnel counts as in use at `time`; without, it is dead
    /// once it has been unused for over a minute and its issuer silent for over
    /// fifteen seconds. The number online is updated from `ref_count`.
    pub fn update_liveness(&mut self, time: u128, ref_count: usize) -> (dead: bool)
        requires
            ref_count <= i32::MAX,
            ref_count <= BASE_REFERENCES ==> time >= old(self).last_occupied_time,
            ref_count <= BASE_REFERENCES && time - old(self).last_occupied_time > IDLE_LIMIT_MILLIS ==> time
                >= old(self).last_issuer_alive_time,
        ensures
            dead == (ref_count <= BASE_REFERENCES && time - old(self).last_occupied_time > IDLE_LIMIT_MILLIS
                && time - old(self).last_issuer_alive_time > ISSUER_SILENCE_LIMIT_MILLIS),
            final(self).last_occupied_time == if ref_count > BASE_REFERENCES {
                time
            } else {
                old(self).last_occupied_time
            },
            final(self).online == online_count(ref_count as int),
            final(self).id == old(self).id,
            final(self).realm_name == old(self).realm_name,
            final(self).public_host == old(self).public_host,
            final(self).public_port == old(self).public_port,
            final(self).destination_host == old(self).destination_host,
            final(self).destination_port == old(self).destination_port,
            final(self).last_issuer_alive_time == old(self).last_issuer_alive_time,
    {
        let mut dead = false;
        if ref_count <= BASE_REFERENCES {
            if time - self.last_occupied_time > IDLE_LIMIT_MILLIS && time - self.last_issuer_alive_time
                > ISSUER_SILENCE_LIMIT_MILLIS {
                dead = true;
            }
        } else {
            self.last_occupied_time = time;
        }
        self.online = (ref_count as i32 - 3) / 2;
        dead
    }
}

/// Players online from references: with no connection (the base references)
/// nobody is online, and each connection, two references more, adds exactly
/// one player; so from the base references on the count is the references
/// beyond the base, halved and rounded down.
pub proof fn law_online_counts_connections(ref_count: int)
    requires
        ref_count >= BASE_REFERENCES,
    ensures
        online_count(BASE_REFERENCES as int) == 0,
        online_count(ref_count + 2) == online_count(ref_count) + 1,
        2 * online_count(ref_count) + BASE_REFERENCES <= ref_count <= 2 * online_count(ref_count) + BASE_REFERENCES + 1,
{
}

/// Below the base references the count follows the truncating division of
/// `ref_count - 3` by two: none online at two references, `-1` below that.
pub proof fn law_online_below_base(ref_count: int)
    requires
        0 <= ref_count < BASE_REFERENCES,
    ensures
        online_count(ref_count) == if ref_count == 2 { 0int } else { -1int },
{
}

} // verus!
