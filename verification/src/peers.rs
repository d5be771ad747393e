//! Virtual connections of a connectionless transport: each sender address that
//! has been heard from stands for one connection.
use vstd::prelude::*;
use std::collections::HashMap;
use tokio::sync::mpsc::Sender;
use crate::payload::NetworkPayload;

verus! {

/// A datagram sender's address, as plain values: two addresses are the same
/// peer exactly when every field agrees.
#[derive(Clone, Copy, Debug, PartialEq, Eq, Structural)]
pub struct PeerAddr {
    /// Whether the address is IPv6.
    pub v6: bool,
    /// The IP address as a number (an IPv4 address in the low 32 bits).
    pub ip: u128,
    pub port: u16,
    /// IPv6 flow information (zero for IPv4).
    pub flowinfo: u32,
    /// IPv6 scope id (zero for IPv4).
    pub scope_id: u32,
}

/// Everything but the IP of an address, packed into one number.
pub open spec fn peer_rest(a: PeerAddr) -> u128 {
    ((if a.v6 { 1int } else { 0int }) * 0x1_0000_0000_0000_0000_0000 + a.port * 0x1_0000_0000_0000_0000
        + a.flowinfo * 0x1_0000_0000 + a.scope_id) as u128
}

proof fn lemma_peer_rest_injective(a: PeerAddr, b: PeerAddr)
    ensures
        (a.ip == b.ip && peer_rest(a) == peer_rest(b)) <==> a == b,
{
}

fn rest_key(a: &PeerAddr) -> (k: u128)
    ensures
        k == peer_rest(*a),
{
    let family: u128 = if a.v6 { 1 } else { 0 };
    family * 0x1_0000_0000_0000_0000_0000 + (a.port as u128) * 0x1_0000_0000_0000_0000 + (a.flowinfo as u128)
        * 0x1_0000_0000 + a.scope_id as u128
}

/// The virtual connections opened so far: for each peer, its connection id and
/// the sending side of its outbound channel (kept so that the peer's write
/// task lives as long as the server; see [`PeerTable::senders`]).
pub struct PeerTable {
    peers: HashMap<u128, HashMap<u128, (u64, Sender<NetworkPayload>)>>,
}

impl View for PeerTable {
    type V = Map<PeerAddr, u64>;

    /// The connection id of each peer heard from.
    closed spec fn view(&self) -> Map<PeerAddr, u64> {
        Map::new(
            |a: PeerAddr|
                self.peers@.contains_key(a.ip) && self.peers@[a.ip]@.contains_key(peer_rest(a)),
            |a: PeerAddr| self.peers@[a.ip]@[peer_rest(a)].0,
        )
    }
}

impl PeerTable {
    /// The sending side of each peer's outbound channel that the table keeps.
    pub closed spec fn senders(&self) -> Map<PeerAddr, Sender<NetworkPayload>> {
        Map::new(
            |a: PeerAddr|
                self.peers@.contains_key(a.ip) && self.peers@[a.ip]@.contains_key(peer_rest(a)),
            |a: PeerAddr| self.peers@[a.ip]@[peer_rest(a)].1,
        )
    }

    /// No peer heard from yet.
    pub fn new() -> (t: Self)
        ensures
            t@ == Map::<PeerAddr, u64>::empty(),
            t.senders() == Map::<PeerAddr, Sender<NetworkPayload>>::empty(),
    {
        let t = PeerTable { peers: HashMap::new() };
        assert(t@ =~= Map::<PeerAddr, u64>::empty());
        assert(t.senders() =~= Map::<PeerAddr, Sender<NetworkPayload>>::empty());
        t
    }

    /// The connection id of a peer, if it has been heard from.
    pub fn conn_id(&self, a: &PeerAddr) -> (id: Option<u64>)
        ensures
            id == (if self@.contains_key(*a) { Some(self@[*a]) } else { None::<u64> }),
    {
        let rest = rest_key(a);
        match self.peers.get(&a.ip) {
            Some(inner) => match inner.get(&rest) {
                Some(entry) => Some(entry.0),
                None => None,
            },
            None => None,
        }
    }

    /// Opens the virtual connection of a peer not heard from before.
    pub fn open(&mut self, a: &PeerAddr, id: u64, sender: Sender<NetworkPayload>)
        requires
            !old(self)@.contains_key(*a),
        ensures
            final(self)@ == old(self)@.insert(*a, id),
            final(self).senders() == old(self).senders().insert(*a, sender),
    {
        let rest = rest_key(a);
        let ghost before = self.peers@;
        let mut inner = match self.peers.remove(&a.ip) {
            Some(m) => m,
            None => HashMap::new(),
        };
        let ghost inner_before = inner@;
        inner.insert(rest, (id, sender));
        self.peers.insert(a.ip, inner);
        proof {
            assert forall|b: PeerAddr| #![auto]
                self@.contains_key(b) == old(self)@.insert(*a, id).contains_key(b) && (self@.contains_key(b)
                    ==> self@[b] == old(self)@.insert(*a, id)[b]) by {
                lemma_peer_rest_injective(*a, b);
                if b.ip == a.ip {
                    assert(before.contains_key(a.ip) ==> inner_before == before[a.ip]@);
                    assert(!before.contains_key(a.ip) ==> inner_before == Map::<
                        u128,
                        (u64, Sender<NetworkPayload>),
                    >::empty());
                }
            }
            assert(self@ =~= old(self)@.insert(*a, id));
            assert forall|b: PeerAddr| #![auto]
                self.senders().contains_key(b) == old(self).senders().insert(*a, sender).contains_key(b) && (
                self.senders().contains_key(b) ==> self.senders()[b] == old(self).senders().insert(*a, sender)[b]) by {
                lemma_peer_rest_injective(*a, b);
                if b.ip == a.ip {
                    assert(before.contains_key(a.ip) ==> inner_before == before[a.ip]@);
                    assert(!before.contains_key(a.ip) ==> inner_before == Map::<
                        u128,
                        (u64, Sender<NetworkPayload>),
                    >::empty());
                }
            }
            assert(self.senders() =~= old(self).senders().insert(*a, sender));
        }
    }
}

/// A peer keeps the connection it opened: its later datagrams are attributed
/// to the same id, and opening it leaves every other peer as it was.
pub proof fn law_peer_keeps_connection(t: Map<PeerAddr, u64>, a: PeerAddr, id: u64, other: PeerAddr)
    requires
        !t.contains_key(a),
    ensures
        t.insert(a, id).contains_key(a) && t.insert(a, id)[a] == id,
        other != a ==> (t.insert(a, id).contains_key(other) == t.contains_key(other)),
        other != a && t.contains_key(other) ==> t.insert(a, id)[other] == t[other],
{
}

} // verus!
