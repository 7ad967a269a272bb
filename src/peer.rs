//! Peer addresses as trackers hand them out: 6 bytes each.
use vstd::prelude::*;
use crate::tracker::TrackerError;
use crate::wire::{get_u16, u16_at};

verus! {

/// An IPv4 peer address.
#[derive(Debug, Clone, Copy)]
pub struct Peer {
    /// The four address bytes, in network order.
    pub ip: [u8; 4],
    pub port: u16,
}

/// Whether `p` is the peer whose 6 bytes start at `at` in `b`.
pub open spec fn peer_at(b: Seq<u8>, at: int, p: Peer) -> bool {
    p.ip@ == b.subrange(at, at + 4) && p.port == u16_at(b, at + 4)
}

/// Whether `peers` is the decoding of `b`: one peer per 6 bytes, in order.
pub open spec fn peers_of(b: Seq<u8>, peers: Seq<Peer>) -> bool {
    &&& b.len() % 6 == 0
    &&& peers.len() == b.len() / 6
    &&& forall|i: int| 0 <= i < peers.len() ==> peer_at(b, 6 * i, #[trigger] peers[i])
}

/// Six bytes decode to exactly one peer: its address is the first four
/// bytes in order, its port the last two, most significant first.
pub proof fn lemma_one_peer(b: Seq<u8>, peers: Seq<Peer>)
    requires
        b.len() == 6,
        peers_of(b, peers),
    ensures
        peers.len() == 1,
        peers[0].ip@ == seq![b[0], b[1], b[2], b[3]],
        peers[0].port == 256 * (b[4] as int) + (b[5] as int),
{
    assert(peer_at(b, 0, peers[0]));
    assert(b.subrange(0, 4) =~= seq![b[0], b[1], b[2], b[3]]);
    let hi = b[4];
    let lo = b[5];
    assert(((hi as u16) << 8u16) | (lo as u16) == (hi as u16) * 256 + (lo as u16)) by (bit_vector);
}

impl Peer {
    /// Decodes a flat array of 6-byte peer addresses.
    pub fn from_bytes(bytes: &[u8]) -> (r: Result<Vec<Peer>, TrackerError>)
        ensures
            r is Err <==> bytes@.len() % 6 != 0,
            r matches Err(e) ==> e == TrackerError::Malformed,
            r matches Ok(v) ==> peers_of(bytes@, v@),
    {
        let n = bytes.len();
        if n % 6 != 0 {
            return Err(TrackerError::Malformed);
        }
        let mut peers: Vec<Peer> = Vec::new();
        let mut at: usize = 0;
        while at < n
            invariant
                n == bytes@.len(),
                n % 6 == 0,
                at % 6 == 0,
                at <= n,
                peers@.len() == at / 6,
                forall|i: int| 0 <= i < peers@.len() ==> peer_at(bytes@, 6 * i, #[trigger] peers@[i]),
            decreases n - at,
        {
            let ip: [u8; 4] = [bytes[at], bytes[at + 1], bytes[at + 2], bytes[at + 3]];
            let port = get_u16(bytes, at + 4);
            let p = Peer { ip, port };
            assert(p.ip@ =~= bytes@.subrange(at as int, at + 4));
            peers.push(p);
            at = at + 6;
        }
        Ok(peers)
    }
}

} // verus!
