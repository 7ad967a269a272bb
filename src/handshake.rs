//! The fixed 68-byte handshake that opens every peer connection.
use vstd::prelude::*;

verus! {

/// Size in bytes of a handshake.
pub const HANDSHAKE_SIZE: usize = 68;

/// The bytes of the protocol string "BitTorrent protocol".
pub open spec fn protocol_string() -> Seq<u8> {
    seq![66u8, 105, 116, 84, 111, 114, 114, 101, 110, 116, 32, 112, 114, 111, 116, 111, 99, 111, 108]
}

/// `pstrlen | protocol string | 8 reserved zero bytes | info_hash | peer_id`.
pub open spec fn handshake_bytes(info_hash: Seq<u8>, peer_id: Seq<u8>) -> Seq<u8> {
    seq![19u8] + protocol_string() + Seq::new(8, |i: int| 0u8) + info_hash + peer_id
}

/// Whether `b` answers a handshake that carried `info_hash`: the reserved
/// bytes and the remote peer id are not looked at.
pub open spec fn valid_response(b: Seq<u8>, info_hash: Seq<u8>) -> bool {
    &&& b.len() >= 68
    &&& b[0] == 19
    &&& b.subrange(1, 20) == protocol_string()
    &&& b.subrange(28, 48) == info_hash
}

fn protocol_bytes() -> (r: Vec<u8>)
    ensures
        r@ == protocol_string(),
{
    let r: Vec<u8> = vec![66u8, 105, 116, 84, 111, 114, 114, 101, 110, 116, 32, 112, 114, 111, 116, 111, 99, 111, 108];
    assert(r@ =~= protocol_string());
    r
}

/// The handshake that we send to a peer.
pub struct HandshakeRequest {
    pub info_hash: [u8; 20],
    pub peer_id: [u8; 20],
}

impl HandshakeRequest {
    pub fn create(info_hash: [u8; 20], peer_id: [u8; 20]) -> (r: Self)
        ensures
            r.info_hash == info_hash,
            r.peer_id == peer_id,
    {
        HandshakeRequest { info_hash, peer_id }
    }

    /// The 68 bytes of this handshake.
    pub fn as_bytes(&self) -> (r: Vec<u8>)
        ensures
            r@ == handshake_bytes(self.info_hash@, self.peer_id@),
            r@.len() == HANDSHAKE_SIZE,
    {
        let mut r: Vec<u8> = Vec::new();
        r.push(19u8);
        let p = protocol_bytes();
        crate::wire::put_bytes(&mut r, p.as_slice());
        let mut i: usize = 0;
        while i < 8
            invariant
                i <= 8,
                r@ == seq![19u8] + protocol_string() + Seq::new(i as nat, |k: int| 0u8),
            decreases 8 - i,
        {
            r.push(0u8);
            i = i + 1;
            assert(r@ =~= seq![19u8] + protocol_string() + Seq::new(i as nat, |k: int| 0u8));
        }
        crate::wire::put_bytes(&mut r, self.info_hash.as_slice());
        crate::wire::put_bytes(&mut r, self.peer_id.as_slice());
        r
    }

    /// Whether `bytes` is a valid answer to this handshake.
    pub fn is_valid_response(&self, bytes: &[u8]) -> (r: bool)
        ensures
            r == valid_response(bytes@, self.info_hash@),
    {
        if bytes.len() < HANDSHAKE_SIZE || bytes[0] != 19u8 {
            return false;
        }
        let p = protocol_bytes();
        let mut i: usize = 0;
        while i < 19
            invariant
                i <= 19,
                bytes@.len() >= 68,
                p@ == protocol_string(),
                forall|k: int| 0 <= k < i ==> bytes@[1 + k] == p@[k],
            decreases 19 - i,
        {
            if bytes[1 + i] != p[i] {
                assert(bytes@.subrange(1, 20)[i as int] != protocol_string()[i as int]);
                return false;
            }
            i = i + 1;
        }
        assert(bytes@.subrange(1, 20) =~= protocol_string());
        let mut j: usize = 0;
        while j < 20
            invariant
                j <= 20,
                bytes@.len() >= 68,
                forall|k: int| 0 <= k < j ==> bytes@[28 + k] == self.info_hash@[k],
            decreases 20 - j,
        {
            if bytes[28 + j] != self.info_hash[j] {
                assert(bytes@.subrange(28, 48)[j as int] != self.info_hash@[j as int]);
                return false;
            }
            j = j + 1;
        }
        assert(bytes@.subrange(28, 48) =~= self.info_hash@);
        true
    }
}

/// A handshake that we built is valid against itself, and whatever stands in
/// the reserved bytes and the peer id of an answer does not matter.
pub proof fn lemma_handshake_validity(
    info_hash: Seq<u8>,
    peer_id: Seq<u8>,
    reserved: Seq<u8>,
    other_peer: Seq<u8>,
)
    requires
        info_hash.len() == 20,
        peer_id.len() == 20,
        reserved.len() == 8,
        other_peer.len() == 20,
    ensures
        valid_response(handshake_bytes(info_hash, peer_id), info_hash),
        valid_response(
            seq![19u8] + protocol_string() + reserved + info_hash + other_peer,
            info_hash,
        ),
{
    let a = handshake_bytes(info_hash, peer_id);
    assert(a.subrange(1, 20) =~= protocol_string());
    assert(a.subrange(28, 48) =~= info_hash);
    let b = seq![19u8] + protocol_string() + reserved + info_hash + other_peer;
    assert(b.subrange(1, 20) =~= protocol_string());
    assert(b.subrange(28, 48) =~= info_hash);
}

/// An answer is refused when it is shorter than a handshake, when its
/// protocol string differs, or when it carries another info hash.
pub proof fn lemma_handshake_rejections(b: Seq<u8>, info_hash: Seq<u8>)
    ensures
        b.len() < 68 ==> !valid_response(b, info_hash),
        b.len() >= 68 && b.subrange(1, 20) != protocol_string() ==> !valid_response(b, info_hash),
        b.len() >= 68 && b.subrange(28, 48) != info_hash ==> !valid_response(b, info_hash),
{
}

} // verus!
