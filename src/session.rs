//! One peer session: the handshake, the declaration of interest, the peer's
//! piece availability and the block-by-block download of one piece at a
//! time. The session decides; its caller moves the bytes.
use vstd::prelude::*;
use crate::handshake::{handshake_bytes, valid_response, HandshakeRequest};
use crate::messages::{encode, Message, MessageType};

verus! {

/// The size of the blocks that a piece is requested in.
pub const BLOCK_SIZE: u32 = 16384;

/// Where a session stands.
#[derive(Debug, Clone, Copy, PartialEq, Eq, Structural)]
pub enum SessionStage {
    /// The transport is being opened.
    Connecting,
    /// Our handshake went out; the peer's is awaited.
    HandshakeSent,
    /// The handshakes matched and we declared our interest.
    Interested,
    /// The peer unchoked us: pieces can be requested.
    Exchanging,
    /// The session is over.
    Closed,
}

/// Why a session was closed.
#[derive(Debug, Clone, Copy, PartialEq, Eq, Structural)]
pub enum SessionFault {
    /// The peer's handshake is short or does not match ours.
    BadHandshake,
    /// A bitfield whose size does not match the torrent's piece count.
    BadBitfield,
    /// A `have` for a piece that the torrent does not have.
    BadPieceIndex,
    /// A message that is not valid at this stage.
    UnexpectedMessage,
}

/// What the caller is to do after a message.
#[derive(Debug)]
pub enum SessionStep {
    /// Nothing to send.
    Nothing,
    /// Send these bytes to the peer.
    Send(Vec<u8>),
    /// The peer unchoked us; it has these pieces.
    Available(Vec<bool>),
    /// The whole of this piece arrived.
    PieceDone(usize, Vec<u8>),
    /// Close the transport.
    Close(SessionFault),
}

/// Whether `bits` describes `n` pieces: as many bits, up to less than a byte
/// more, the spare ones clear.
pub open spec fn bitfield_fits(bits: Seq<bool>, n: int) -> bool {
    &&& n <= bits.len() < n + 8
    &&& forall|i: int| n <= i < bits.len() ==> !bits[i]
}

/// The size of the next block of a piece of `total` bytes of which `done`
/// arrived.
pub open spec fn next_block(total: int, done: int) -> int {
    if total - done < BLOCK_SIZE {
        total - done
    } else {
        BLOCK_SIZE as int
    }
}

/// Whether `bits` describes `n` pieces.
pub fn fits(bits: &Vec<bool>, n: usize) -> (r: bool)
    ensures
        r == bitfield_fits(bits@, n as int),
{
    if bits.len() < n || bits.len() - n >= 8 {
        return false;
    }
    let mut i: usize = n;
    while i < bits.len()
        invariant
            n <= i <= bits@.len(),
            forall|k: int| n <= k < i ==> !bits@[k],
        decreases bits@.len() - i,
    {
        if bits[i] {
            return false;
        }
        i = i + 1;
    }
    true
}

/// The session with one peer.
pub struct PeerSession {
    stage: SessionStage,
    handshake: HandshakeRequest,
    have: Vec<bool>,
    choked: bool,
    /// The piece being fetched, its size, and what of it arrived.
    piece: Option<(u32, u32)>,
    buffer: Vec<u8>,
}

impl PeerSession {
    pub closed spec fn stage(&self) -> SessionStage {
        self.stage
    }

    /// The pieces that the peer said it has.
    pub closed spec fn have(&self) -> Seq<bool> {
        self.have@
    }

    pub closed spec fn choked(&self) -> bool {
        self.choked
    }

    pub closed spec fn info_hash(&self) -> Seq<u8> {
        self.handshake.info_hash@
    }

    pub closed spec fn peer_id(&self) -> Seq<u8> {
        self.handshake.peer_id@
    }

    /// The piece being fetched and its size.
    pub closed spec fn piece(&self) -> Option<(u32, u32)> {
        self.piece
    }

    /// What arrived of the piece being fetched.
    pub closed spec fn received(&self) -> Seq<u8> {
        self.buffer@
    }

    pub closed spec fn wf(&self) -> bool {
        &&& self.piece matches Some(p) ==> self.buffer@.len() < p.1
        &&& self.piece is Some ==> self.stage == SessionStage::Exchanging
    }

    /// A session with a peer of a torrent with `piece_count` pieces, before
    /// the transport is open: the peer has no piece that we know of and
    /// chokes us.
    pub fn new(info_hash: [u8; 20], peer_id: [u8; 20], piece_count: usize) -> (r: Self)
        ensures
            r.wf(),
            r.stage() == SessionStage::Connecting,
            r.have() == Seq::new(piece_count as nat, |i: int| false),
            r.choked(),
            r.info_hash() == info_hash@,
            r.peer_id() == peer_id@,
            r.piece() is None,
    {
        let mut have: Vec<bool> = Vec::new();
        let mut i: usize = 0;
        while i < piece_count
            invariant
                i <= piece_count,
                have@ == Seq::new(i as nat, |k: int| false),
            decreases piece_count - i,
        {
            have.push(false);
            i = i + 1;
            assert(have@ =~= Seq::new(i as nat, |k: int| false));
        }
        PeerSession {
            stage: SessionStage::Connecting,
            handshake: HandshakeRequest::create(info_hash, peer_id),
            have,
            choked: true,
            piece: None,
            buffer: Vec::new(),
        }
    }

    pub fn current_stage(&self) -> (r: SessionStage)
        ensures
            r == self.stage(),
    {
        self.stage
    }

    /// The transport is open: our handshake is to be sent.
    pub fn connected(&mut self) -> (r: Vec<u8>)
        requires
            old(self).wf(),
            old(self).stage() == SessionStage::Connecting,
        ensures
            final(self).wf(),
            r@ == handshake_bytes(old(self).info_hash(), old(self).peer_id()),
            final(self).stage() == SessionStage::HandshakeSent,
            final(self).have() == old(self).have(),
            final(self).piece() == old(self).piece(),
            final(self).info_hash() == old(self).info_hash(),
    {
        self.stage = SessionStage::HandshakeSent;
        self.handshake.as_bytes()
    }

    /// The peer's handshake arrived: where it matches ours, our interest is
    /// to be declared; otherwise the session is over.
    pub fn on_handshake(&mut self, bytes: &[u8]) -> (r: Result<Vec<u8>, SessionFault>)
        requires
            old(self).wf(),
            old(self).stage() == SessionStage::HandshakeSent,
        ensures
            final(self).wf(),
            final(self).have() == old(self).have(),
            final(self).piece() == old(self).piece(),
            final(self).info_hash() == old(self).info_hash(),
            valid_response(bytes@, old(self).info_hash()) ==> (r matches Ok(v) && v@ == encode(
                Message::Interested,
            ) && final(self).stage() == SessionStage::Interested),
            !valid_response(bytes@, old(self).info_hash()) ==> (r matches Err(e) && e
                == SessionFault::BadHandshake && final(self).stage() == SessionStage::Closed),
    {
        if self.handshake.is_valid_response(bytes) {
            self.stage = SessionStage::Interested;
            Ok(MessageType::Interested.to_bytes())
        } else {
            self.stage = SessionStage::Closed;
            Err(SessionFault::BadHandshake)
        }
    }

    /// Asks the peer for the first block of `piece`, of `size` bytes: only
    /// once it unchoked us, has the piece, and no other piece is under way.
    pub fn request_piece(&mut self, piece: u32, size: u32) -> (r: Option<Vec<u8>>)
        requires
            old(self).wf(),
        ensures
            final(self).wf(),
            final(self).have() == old(self).have(),
            final(self).stage() == old(self).stage(),
            r is Some <==> (old(self).stage() == SessionStage::Exchanging && !old(self).choked()
                && old(self).piece() is None && size > 0 && piece < old(self).have().len()
                && old(self).have()[piece as int]),
            r matches Some(v) ==> v@ == encode(Message::Request(piece, 0, next_block(size as int, 0) as u32))
                && final(self).piece() == Some((piece, size)) && final(self).received().len() == 0,
            r is None ==> final(self).piece() == old(self).piece(),
    {
        if self.stage == SessionStage::Exchanging && !self.choked && self.piece.is_none() && size
            > 0 && (piece as usize) < self.have.len() && self.have[piece as usize] {
            self.piece = Some((piece, size));
            self.buffer = Vec::new();
            let len = if size < BLOCK_SIZE { size } else { BLOCK_SIZE };
            Some(MessageType::Request(piece, 0, len).to_bytes())
        } else {
            None
        }
    }

    /// Takes one message from the peer.
    pub fn on_message(&mut self, m: MessageType) -> (r: SessionStep)
        requires
            old(self).wf(),
        ensures
            final(self).wf(),
            final(self).info_hash() == old(self).info_hash(),
            final(self).have().len() == old(self).have().len(),
            !(old(self).stage() == SessionStage::Interested || old(self).stage()
                == SessionStage::Exchanging) ==> (r matches SessionStep::Close(f) && f
                == SessionFault::UnexpectedMessage && final(self).stage() == SessionStage::Closed),
            (old(self).stage() == SessionStage::Interested || old(self).stage()
                == SessionStage::Exchanging) ==> match m@ {
                Message::KeepAlive => r is Nothing && final(self).have() == old(self).have(),
                Message::Choke => r is Nothing && final(self).choked() && final(self).have() == old(
                    self,
                ).have(),
                Message::Unchoke => !final(self).choked() && final(self).stage()
                    == SessionStage::Exchanging && final(self).have() == old(self).have() && (old(
                    self,
                ).stage() == SessionStage::Interested ==> (r matches SessionStep::Available(v)
                    && v@ == old(self).have())),
                Message::Have(i) => if (i as int) < old(self).have().len() {
                    r is Nothing && final(self).have() == old(self).have().update(i as int, true)
                } else {
                    r matches SessionStep::Close(f) && f == SessionFault::BadPieceIndex
                        && final(self).stage() == SessionStage::Closed
                },
                Message::Bitfield(bits) => if bitfield_fits(bits, old(self).have().len() as int) {
                    r is Nothing && final(self).have() == Seq::new(
                        old(self).have().len(),
                        |k: int| old(self).have()[k] || bits[k],
                    )
                } else {
                    r matches SessionStep::Close(f) && f == SessionFault::BadBitfield
                        && final(self).stage() == SessionStage::Closed
                },
                Message::Piece(i, begin, block) => final(self).have() == old(self).have() && if (old(self).piece() matches Some(p) && p.0
                    == i && begin == old(self).received().len() && block.len() > 0 && old(
                    self,
                ).received().len() + block.len() <= p.1) {
                    let p = old(self).piece()->0;
                    let got = old(self).received() + block;
                    if got.len() == p.1 {
                        r matches SessionStep::PieceDone(j, data) && j == p.0 && data@ == got
                            && final(self).piece() is None
                    } else {
                        r matches SessionStep::Send(v) && v@ == encode(
                            Message::Request(i, got.len() as u32, next_block(p.1 as int, got.len() as int) as u32),
                        ) && final(self).piece() == old(self).piece() && final(self).received()
                            == got
                    }
                } else {
                    r matches SessionStep::Close(f) && f == SessionFault::UnexpectedMessage
                        && final(self).stage() == SessionStage::Closed
                },
                _ => r is Nothing && final(self).have() == old(self).have(),
            },
    {
        if !(self.stage == SessionStage::Interested || self.stage == SessionStage::Exchanging) {
            self.stage = SessionStage::Closed;
            self.piece = None;
            return SessionStep::Close(SessionFault::UnexpectedMessage);
        }
        match m {
            MessageType::KeepAlive => SessionStep::Nothing,
            MessageType::Choke => {
                self.choked = true;
                SessionStep::Nothing
            },
            MessageType::Unchoke => {
                self.choked = false;
                if self.stage == SessionStage::Interested {
                    self.stage = SessionStage::Exchanging;
                    SessionStep::Available(self.have.clone())
                } else {
                    SessionStep::Nothing
                }
            },
            MessageType::Have(i) => {
                if (i as usize) < self.have.len() {
                    self.have.set(i as usize, true);
                    SessionStep::Nothing
                } else {
                    self.stage = SessionStage::Closed;
                    self.piece = None;
                    SessionStep::Close(SessionFault::BadPieceIndex)
                }
            },
            MessageType::Bitfield(bits) => {
                if self.merge_bits(&bits) {
                    SessionStep::Nothing
                } else {
                    self.stage = SessionStage::Closed;
                    self.piece = None;
                    SessionStep::Close(SessionFault::BadBitfield)
                }
            },
            MessageType::Piece(i, begin, block) => self.take_block(i, begin, block),
            _ => SessionStep::Nothing,
        }
    }

    /// Adds the pieces of `bits` to the peer's, where `bits` has the
    /// torrent's size.
    fn merge_bits(&mut self, bits: &Vec<bool>) -> (r: bool)
        requires
            old(self).wf(),
        ensures
            final(self).wf(),
            final(self).stage == old(self).stage,
            final(self).piece == old(self).piece,
            final(self).buffer == old(self).buffer,
            final(self).handshake == old(self).handshake,
            final(self).choked == old(self).choked,
            r == bitfield_fits(bits@, old(self).have@.len() as int),
            r ==> final(self).have@ == Seq::new(old(self).have@.len(), |k: int| old(self).have@[k] || bits@[k]),
            !r ==> final(self).have@ == old(self).have@,
    {
        let n = self.have.len();
        if !fits(bits, n) {
            return false;
        }
        let mut merged: Vec<bool> = Vec::new();
        let mut j: usize = 0;
        while j < n
            invariant
                n == self.have@.len(),
                n <= bits@.len(),
                j <= n,
                merged@.len() == j,
                forall|k: int| 0 <= k < j ==> merged@[k] == (self.have@[k] || bits@[k]),
            decreases n - j,
        {
            merged.push(self.have[j] || bits[j]);
            j = j + 1;
        }
        assert(merged@ =~= Seq::new(n as nat, |k: int| self.have@[k] || bits@[k]));
        self.have = merged;
        true
    }

    /// Takes a block of the piece under way.
    fn take_block(&mut self, i: u32, begin: u32, block: Vec<u8>) -> (r: SessionStep)
        requires
            old(self).wf(),
            old(self).stage == SessionStage::Interested || old(self).stage == SessionStage::Exchanging,
        ensures
            final(self).wf(),
            final(self).have == old(self).have,
            final(self).handshake == old(self).handshake,
            if (old(self).piece matches Some(p) && p.0 == i && begin == old(self).buffer@.len()
                && block@.len() > 0 && old(self).buffer@.len() + block@.len() <= p.1) {
                let p = old(self).piece->0;
                let got = old(self).buffer@ + block@;
                if got.len() == p.1 {
                    r matches SessionStep::PieceDone(j, data) && j == p.0 && data@ == got
                        && final(self).piece is None
                } else {
                    r matches SessionStep::Send(v) && v@ == encode(
                        Message::Request(i, got.len() as u32, next_block(p.1 as int, got.len() as int) as u32),
                    ) && final(self).piece == old(self).piece && final(self).buffer@ == got
                }
            } else {
                r matches SessionStep::Close(f) && f == SessionFault::UnexpectedMessage
                    && final(self).stage == SessionStage::Closed
            },
    {
        match self.piece {
            Some((p, size)) => {
                let done = self.buffer.len();
                if p == i && begin as usize == done && block.len() > 0 && block.len() <= (size as usize) - done {
                    crate::wire::put_bytes(&mut self.buffer, block.as_slice());
                    let now = self.buffer.len();
                    if now == size as usize {
                        self.piece = None;
                        let data = crate::wire::copy_range(self.buffer.as_slice(), 0, now);
                        self.buffer = Vec::new();
                        assert(data@ =~= old(self).buffer@ + block@);
                        SessionStep::PieceDone(p as usize, data)
                    } else {
                        let rest = size - now as u32;
                        let len = if rest < BLOCK_SIZE { rest } else { BLOCK_SIZE };
                        SessionStep::Send(MessageType::Request(p, now as u32, len).to_bytes())
                    }
                } else {
                    self.stage = SessionStage::Closed;
                    self.piece = None;
                    SessionStep::Close(SessionFault::UnexpectedMessage)
                }
            },
            None => {
                self.stage = SessionStage::Closed;
                SessionStep::Close(SessionFault::UnexpectedMessage)
            },
        }
    }

    /// The transport broke.
    pub fn failed(&mut self)
        ensures
            final(self).stage() == SessionStage::Closed,
            final(self).piece() is None,
    {
        self.stage = SessionStage::Closed;
        self.piece = None;
    }
}

} // verus!
