//! The piece work table: which pieces are missing, being fetched, or
//! downloaded and checked against their digest.
use vstd::prelude::*;
use crate::digest::{digest_matches, sha1_of};

verus! {

/// Where one piece stands.
#[derive(Debug, Clone, Copy, PartialEq, Eq, Structural)]
pub enum PieceState {
    /// Nobody is fetching it.
    Missing,
    /// The peer with this index is fetching it.
    InFlight(usize),
    /// Downloaded, and its digest matched.
    Verified,
}

/// Whether a piece may go from `a` to `b` in one step: a missing piece is
/// handed to one peer, a piece in flight comes back or is verified, and a
/// verified piece stays so.
pub open spec fn step_ok(a: PieceState, b: PieceState) -> bool {
    ||| a == b
    ||| (a is Missing && b is InFlight)
    ||| (a is InFlight && b is Missing)
    ||| (a is InFlight && b is Verified)
}

/// Whether every piece took an allowed step from `old` to `new`.
pub open spec fn steps_ok(old: Seq<PieceState>, new: Seq<PieceState>) -> bool {
    old.len() == new.len() && forall|i: int| 0 <= i < old.len() ==> step_ok(old[i], new[i])
}

/// A piece never passes from one peer to another without first coming back.
pub proof fn lemma_no_direct_handover(a: PieceState, b: PieceState)
    requires
        step_ok(a, b),
        a is InFlight,
        b is InFlight,
    ensures
        a == b,
{
}

/// Steps that each table operation allows only ever verify a piece in flight.
pub proof fn lemma_verified_comes_from_flight(old: Seq<PieceState>, new: Seq<PieceState>, i: int)
    requires
        steps_ok(old, new),
        0 <= i < old.len(),
        new[i] is Verified,
    ensures
        old[i] is Verified || old[i] is InFlight,
{
}

/// The work table of a download.
pub struct WorkTable {
    states: Vec<PieceState>,
    hashes: Vec<[u8; 20]>,
    /// (piece, peer) pairs where the peer sent data with a wrong digest.
    strikes: Vec<(usize, usize)>,
    /// For each verified piece, the data that matched its digest.
    checked: Ghost<Seq<Seq<u8>>>,
}

impl WorkTable {
    pub closed spec fn states(&self) -> Seq<PieceState> {
        self.states@
    }

    /// The expected digest of each piece.
    pub closed spec fn hashes(&self) -> Seq<Seq<u8>> {
        self.hashes@.map_values(|h: [u8; 20]| h@)
    }

    /// Whether `peer` once sent data for `piece` that failed its digest.
    pub closed spec fn struck(&self, piece: usize, peer: usize) -> bool {
        self.strikes@.contains((piece, peer))
    }

    /// The table's invariant: one state and one digest per piece, and each
    /// verified piece had data whose digest matched.
    pub closed spec fn wf(&self) -> bool {
        &&& self.states@.len() == self.hashes@.len()
        &&& self.checked@.len() == self.states@.len()
        &&& forall|i: int|
            0 <= i < self.states@.len() && (#[trigger] self.states@[i]) is Verified ==> sha1_of(
                self.checked@[i],
            ) == self.hashes@[i]@
    }

    /// Whether piece `i` is verified by data whose digest is its own.
    pub open spec fn verified(&self, i: int) -> bool {
        self.states()[i] is Verified
    }

    /// Whether every piece is verified.
    pub open spec fn all_verified(&self) -> bool {
        forall|i: int| 0 <= i < self.states().len() ==> #[trigger] self.states()[i] is Verified
    }

    /// Whether `peer`, which has the pieces `have`, could be given piece `i`.
    pub open spec fn candidate(&self, have: Seq<bool>, peer: int, i: int) -> bool {
        &&& 0 <= i < self.states().len()
        &&& i < have.len()
        &&& have[i]
        &&& self.states()[i] is Missing
        &&& !self.struck(i as usize, peer as usize)
    }

    /// A verified piece had data whose digest is the one recorded for it.
    pub proof fn lemma_verified_has_digest(&self, i: int)
        requires
            self.wf(),
            0 <= i < self.states().len(),
            self.states()[i] is Verified,
        ensures
            exists|data: Seq<u8>| sha1_of(data) == self.hashes()[i],
    {
        assert(sha1_of(self.checked@[i]) == self.hashes()[i]);
    }

    /// A table with every piece missing.
    pub fn new(hashes: Vec<[u8; 20]>) -> (r: Self)
        ensures
            r.wf(),
            r.hashes() == hashes@.map_values(|h: [u8; 20]| h@),
            r.states().len() == hashes@.len(),
            forall|i: int| 0 <= i < hashes@.len() ==> (#[trigger] r.states()[i]) is Missing,
            forall|i: usize, p: usize| !r.struck(i, p),
    {
        let mut states: Vec<PieceState> = Vec::new();
        let mut i: usize = 0;
        while i < hashes.len()
            invariant
                i <= hashes@.len(),
                states@.len() == i,
                forall|k: int| 0 <= k < i ==> (#[trigger] states@[k]) is Missing,
            decreases hashes@.len() - i,
        {
            states.push(PieceState::Missing);
            i = i + 1;
        }
        WorkTable {
            states,
            hashes,
            strikes: Vec::new(),
            checked: Ghost(Seq::new(i as nat, |k: int| Seq::empty())),
        }
    }

    pub fn len(&self) -> (r: usize)
        ensures
            r == self.states().len(),
    {
        self.states.len()
    }

    pub fn state(&self, piece: usize) -> (r: PieceState)
        requires
            piece < self.states().len(),
        ensures
            r == self.states()[piece as int],
    {
        self.states[piece]
    }

    /// Hands a missing piece to `peer`; any other piece is left as it is.
    pub fn assign(&mut self, piece: usize, peer: usize) -> (r: bool)
        requires
            old(self).wf(),
            piece < old(self).states().len(),
        ensures
            final(self).wf(),
            r == old(self).states()[piece as int] is Missing,
            final(self).states() == (if r {
                old(self).states().update(piece as int, PieceState::InFlight(peer))
            } else {
                old(self).states()
            }),
            final(self).hashes() == old(self).hashes(),
            forall|i: usize, p: usize| final(self).struck(i, p) == old(self).struck(i, p),
            steps_ok(old(self).states(), final(self).states()),
    {
        if self.states[piece] == PieceState::Missing {
            self.states.set(piece, PieceState::InFlight(peer));
            true
        } else {
            false
        }
    }

    /// Gives back every piece that `peer` was fetching, as when its session
    /// fails.
    pub fn release_peer(&mut self, peer: usize)
        requires
            old(self).wf(),
        ensures
            final(self).wf(),
            final(self).states().len() == old(self).states().len(),
            forall|i: int|
                0 <= i < old(self).states().len() ==> #[trigger] final(self).states()[i] == (if old(
                    self,
                ).states()[i] == PieceState::InFlight(peer) {
                    PieceState::Missing
                } else {
                    old(self).states()[i]
                }),
            final(self).hashes() == old(self).hashes(),
            forall|i: usize, p: usize| final(self).struck(i, p) == old(self).struck(i, p),
            steps_ok(old(self).states(), final(self).states()),
    {
        let n = self.states.len();
        let mut i: usize = 0;
        while i < n
            invariant
                n == self.states@.len(),
                i <= n,
                self.wf(),
                self.hashes == old(self).hashes,
                self.strikes == old(self).strikes,
                self.states@.len() == old(self).states@.len(),
                forall|k: int|
                    0 <= k < n ==> #[trigger] self.states@[k] == (if k < i && old(self).states@[k]
                        == PieceState::InFlight(peer) {
                        PieceState::Missing
                    } else {
                        old(self).states@[k]
                    }),
            decreases n - i,
        {
            if self.states[i] == PieceState::InFlight(peer) {
                self.states.set(i, PieceState::Missing);
            }
            i = i + 1;
        }
    }

    /// Takes the data that `peer` fetched for `piece`: the piece is verified
    /// when the data's digest is the recorded one; otherwise it is missing
    /// again and `peer` is struck for it. Data for a piece that `peer` is not
    /// fetching changes nothing.
    pub fn complete(&mut self, piece: usize, peer: usize, data: &[u8]) -> (r: bool)
        requires
            old(self).wf(),
            piece < old(self).states().len(),
        ensures
            final(self).wf(),
            r == (old(self).states()[piece as int] == PieceState::InFlight(peer) && sha1_of(data@)
                == old(self).hashes()[piece as int]),
            final(self).states() == (if old(self).states()[piece as int] != PieceState::InFlight(
                peer,
            ) {
                old(self).states()
            } else if r {
                old(self).states().update(piece as int, PieceState::Verified)
            } else {
                old(self).states().update(piece as int, PieceState::Missing)
            }),
            final(self).hashes() == old(self).hashes(),
            forall|i: usize, p: usize|
                final(self).struck(i, p) == (old(self).struck(i, p) || (old(self).states()[piece as int]
                    == PieceState::InFlight(peer) && !r && i == piece && p == peer)),
            steps_ok(old(self).states(), final(self).states()),
    {
        if self.states[piece] != PieceState::InFlight(peer) {
            return false;
        }
        if digest_matches(data, &self.hashes[piece]) {
            self.states.set(piece, PieceState::Verified);
            self.checked = Ghost(self.checked@.update(piece as int, data@));
            true
        } else {
            self.states.set(piece, PieceState::Missing);
            let ghost before = self.strikes@;
            self.strikes.push((piece, peer));
            assert forall|i: usize, p: usize|
                self.struck(i, p) == (old(self).struck(i, p) || (i == piece && p == peer)) by {
                if before.contains((i, p)) {
                    let k = choose|k: int| 0 <= k < before.len() && before[k] == (i, p);
                    assert(self.strikes@[k] == (i, p));
                }
                if i == piece && p == peer {
                    assert(self.strikes@[before.len() as int] == (i, p));
                }
                if self.strikes@.contains((i, p)) {
                    let k = choose|k: int| 0 <= k < self.strikes@.len() && self.strikes@[k] == (i, p);
                    if k < before.len() {
                        assert(before[k] == (i, p));
                    }
                }
            }
            false
        }
    }

    /// Whether every piece is verified.
    pub fn is_done(&self) -> (r: bool)
        ensures
            r == self.all_verified(),
    {
        let mut i: usize = 0;
        while i < self.states.len()
            invariant
                i <= self.states@.len(),
                forall|k: int| 0 <= k < i ==> #[trigger] self.states@[k] is Verified,
            decreases self.states@.len() - i,
        {
            if self.states[i] != PieceState::Verified {
                return false;
            }
            i = i + 1;
        }
        true
    }

    fn is_struck(&self, piece: usize, peer: usize) -> (r: bool)
        ensures
            r == self.struck(piece, peer),
    {
        let mut k: usize = 0;
        while k < self.strikes.len()
            invariant
                k <= self.strikes@.len(),
                forall|j: int| 0 <= j < k ==> self.strikes@[j] != (piece, peer),
            decreases self.strikes@.len() - k,
        {
            let (a, b) = self.strikes[k];
            if a == piece && b == peer {
                assert(self.strikes@[k as int] == (piece, peer));
                return true;
            }
            k = k + 1;
        }
        false
    }

    /// The piece to give `peer` next: among the missing pieces that it has
    /// and never sent bad data for, the one with fewest holders, the lowest
    /// index among equals.
    pub fn select_piece(&self, have: &Vec<bool>, holders: &Vec<u64>, peer: usize) -> (r: Option<
        usize,
    >)
        requires
            holders@.len() == self.states().len(),
        ensures
            r matches Some(i) ==> self.candidate(have@, peer as int, i as int) && forall|j: int|
                #![trigger self.candidate(have@, peer as int, j)]
                self.candidate(have@, peer as int, j) ==> holders@[i as int] < holders@[j] || (
                holders@[i as int] == holders@[j] && i <= j),
            r is None ==> forall|j: int| !self.candidate(have@, peer as int, j),
    {
        let mut best: Option<usize> = None;
        let mut i: usize = 0;
        while i < self.states.len()
            invariant
                i <= self.states@.len(),
                holders@.len() == self.states@.len(),
                best matches Some(b) ==> b < i && self.candidate(have@, peer as int, b as int)
                    && forall|j: int|
                    #![trigger self.candidate(have@, peer as int, j)]
                    0 <= j < i && self.candidate(have@, peer as int, j) ==> holders@[b as int]
                        < holders@[j] || (holders@[b as int] == holders@[j] && b <= j),
                best is None ==> forall|j: int|
                    0 <= j < i ==> !#[trigger] self.candidate(have@, peer as int, j),
            decreases self.states@.len() - i,
        {
            if i < have.len() && have[i] && self.states[i] == PieceState::Missing
                && !self.is_struck(i, peer) {
                match best {
                    None => {
                        best = Some(i);
                    },
                    Some(b) => {
                        if holders[i] < holders[b] {
                            best = Some(i);
                        }
                    },
                }
            }
            i = i + 1;
        }
        best
    }
}

} // verus!
