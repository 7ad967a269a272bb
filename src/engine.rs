//! The download orchestrator. It makes the decisions of a download and leaves
//! the network to its caller: each event that the caller reports (a tracker's
//! answer, a session that opened or failed, a piece that arrived) yields the
//! actions to perform next.
use vstd::prelude::*;
use crate::digest::sha1_of;
use crate::peer::Peer;
use crate::session::fits;
use crate::torrent::Torrent;
use crate::tracker::{default_port_of, protocol_of, url_host_port, TrackerProtocol, TrackerUrl};
use crate::work::{step_ok, steps_ok, PieceState, WorkTable};

verus! {

/// Where a download stands.
#[derive(Debug, Clone, Copy, PartialEq, Eq, Structural)]
pub enum Phase {
    /// No torrent yet.
    Idle,
    /// Asking trackers for peers, one at a time.
    Discovering,
    /// Exchanging pieces with peer sessions.
    Downloading,
    /// Every piece is verified.
    Finished,
    /// No tracker gave peers, or no peer can supply a missing piece.
    Failed,
}

/// Where the session with one peer stands.
#[derive(Debug, Clone, Copy, PartialEq, Eq, Structural)]
pub enum SessionState {
    Untried,
    Connecting,
    Open,
    Closed,
}

/// What the caller reports.
#[derive(Debug)]
pub enum Event {
    /// The tracker last asked answered with these peers.
    TrackerAnswered(Vec<Peer>),
    /// The tracker last asked failed or did not answer in time.
    TrackerFailed,
    /// The session with this peer completed its handshake; the peer has the
    /// pieces set in its bitfield, merged with those of its `have` messages.
    SessionReady(usize, Vec<bool>),
    /// The session with this peer broke.
    SessionFailed(usize),
    /// The peer sent the whole data of a piece.
    PieceReceived(usize, usize, Vec<u8>),
}

/// What the caller is to do.
#[derive(Debug)]
pub enum Action {
    /// Ask the tracker with this index for peers.
    AskTracker(usize),
    /// Open a session with the peer with this index.
    Connect(usize),
    /// Ask the peer for the whole of a piece.
    Request(usize, usize),
    /// Hand a verified piece and its data to storage.
    Store(usize, Vec<u8>),
    /// Close the session with this peer.
    Close(usize),
    /// Every piece is verified.
    Finish,
    /// The download cannot go on.
    Fail,
}

/// Whether a tracker protocol has a client.
pub open spec fn supported(p: TrackerProtocol) -> bool {
    p == TrackerProtocol::UDP || p == TrackerProtocol::HTTP
}

/// The endpoint (protocol, host, port) that an announce address names, where
/// it parses and its protocol has a client.
pub open spec fn endpoint(a: Seq<char>) -> Option<(TrackerProtocol, Seq<char>, u16)> {
    match url_host_port(a) {
        None => None,
        Some(hp) => match protocol_of(a) {
            None => None,
            Some(p) => if supported(p) {
                Some(
                    (
                        p,
                        hp.0,
                        match hp.1 {
                            Some(x) => x,
                            None => default_port_of(p),
                        },
                    ),
                )
            } else {
                None
            },
        },
    }
}

/// The endpoints of the usable addresses among `addrs`, in order; the others
/// are skipped.
pub open spec fn endpoints(addrs: Seq<Seq<char>>) -> Seq<(TrackerProtocol, Seq<char>, u16)>
    decreases addrs.len(),
{
    if addrs.len() == 0 {
        Seq::empty()
    } else {
        let init = endpoints(addrs.drop_last());
        match endpoint(addrs.last()) {
            Some(e) => init.push(e),
            None => init,
        }
    }
}

/// A tracker endpoint as a value.
pub open spec fn endpoint_view(t: TrackerUrl) -> (TrackerProtocol, Seq<char>, u16) {
    (t.protocol, t.url@, t.port)
}

/// Whether a session is connecting or open.
pub open spec fn is_active(s: SessionState) -> bool {
    s == SessionState::Connecting || s == SessionState::Open
}

/// The number of sessions that are connecting or open.
pub open spec fn active_count(s: Seq<SessionState>) -> nat
    decreases s.len(),
{
    if s.len() == 0 {
        0
    } else {
        active_count(s.drop_last()) + if is_active(s.last()) {
            1nat
        } else {
            0nat
        }
    }
}

proof fn lemma_active_update(s: Seq<SessionState>, i: int, v: SessionState)
    requires
        0 <= i < s.len(),
    ensures
        active_count(s.update(i, v)) + (if is_active(s[i]) { 1int } else { 0int }) == active_count(s)
            + (if is_active(v) { 1int } else { 0int }),
    decreases s.len(),
{
    let u = s.update(i, v);
    if i < s.len() - 1 {
        assert(u.drop_last() =~= s.drop_last().update(i, v));
        lemma_active_update(s.drop_last(), i, v);
    } else {
        assert(u.drop_last() =~= s.drop_last());
    }
}

/// Whether `actions` agree with table `t` and with the numbers of peers and
/// trackers: each request is for a piece that the peer holds in flight, each
/// stored piece is verified and its data has the recorded digest, finishing
/// comes only with every piece verified, and each peer or tracker named
/// exists.
pub open spec fn actions_fit(t: WorkTable, n_peers: int, n_trackers: int, actions: Seq<Action>) -> bool {
    forall|k: int| 0 <= k < actions.len() ==> action_fits(t, n_peers, n_trackers, #[trigger] actions[k])
}

pub open spec fn action_fits(t: WorkTable, n_peers: int, n_trackers: int, a: Action) -> bool {
    match a {
        Action::Request(peer, piece) => piece < t.states().len() && t.states()[piece as int]
            == PieceState::InFlight(peer) && peer < n_peers,
        Action::Store(piece, data) => piece < t.states().len() && t.states()[piece as int] is Verified
            && sha1_of(data@) == t.hashes()[piece as int],
        Action::Finish => t.all_verified(),
        Action::Connect(p) => p < n_peers,
        Action::Close(p) => p < n_peers,
        Action::AskTracker(i) => i < n_trackers,
        Action::Fail => true,
    }
}

/// Whether the pieces in flight or verified in `a` are still so in `b`.
pub open spec fn only_missing_moved(a: Seq<PieceState>, b: Seq<PieceState>) -> bool {
    &&& a.len() == b.len()
    &&& forall|i: int| 0 <= i < a.len() && !(a[i] is Missing) ==> #[trigger] b[i] == a[i]
}

proof fn lemma_actions_still_fit(a: WorkTable, b: WorkTable, np: int, nt: int, actions: Seq<Action>)
    requires
        actions_fit(a, np, nt, actions),
        only_missing_moved(a.states(), b.states()),
        a.hashes() == b.hashes(),
    ensures
        actions_fit(b, np, nt, actions),
{
    assert forall|k: int| 0 <= k < actions.len() implies action_fits(b, np, nt, #[trigger] actions[k]) by {
        assert(action_fits(a, np, nt, actions[k]));
        match actions[k] {
            Action::Finish => {
                assert forall|i: int| 0 <= i < b.states().len() implies #[trigger] b.states()[i] is Verified by {
                    assert(a.states()[i] is Verified);
                }
            },
            _ => {},
        }
    }
}

proof fn lemma_actions_push(t: WorkTable, np: int, nt: int, actions: Seq<Action>, x: Action)
    requires
        actions_fit(t, np, nt, actions),
        action_fits(t, np, nt, x),
    ensures
        actions_fit(t, np, nt, actions.push(x)),
{
    assert forall|k: int| 0 <= k < actions.push(x).len() implies action_fits(t, np, nt, #[trigger] actions.push(x)[k]) by {
        if k < actions.len() {
            assert(actions.push(x)[k] == actions[k]);
        }
    }
}

/// Only verified data reaches storage: a piece is handed over to be stored
/// only when it is verified and the data's digest is the one recorded for
/// it.
pub proof fn lemma_stored_data_matches(
    e: TorrentEngine,
    actions: Seq<Action>,
    k: int,
    piece: usize,
    data: Vec<u8>,
)
    requires
        e.actions_ok(actions),
        0 <= k < actions.len(),
        actions[k] == Action::Store(piece, data),
    ensures
        e.table().states()[piece as int] is Verified,
        sha1_of(data@) == e.table().hashes()[piece as int],
{
    assert(action_fits(e.table(), e.peers().len() as int, e.trackers().len() as int, actions[k]));
}

/// The orchestrator of one download.
pub struct TorrentEngine {
    trackers: Vec<TrackerUrl>,
    next_tracker: usize,
    peers: Vec<Peer>,
    sessions: Vec<SessionState>,
    have: Vec<Vec<bool>>,
    next_peer: usize,
    max_sessions: usize,
    table: WorkTable,
    holders: Vec<u64>,
    phase: Phase,
}

impl TorrentEngine {
    pub closed spec fn phase(&self) -> Phase {
        self.phase
    }

    pub closed spec fn table(&self) -> WorkTable {
        self.table
    }

    pub closed spec fn trackers(&self) -> Seq<TrackerUrl> {
        self.trackers@
    }

    /// The index of the tracker asked last.
    pub closed spec fn next_tracker(&self) -> int {
        self.next_tracker as int
    }

    /// The peers that the trackers gave.
    pub closed spec fn peers(&self) -> Seq<Peer> {
        self.peers@
    }

    /// The state of the session with each peer.
    pub closed spec fn sessions(&self) -> Seq<SessionState> {
        self.sessions@
    }

    /// The index of the first peer not tried yet.
    pub closed spec fn next_peer(&self) -> int {
        self.next_peer as int
    }

    /// The most sessions that may be connecting or open at once.
    pub closed spec fn max_sessions(&self) -> int {
        self.max_sessions as int
    }

    /// The pieces that peer `p` announced, while its session is open.
    pub closed spec fn peer_has(&self, p: int) -> Seq<bool> {
        self.have@[p]@
    }

    /// How many open sessions have each piece.
    pub closed spec fn holders(&self) -> Seq<u64> {
        self.holders@
    }

    /// The engine's invariant; among others, no more sessions are
    /// connecting or open than the bound allows.
    pub closed spec fn wf(&self) -> bool {
        &&& self.table.wf()
        &&& self.holders@.len() == self.table.states().len()
        &&& self.sessions@.len() == self.peers@.len()
        &&& self.have@.len() == self.peers@.len()
        &&& self.next_peer <= self.peers@.len()
        &&& forall|i: int| self.next_peer <= i < self.sessions@.len() ==> #[trigger] self.sessions@[i] == SessionState::Untried
        &&& self.max_sessions >= 1
        &&& active_count(self.sessions@) <= self.max_sessions
        &&& self.next_tracker <= self.trackers@.len()
        &&& forall|i: int| 0 <= i < self.trackers@.len() ==> supported(#[trigger] self.trackers@[i].protocol)
        &&& self.phase == Phase::Discovering ==> self.next_tracker < self.trackers@.len()
        &&& self.phase == Phase::Finished ==> self.table.all_verified()
    }

    /// Whether the actions agree with the table and name existing peers and
    /// trackers.
    pub open spec fn actions_ok(&self, actions: Seq<Action>) -> bool {
        actions_fit(self.table(), self.peers().len() as int, self.trackers().len() as int, actions)
    }

    /// An engine with no torrent, that keeps at most `max_sessions` peer
    /// sessions connecting or open at once (at least one).
    pub fn start(max_sessions: usize) -> (r: Self)
        ensures
            r.wf(),
            r.phase() == Phase::Idle,
            r.max_sessions() == if max_sessions == 0 { 1 } else { max_sessions as int },
            r.trackers().len() == 0,
            r.peers().len() == 0,
    {
        TorrentEngine {
            trackers: Vec::new(),
            next_tracker: 0,
            peers: Vec::new(),
            sessions: Vec::new(),
            have: Vec::new(),
            next_peer: 0,
            max_sessions: if max_sessions == 0 { 1 } else { max_sessions },
            table: WorkTable::new(Vec::new()),
            holders: Vec::new(),
            phase: Phase::Idle,
        }
    }

    /// The number of tracker endpoints.
    pub fn tracker_count(&self) -> (r: usize)
        ensures
            r == self.trackers().len(),
    {
        self.trackers.len()
    }

    /// The tracker endpoint with index `i`.
    pub fn tracker(&self, i: usize) -> (r: &TrackerUrl)
        requires
            i < self.trackers().len(),
        ensures
            *r == self.trackers()[i as int],
    {
        &self.trackers[i]
    }

    /// The peer with index `i`, once the trackers gave peers.
    pub fn peer(&self, i: usize) -> (r: Option<Peer>)
        ensures
            i < self.peers().len() ==> r == Some(self.peers()[i as int]),
            i >= self.peers().len() ==> r is None,
    {
        if i < self.peers.len() {
            Some(self.peers[i])
        } else {
            None
        }
    }

    pub fn current_phase(&self) -> (r: Phase)
        ensures
            r == self.phase(),
    {
        self.phase
    }

    /// The state of piece `i`.
    pub fn piece_state(&self, i: usize) -> (r: Option<PieceState>)
        requires
            self.wf(),
        ensures
            i < self.table().states().len() ==> r == Some(self.table().states()[i as int]),
            i >= self.table().states().len() ==> r is None,
    {
        if i < self.table.len() {
            Some(self.table.state(i))
        } else {
            None
        }
    }

    /// Takes a torrent: the endpoints of its usable tracker addresses, in
    /// order, the others skipped; and its pieces, all missing. The first
    /// tracker is asked, or the download fails where there is none.
    pub fn add_new_torrent(&mut self, torrent: &Torrent) -> (r: Vec<Action>)
        requires
            old(self).wf(),
        ensures
            final(self).wf(),
            final(self).actions_ok(r@),
            final(self).trackers().map_values(|t: TrackerUrl| endpoint_view(t)) == endpoints(
                crate::torrent::trackers_of(*torrent),
            ),
            final(self).next_tracker() == 0,
            final(self).peers().len() == 0,
            final(self).max_sessions() == old(self).max_sessions(),
            final(self).table().states().len() == torrent.info.pieces@.len() / 20,
            forall|i: int|
                0 <= i < final(self).table().states().len() ==> (#[trigger] final(self).table().states()[i]) is Missing,
            forall|i: int|
                0 <= i < final(self).table().states().len() ==> #[trigger] final(self).table().hashes()[i]
                    == torrent.info.pieces@.subrange(20 * i, 20 * i + 20),
            final(self).trackers().len() == 0 ==> final(self).phase() == Phase::Failed && r@ =~= seq![Action::Fail],
            final(self).trackers().len() > 0 ==> final(self).phase() == Phase::Discovering && r@ =~= seq![Action::AskTracker(0)],
    {
        let addresses = torrent.trackers_list();
        let ghost addrs = addresses@.map_values(|s: String| s@);
        let mut trackers: Vec<TrackerUrl> = Vec::new();
        let mut i: usize = 0;
        while i < addresses.len()
            invariant
                i <= addresses@.len(),
                addrs == addresses@.map_values(|s: String| s@),
                forall|k: int| 0 <= k < trackers@.len() ==> supported(#[trigger] trackers@[k].protocol),
                trackers@.map_values(|t: TrackerUrl| endpoint_view(t)) == endpoints(addrs.subrange(0, i as int)),
            decreases addresses@.len() - i,
        {
            let ghost before = trackers@;
            assert(addrs.subrange(0, i + 1).drop_last() =~= addrs.subrange(0, i as int));
            assert(addrs.subrange(0, i + 1).last() == addresses@[i as int]@);
            match TrackerUrl::parse(addresses[i].as_str()) {
                Ok(t) => {
                    if t.protocol == TrackerProtocol::UDP || t.protocol == TrackerProtocol::HTTP {
                        trackers.push(t);
                        assert(trackers@.map_values(|t: TrackerUrl| endpoint_view(t)) =~= before.map_values(
                            |t: TrackerUrl| endpoint_view(t),
                        ).push(endpoint_view(t)));
                    }
                },
                Err(_) => {},
            }
            i = i + 1;
        }
        assert(addrs.subrange(0, addresses@.len() as int) =~= addrs);
        let hashes = torrent.piece_hashes();
        let ghost hv = hashes@;
        let n = hashes.len();
        self.table = WorkTable::new(hashes);
        assert forall|i: int| 0 <= i < n implies #[trigger] self.table.hashes()[i]
            == torrent.info.pieces@.subrange(20 * i, 20 * i + 20) by {
            assert(self.table.hashes()[i] == hv[i]@);
        }
        self.holders = zeros(n);
        self.trackers = trackers;
        self.next_tracker = 0;
        self.peers = Vec::new();
        self.sessions = Vec::new();
        self.have = Vec::new();
        self.next_peer = 0;
        assert(active_count(self.sessions@) == 0);
        let mut actions: Vec<Action> = Vec::new();
        if self.trackers.len() == 0 {
            self.phase = Phase::Failed;
            actions.push(Action::Fail);
        } else {
            self.phase = Phase::Discovering;
            actions.push(Action::AskTracker(0));
        }
        assert(action_fits(self.table, 0, self.trackers@.len() as int, actions@[0]));
        actions
    }

    /// Takes one event and says what to do next.
    pub fn handle(&mut self, event: Event) -> (r: Vec<Action>)
        requires
            old(self).wf(),
        ensures
            final(self).wf(),
            final(self).actions_ok(r@),
            steps_ok(old(self).table().states(), final(self).table().states()),
            final(self).table().hashes() == old(self).table().hashes(),
            final(self).trackers() == old(self).trackers(),
            final(self).max_sessions() == old(self).max_sessions(),
            active_count(final(self).sessions()) <= final(self).max_sessions(),
            old(self).phase() != Phase::Discovering ==> final(self).peers() == old(self).peers(),
            final(self).phase() == Phase::Finished ==> final(self).table().all_verified(),
            // tracker fallback: a failure or an empty answer moves to the next tracker
            old(self).phase() == Phase::Discovering && (event is TrackerFailed || (event matches Event::TrackerAnswered(l) && l@.len() == 0)) ==> (
            if old(self).next_tracker() + 1 < old(self).trackers().len() {
                r@ =~= seq![Action::AskTracker((old(self).next_tracker() + 1) as usize)]
                    && final(self).phase() == Phase::Discovering && final(self).next_tracker()
                    == old(self).next_tracker() + 1
            } else {
                r@ =~= seq![Action::Fail] && final(self).phase() == Phase::Failed
            }),
            // the first non-empty answer is adopted, and a first session opened
            old(self).phase() == Phase::Discovering ==> (match event {
                Event::TrackerAnswered(l) => l@.len() > 0 ==> final(self).peers() == l@
                    && final(self).phase() != Phase::Discovering && final(self).next_tracker() == old(self).next_tracker()
                    && r@.len() > 0 && r@[0] == Action::Connect(0),
                _ => true,
            }),
            // a session ready with a valid bitfield gets the rarest piece it can
            // supply, or is closed where there is none
            (match event {
                Event::SessionReady(peer, bits) => old(self).phase() == Phase::Downloading && peer
                    < old(self).sessions().len() && old(self).sessions()[peer as int] == SessionState::Connecting
                    && crate::session::bitfield_fits(bits@, old(self).table().states().len() as int) ==> r@.len() > 0
                    && (r@[0] is Request || r@[0] is Close) && (r@[0] matches Action::Request(p, j) ==> p == peer
                    && old(self).table().candidate(bits@, peer as int, j as int) && forall|k: int|
                    #![trigger old(self).table().candidate(bits@, peer as int, k)]
                    old(self).table().candidate(bits@, peer as int, k) ==> final(self).holders()[j as int]
                        < final(self).holders()[k] || (final(self).holders()[j as int] == final(self).holders()[k]
                        && j <= k)) && (r@[0] is Close ==> forall|k: int| !old(self).table().candidate(bits@, peer as int, k)),
                _ => true,
            }),
            // a failed session gives back the pieces it was fetching
            (match event {
                Event::SessionFailed(p) => old(self).phase() == Phase::Downloading && p < old(self).sessions().len()
                    && is_active(old(self).sessions()[p as int]) ==> forall|i: int|
                    0 <= i < old(self).table().states().len() ==> #[trigger] final(self).table().states()[i] == (
                    if old(self).table().states()[i] == PieceState::InFlight(p) {
                        PieceState::Missing
                    } else {
                        old(self).table().states()[i]
                    }),
                _ => true,
            }),
            // a piece that arrives is verified by its digest, or sent back and
            // the peer struck for it
            (match event {
                Event::PieceReceived(peer, piece, data) => old(self).phase() == Phase::Downloading && peer
                    < old(self).sessions().len() && old(self).sessions()[peer as int] == SessionState::Open && piece
                    < old(self).table().states().len() && old(self).table().states()[piece as int]
                    == PieceState::InFlight(peer) ==> if sha1_of(data@) == old(self).table().hashes()[piece as int] {
                    final(self).table().states()[piece as int] is Verified && r@.len() > 0 && r@[0] is Store
                } else {
                    final(self).table().states()[piece as int] is Missing && final(self).table().struck(piece, peer)
                },
                _ => true,
            }),
            // after a piece, a request only goes for a piece that the peer announced
            (match event {
                Event::PieceReceived(peer, piece, data) => forall|k: int|
                    0 <= k < r@.len() ==> match #[trigger] r@[k] {
                        Action::Request(p, j) => p == peer && j < final(self).peer_has(peer as int).len()
                            && final(self).peer_has(peer as int)[j as int],
                        _ => true,
                    },
                _ => true,
            }),
            // the download ends when every piece is verified, and fails only
            // when no session is left and no peer is untried
            old(self).phase() == Phase::Downloading && final(self).table().all_verified() ==> final(self).phase()
                == Phase::Finished && r@.len() > 0 && r@.last() == Action::Finish,
            old(self).phase() == Phase::Downloading && !final(self).table().all_verified() && active_count(
                final(self).sessions(),
            ) == 0 && final(self).next_peer() >= final(self).peers().len() ==> final(self).phase()
                == Phase::Failed && r@.len() > 0 && r@.last() == Action::Fail,
            old(self).phase() == Phase::Downloading && final(self).phase() == Phase::Failed ==> active_count(
                final(self).sessions(),
            ) == 0 && final(self).next_peer() == final(self).peers().len() && !final(self).table().all_verified(),
    {
        let mut actions: Vec<Action> = Vec::new();
        match event {
            Event::TrackerAnswered(peers) => {
                if self.phase == Phase::Discovering {
                    if peers.len() == 0 {
                        self.next_tracker_or_fail(&mut actions);
                    } else {
                        self.adopt_peers(peers, &mut actions);
                    }
                }
            },
            Event::TrackerFailed => {
                if self.phase == Phase::Discovering {
                    self.next_tracker_or_fail(&mut actions);
                }
            },
            Event::SessionReady(peer, bits) => {
                if self.phase == Phase::Downloading && peer < self.sessions.len()
                    && self.sessions[peer] == SessionState::Connecting {
                    if fits(&bits, self.table.len()) {
                        proof {
                            lemma_active_update(self.sessions@, peer as int, SessionState::Open);
                        }
                        self.sessions.set(peer, SessionState::Open);
                        self.add_holdings(&bits);
                        let ghost bv = bits@;
                        self.have.set(peer, bits);
                        assert(self.have@[peer as int]@ == bv);
                        self.give_work(peer, &mut actions);
                    } else {
                        self.drop_session(peer, &mut actions);
                    }
                }
            },
            Event::SessionFailed(peer) => {
                if self.phase == Phase::Downloading && peer < self.sessions.len() && (
                self.sessions[peer] == SessionState::Connecting || self.sessions[peer]
                    == SessionState::Open) {
                    self.drop_session(peer, &mut actions);
                }
            },
            Event::PieceReceived(peer, piece, data) => {
                if self.phase == Phase::Downloading && peer < self.sessions.len()
                    && self.sessions[peer] == SessionState::Open && piece < self.table.len() {
                    if self.table.state(piece) != PieceState::InFlight(peer) {
                        // data for a piece that was not asked of this peer
                        self.drop_session(peer, &mut actions);
                        self.settle(&mut actions);
                        return actions;
                    }
                    let ghost t0 = self.table;
                    let ok = self.table.complete(piece, peer, data.as_slice());
                    let ghost t1 = self.table;
                    if ok {
                        let ghost d = data@;
                        actions.push(Action::Store(piece, data));
                        assert(actions@[0] matches Action::Store(p, x) && p == piece && x@ == d);
                        assert(action_fits(self.table, self.peers@.len() as int, self.trackers@.len() as int, actions@[0]));
                    }
                    let ghost k0 = actions@.len() as int;
                    self.give_work(peer, &mut actions);
                    proof {
                        match actions@[k0] {
                            Action::Request(p, j) => {
                                assert forall|i: int| 0 <= i < t0.states().len() implies step_ok(
                                    t0.states()[i],
                                    #[trigger] self.table.states()[i],
                                ) by {
                                    if i == j as int && i == piece as int && t0.states()[i]
                                        == PieceState::InFlight(peer) && !ok {
                                        assert(t1.struck(piece, peer));
                                    }
                                }
                            },
                            _ => {},
                        }
                    }
                }
            },
        }
        self.settle(&mut actions);
        actions
    }
}

fn zeros(n: usize) -> (r: Vec<u64>)
    ensures
        r@.len() == n,
{
    let mut r: Vec<u64> = Vec::new();
    let mut i: usize = 0;
    while i < n
        invariant
            i <= n,
            r@.len() == i,
        decreases n - i,
    {
        r.push(0);
        i = i + 1;
    }
    r
}

impl TorrentEngine {
    /// The number of sessions that are connecting or open.
    fn count_active(&self) -> (r: usize)
        ensures
            r == active_count(self.sessions@),
    {
        let mut count: usize = 0;
        let mut i: usize = 0;
        while i < self.sessions.len()
            invariant
                i <= self.sessions@.len(),
                count <= i,
                count == active_count(self.sessions@.subrange(0, i as int)),
            decreases self.sessions@.len() - i,
        {
            assert(self.sessions@.subrange(0, i + 1).drop_last() =~= self.sessions@.subrange(0, i as int));
            if self.sessions[i] == SessionState::Connecting || self.sessions[i] == SessionState::Open {
                count = count + 1;
            }
            i = i + 1;
        }
        assert(self.sessions@.subrange(0, i as int) =~= self.sessions@);
        count
    }

    /// Counts the pieces of `bits` among the holders of each piece.
    fn add_holdings(&mut self, bits: &Vec<bool>)
        requires
            old(self).wf(),
        ensures
            final(self).wf(),
            final(self).table == old(self).table,
            final(self).phase == old(self).phase,
            final(self).trackers == old(self).trackers,
            final(self).next_tracker == old(self).next_tracker,
            final(self).sessions == old(self).sessions,
            final(self).peers == old(self).peers,
            final(self).have == old(self).have,
            final(self).next_peer == old(self).next_peer,
            final(self).max_sessions == old(self).max_sessions,
    {
        let mut i: usize = 0;
        while i < self.holders.len() && i < bits.len()
            invariant
                self.wf(),
                self.table == old(self).table,
                self.phase == old(self).phase,
                self.trackers == old(self).trackers,
                self.next_tracker == old(self).next_tracker,
                self.sessions == old(self).sessions,
                self.peers == old(self).peers,
                self.have == old(self).have,
                self.next_peer == old(self).next_peer,
                self.max_sessions == old(self).max_sessions,
            decreases self.holders@.len() - i,
        {
            if bits[i] {
                let h = self.holders[i];
                self.holders.set(i, h.saturating_add(1));
            }
            i = i + 1;
        }
    }

    /// Takes the pieces of `peer` out of the holders of each piece.
    fn remove_holdings(&mut self, peer: usize)
        requires
            old(self).wf(),
            peer < old(self).peers@.len(),
        ensures
            final(self).wf(),
            final(self).table == old(self).table,
            final(self).phase == old(self).phase,
            final(self).trackers == old(self).trackers,
            final(self).next_tracker == old(self).next_tracker,
            final(self).sessions == old(self).sessions,
            final(self).peers == old(self).peers,
            final(self).next_peer == old(self).next_peer,
            final(self).max_sessions == old(self).max_sessions,
    {
        let mut i: usize = 0;
        while i < self.holders.len() && i < self.have[peer].len()
            invariant
                self.wf(),
                peer < self.peers@.len(),
                self.table == old(self).table,
                self.phase == old(self).phase,
                self.trackers == old(self).trackers,
                self.next_tracker == old(self).next_tracker,
                self.sessions == old(self).sessions,
                self.peers == old(self).peers,
                self.next_peer == old(self).next_peer,
                self.max_sessions == old(self).max_sessions,
            decreases self.holders@.len() - i,
        {
            if self.have[peer][i] {
                let h = self.holders[i];
                self.holders.set(i, h.saturating_sub(1));
            }
            i = i + 1;
        }
        self.have.set(peer, Vec::new());
    }

    /// Opens sessions with untried peers while fewer than the bound are
    /// connecting or open.
    fn open_more(&mut self, actions: &mut Vec<Action>)
        requires
            old(self).wf(),
            actions_fit(old(self).table, old(self).peers@.len() as int, old(self).trackers@.len() as int, old(actions)@),
        ensures
            final(self).wf(),
            final(self).table == old(self).table,
            final(self).holders == old(self).holders,
            final(self).phase == old(self).phase,
            final(self).trackers == old(self).trackers,
            final(self).next_tracker == old(self).next_tracker,
            final(self).peers == old(self).peers,
            final(self).max_sessions == old(self).max_sessions,
            final(actions)@.len() >= old(actions)@.len(),
            forall|k: int| 0 <= k < old(actions)@.len() ==> final(actions)@[k] == old(actions)@[k],
            active_count(old(self).sessions@) < old(self).max_sessions && old(self).next_peer < old(self).peers@.len()
                ==> final(actions)@.len() > old(actions)@.len() && final(actions)@[old(actions)@.len() as int]
                == Action::Connect(old(self).next_peer),
            final(actions)@.len() > old(actions)@.len() ==> active_count(final(self).sessions@) > 0,
            forall|k: int| old(actions)@.len() <= k < final(actions)@.len() ==> #[trigger] final(actions)@[k] is Connect,
            final(self).have == old(self).have,
            final(actions)@.len() == old(actions)@.len() ==> final(self).sessions == old(self).sessions
                && final(self).next_peer == old(self).next_peer && (active_count(old(self).sessions@)
                >= old(self).max_sessions || old(self).next_peer >= old(self).peers@.len()),
            final(actions)@.len() > old(actions)@.len() ==> final(self).next_peer > old(self).next_peer
                && (final(self).next_peer == final(self).peers@.len() || active_count(final(self).sessions@) > 0),
            actions_fit(final(self).table, final(self).peers@.len() as int, final(self).trackers@.len() as int, final(actions)@),
    {
        let mut active = self.count_active();
        while active < self.max_sessions && self.next_peer < self.peers.len()
            invariant
                self.wf(),
                active == active_count(self.sessions@),
                self.table == old(self).table,
                self.holders == old(self).holders,
                self.phase == old(self).phase,
                self.trackers == old(self).trackers,
                self.next_tracker == old(self).next_tracker,
                self.peers == old(self).peers,
                self.max_sessions == old(self).max_sessions,
                self.next_peer >= old(self).next_peer,
                actions@.len() >= old(actions)@.len(),
                forall|k: int| 0 <= k < old(actions)@.len() ==> actions@[k] == old(actions)@[k],
                forall|k: int| old(actions)@.len() <= k < actions@.len() ==> #[trigger] actions@[k] is Connect,
                self.have == old(self).have,
                actions@.len() == old(actions)@.len() ==> self.sessions == old(self).sessions && self.next_peer == old(self).next_peer,
                actions@.len() > old(actions)@.len() ==> actions@[old(actions)@.len() as int]
                    == Action::Connect(old(self).next_peer) && active > 0 && self.next_peer > old(self).next_peer,
                actions_fit(self.table, self.peers@.len() as int, self.trackers@.len() as int, actions@),
            decreases self.peers@.len() - self.next_peer,
        {
            let p = self.next_peer;
            proof {
                lemma_active_update(self.sessions@, p as int, SessionState::Connecting);
                lemma_actions_push(self.table, self.peers@.len() as int, self.trackers@.len() as int, actions@, Action::Connect(p));
            }
            self.sessions.set(p, SessionState::Connecting);
            actions.push(Action::Connect(p));
            self.next_peer = p + 1;
            active = active + 1;
        }
    }

    /// Closes the session with `peer`, which has nothing more to give, and
    /// opens another in its place.
    fn close_idle(&mut self, peer: usize, actions: &mut Vec<Action>)
        requires
            old(self).wf(),
            peer < old(self).next_peer,
            actions_fit(old(self).table, old(self).peers@.len() as int, old(self).trackers@.len() as int, old(actions)@),
        ensures
            final(self).wf(),
            final(self).table == old(self).table,
            final(self).phase == old(self).phase,
            final(self).trackers == old(self).trackers,
            final(self).next_tracker == old(self).next_tracker,
            final(self).peers == old(self).peers,
            final(self).max_sessions == old(self).max_sessions,
            final(actions)@.len() > old(actions)@.len(),
            final(actions)@[old(actions)@.len() as int] == Action::Close(peer),
            forall|k: int| 0 <= k < old(actions)@.len() ==> final(actions)@[k] == old(actions)@[k],
            forall|k: int| old(actions)@.len() < k < final(actions)@.len() ==> #[trigger] final(actions)@[k] is Connect,
            active_count(final(self).sessions@) == 0 ==> final(self).next_peer == final(self).peers@.len(),
            actions_fit(final(self).table, final(self).peers@.len() as int, final(self).trackers@.len() as int, final(actions)@),
    {
        proof {
            lemma_active_update(self.sessions@, peer as int, SessionState::Closed);
        }
        self.sessions.set(peer, SessionState::Closed);
        self.remove_holdings(peer);
        proof {
            lemma_actions_push(self.table, self.peers@.len() as int, self.trackers@.len() as int, actions@, Action::Close(peer));
        }
        actions.push(Action::Close(peer));
        let ghost mid = actions@;
        self.open_more(actions);
        assert(actions@[old(actions)@.len() as int] == mid[old(actions)@.len() as int]);
    }

    /// Drops a failed session: the pieces it was fetching are missing again,
    /// and another session is opened in its place.
    fn drop_session(&mut self, peer: usize, actions: &mut Vec<Action>)
        requires
            old(self).wf(),
            peer < old(self).peers@.len(),
            is_active(old(self).sessions@[peer as int]),
            old(actions)@.len() == 0,
            old(self).phase == Phase::Downloading,
        ensures
            final(self).wf(),
            steps_ok(old(self).table.states(), final(self).table.states()),
            forall|i: int|
                0 <= i < old(self).table.states().len() ==> #[trigger] final(self).table.states()[i] == (if old(
                    self,
                ).table.states()[i] == PieceState::InFlight(peer) {
                    PieceState::Missing
                } else {
                    old(self).table.states()[i]
                }),
            final(self).table.hashes() == old(self).table.hashes(),
            final(self).phase == old(self).phase,
            final(self).trackers == old(self).trackers,
            final(self).next_tracker == old(self).next_tracker,
            final(self).peers == old(self).peers,
            final(self).max_sessions == old(self).max_sessions,
            final(actions)@.len() > 0,
            final(actions)@[0] == Action::Close(peer),
            forall|k: int| 0 < k < final(actions)@.len() ==> #[trigger] final(actions)@[k] is Connect,
            active_count(final(self).sessions@) == 0 ==> final(self).next_peer == final(self).peers@.len(),
            actions_fit(final(self).table, final(self).peers@.len() as int, final(self).trackers@.len() as int, final(actions)@),
    {
        self.table.release_peer(peer);
        self.close_idle(peer, actions);
    }

    /// Gives `peer` the rarest piece it can supply, or closes its session
    /// where there is none.
    fn give_work(&mut self, peer: usize, actions: &mut Vec<Action>)
        requires
            old(self).wf(),
            peer < old(self).next_peer,
            old(self).sessions@[peer as int] == SessionState::Open,
            actions_fit(old(self).table, old(self).peers@.len() as int, old(self).trackers@.len() as int, old(actions)@),
            old(self).phase == Phase::Downloading,
        ensures
            final(self).wf(),
            final(self).table.hashes() == old(self).table.hashes(),
            final(self).phase == old(self).phase,
            final(self).trackers == old(self).trackers,
            final(self).next_tracker == old(self).next_tracker,
            final(self).peers == old(self).peers,
            final(self).max_sessions == old(self).max_sessions,
            final(actions)@.len() > old(actions)@.len(),
            forall|k: int| 0 <= k < old(actions)@.len() ==> final(actions)@[k] == old(actions)@[k],
            match final(actions)@[old(actions)@.len() as int] {
                Action::Request(p, j) => p == peer && old(self).table.candidate(old(self).have@[peer as int]@, peer as int, j as int)
                    && (forall|k: int|
                    #![trigger old(self).table.candidate(old(self).have@[peer as int]@, peer as int, k)]
                    old(self).table.candidate(old(self).have@[peer as int]@, peer as int, k) ==> old(self).holders@[j as int]
                        < old(self).holders@[k] || (old(self).holders@[j as int] == old(self).holders@[k] && j <= k))
                    && final(self).holders == old(self).holders
                    && final(self).table.states() == old(self).table.states().update(j as int, PieceState::InFlight(peer))
                    && (forall|a: usize, b: usize| final(self).table.struck(a, b) == old(self).table.struck(a, b))
                    && final(self).sessions == old(self).sessions && final(self).next_peer == old(self).next_peer
                    && final(self).have == old(self).have && final(actions)@.len() == old(actions)@.len() + 1,
                Action::Close(p) => p == peer && final(self).table == old(self).table && (forall|k: int|
                    !old(self).table.candidate(old(self).have@[peer as int]@, peer as int, k)) && forall|k: int|
                    old(actions)@.len() < k < final(actions)@.len() ==> #[trigger] final(actions)@[k] is Connect,
                _ => false,
            },
            steps_ok(old(self).table.states(), final(self).table.states()),
            active_count(final(self).sessions@) == 0 ==> final(self).next_peer == final(self).peers@.len(),
            actions_fit(final(self).table, final(self).peers@.len() as int, final(self).trackers@.len() as int, final(actions)@),
    {
        let pick = self.table.select_piece(&self.have[peer], &self.holders, peer);
        match pick {
            Some(i) => {
                let ghost t0 = self.table;
                self.table.assign(i, peer);
                proof {
                    lemma_actions_still_fit(t0, self.table, self.peers@.len() as int, self.trackers@.len() as int, actions@);
                    lemma_actions_push(self.table, self.peers@.len() as int, self.trackers@.len() as int, actions@, Action::Request(peer, i));
                    lemma_active_update(self.sessions@, peer as int, SessionState::Untried);
                }
                actions.push(Action::Request(peer, i));
            },
            None => {
                self.close_idle(peer, actions);
            },
        }
    }

    /// Moves on to the next tracker, or fails where none is left.
    fn next_tracker_or_fail(&mut self, actions: &mut Vec<Action>)
        requires
            old(self).wf(),
            old(self).phase == Phase::Discovering,
            old(actions)@.len() == 0,
        ensures
            final(self).wf(),
            final(self).table == old(self).table,
            final(self).peers == old(self).peers,
            final(self).trackers == old(self).trackers,
            final(self).max_sessions == old(self).max_sessions,
            final(self).sessions == old(self).sessions,
            actions_fit(final(self).table, final(self).peers@.len() as int, final(self).trackers@.len() as int, final(actions)@),
            if old(self).next_tracker + 1 < old(self).trackers@.len() {
                final(actions)@ =~= seq![Action::AskTracker((old(self).next_tracker + 1) as usize)]
                    && final(self).phase == Phase::Discovering && final(self).next_tracker
                    == old(self).next_tracker + 1
            } else {
                final(actions)@ =~= seq![Action::Fail] && final(self).phase == Phase::Failed
            },
    {
        let len = self.trackers.len();
        let next = self.next_tracker + 1;
        if next < len {
            self.next_tracker = next;
            actions.push(Action::AskTracker(next));
        } else {
            self.next_tracker = len;
            self.phase = Phase::Failed;
            actions.push(Action::Fail);
        }
        assert(action_fits(self.table, self.peers@.len() as int, self.trackers@.len() as int, actions@[0]));
    }

    /// Takes the peers of the first tracker that gave some, and opens the
    /// first sessions.
    fn adopt_peers(&mut self, peers: Vec<Peer>, actions: &mut Vec<Action>)
        requires
            old(self).wf(),
            old(self).phase == Phase::Discovering,
            old(actions)@.len() == 0,
            peers@.len() > 0,
        ensures
            final(self).wf(),
            final(self).table == old(self).table,
            final(self).phase == Phase::Downloading,
            final(self).peers@ == peers@,
            final(self).trackers == old(self).trackers,
            final(self).next_tracker == old(self).next_tracker,
            final(self).max_sessions == old(self).max_sessions,
            final(actions)@.len() > 0,
            final(actions)@[0] == Action::Connect(0),
            active_count(final(self).sessions@) > 0,
            actions_fit(final(self).table, final(self).peers@.len() as int, final(self).trackers@.len() as int, final(actions)@),
    {
        let n = peers.len();
        let mut sessions: Vec<SessionState> = Vec::new();
        let mut have: Vec<Vec<bool>> = Vec::new();
        let mut i: usize = 0;
        while i < n
            invariant
                i <= n,
                sessions@.len() == i,
                have@.len() == i,
                active_count(sessions@) == 0,
                forall|k: int| 0 <= k < i ==> #[trigger] sessions@[k] == SessionState::Untried,
            decreases n - i,
        {
            let ghost before = sessions@;
            sessions.push(SessionState::Untried);
            assert(sessions@.drop_last() =~= before);
            have.push(Vec::new());
            i = i + 1;
        }
        self.peers = peers;
        self.sessions = sessions;
        self.have = have;
        self.next_peer = 0;
        self.phase = Phase::Downloading;
        self.open_more(actions);
    }

    /// Ends the download once every piece is verified, or once no session is
    /// left and no peer is untried.
    fn settle(&mut self, actions: &mut Vec<Action>)
        requires
            old(self).wf(),
            actions_fit(old(self).table, old(self).peers@.len() as int, old(self).trackers@.len() as int, old(actions)@),
        ensures
            final(self).wf(),
            final(self).table == old(self).table,
            final(self).holders == old(self).holders,
            final(self).trackers == old(self).trackers,
            final(self).next_tracker == old(self).next_tracker,
            final(self).peers == old(self).peers,
            final(self).sessions == old(self).sessions,
            final(self).have == old(self).have,
            final(self).next_peer == old(self).next_peer,
            final(self).max_sessions == old(self).max_sessions,
            old(self).phase != Phase::Downloading ==> final(self).phase == old(self).phase && final(actions)@ == old(actions)@,
            old(self).phase == Phase::Downloading ==> (if old(self).table.all_verified() {
                final(self).phase == Phase::Finished && final(actions)@ == old(actions)@.push(Action::Finish)
            } else if active_count(old(self).sessions@) == 0 && old(self).next_peer >= old(self).peers@.len() {
                final(self).phase == Phase::Failed && final(actions)@ == old(actions)@.push(Action::Fail)
            } else {
                final(self).phase == Phase::Downloading && final(actions)@ == old(actions)@
            }),
            actions_fit(final(self).table, final(self).peers@.len() as int, final(self).trackers@.len() as int, final(actions)@),
    {
        if self.phase == Phase::Downloading {
            if self.table.is_done() {
                self.phase = Phase::Finished;
                proof {
                    lemma_actions_push(self.table, self.peers@.len() as int, self.trackers@.len() as int, actions@, Action::Finish);
                }
                actions.push(Action::Finish);
            } else if self.count_active() == 0 && self.next_peer >= self.peers.len() {
                self.phase = Phase::Failed;
                proof {
                    lemma_actions_push(self.table, self.peers@.len() as int, self.trackers@.len() as int, actions@, Action::Fail);
                }
                actions.push(Action::Fail);
            }
        }
    }
}

} // verus!
