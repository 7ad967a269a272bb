//! Tracker endpoints and the UDP tracker protocol's connect and announce
//! exchanges, as bytes.
use vstd::prelude::*;
use vstd::string::StrSliceExecFns;
use crate::ids::random_u32;
use crate::peer::{peers_of, Peer};
use crate::wire::{
    be_u16, be_u32, be_u64, get_u32, get_u64, put_bytes, put_u16, put_u32, put_u64, u32_at, u64_at,
};

verus! {

/// The transport protocol of a tracker.
#[derive(Debug, Clone, Copy, PartialEq, Eq, Structural, Hash)]
pub enum TrackerProtocol {
    HTTP,
    TCP,
    UDP,
    WSS,
}

/// Why a tracker endpoint or a tracker answer was refused.
#[derive(Debug, Clone, Copy, PartialEq, Eq, Structural)]
pub enum TrackerError {
    /// The address does not parse as a URL with a host.
    InvalidUrl,
    /// The endpoint's protocol has no client here.
    UnsupportedProtocol,
    /// The answer is too short or its peer list is not whole.
    Malformed,
    /// The answer carries another action than the request.
    ActionMismatch,
    /// The answer carries another transaction id than the request.
    TransactionMismatch,
}

/// Whether `s` starts with `prefix`.
pub open spec fn has_prefix(s: Seq<char>, prefix: Seq<char>) -> bool {
    prefix.len() <= s.len() && s.subrange(0, prefix.len() as int) == prefix
}

/// The protocol that an announce address names by its first letters.
pub open spec fn protocol_of(s: Seq<char>) -> Option<TrackerProtocol> {
    if has_prefix(s, seq!['u', 'd', 'p']) {
        Some(TrackerProtocol::UDP)
    } else if has_prefix(s, seq!['w', 's', 's']) {
        Some(TrackerProtocol::WSS)
    } else if has_prefix(s, seq!['t', 'c', 'p']) {
        Some(TrackerProtocol::TCP)
    } else if has_prefix(s, seq!['h', 't', 't', 'p']) {
        Some(TrackerProtocol::HTTP)
    } else {
        None
    }
}

fn starts_with(s: &str, prefix: &Vec<char>) -> (r: bool)
    ensures
        r == has_prefix(s@, prefix@),
{
    let n = s.unicode_len();
    if prefix.len() > n {
        return false;
    }
    let mut i: usize = 0;
    while i < prefix.len()
        invariant
            n == s@.len(),
            i <= prefix@.len() <= s@.len(),
            forall|k: int| 0 <= k < i ==> s@[k] == prefix@[k],
        decreases prefix@.len() - i,
    {
        if s.get_char(i) != prefix[i] {
            assert(s@.subrange(0, prefix@.len() as int)[i as int] != prefix@[i as int]);
            return false;
        }
        i = i + 1;
    }
    assert(s@.subrange(0, prefix@.len() as int) =~= prefix@);
    true
}

/// The port that a protocol's trackers listen on unless the address says.
pub open spec fn default_port_of(p: TrackerProtocol) -> u16 {
    match p {
        TrackerProtocol::UDP => 6891,
        TrackerProtocol::TCP => 8080,
        TrackerProtocol::HTTP => 80,
        TrackerProtocol::WSS => 80,
    }
}

impl TrackerProtocol {
    /// The protocol named by the start of an announce address.
    pub fn from_url(url: &str) -> (r: Option<Self>)
        ensures
            r == protocol_of(url@),
    {
        let udp: Vec<char> = vec!['u', 'd', 'p'];
        let wss: Vec<char> = vec!['w', 's', 's'];
        let tcp: Vec<char> = vec!['t', 'c', 'p'];
        let http: Vec<char> = vec!['h', 't', 't', 'p'];
        assert(udp@ =~= seq!['u', 'd', 'p']);
        assert(wss@ =~= seq!['w', 's', 's']);
        assert(tcp@ =~= seq!['t', 'c', 'p']);
        assert(http@ =~= seq!['h', 't', 't', 'p']);
        if starts_with(url, &udp) {
            Some(TrackerProtocol::UDP)
        } else if starts_with(url, &wss) {
            Some(TrackerProtocol::WSS)
        } else if starts_with(url, &tcp) {
            Some(TrackerProtocol::TCP)
        } else if starts_with(url, &http) {
            Some(TrackerProtocol::HTTP)
        } else {
            None
        }
    }

    pub fn default_port(&self) -> (r: u16)
        ensures
            r == default_port_of(*self),
    {
        match self {
            TrackerProtocol::UDP => 6891,
            TrackerProtocol::TCP => 8080,
            TrackerProtocol::HTTP => 80,
            TrackerProtocol::WSS => 80,
        }
    }

    /// The protocol's lower-case name.
    pub fn name(&self) -> (r: &'static str)
        ensures
            *self == TrackerProtocol::UDP ==> r@ == "udp"@,
            *self == TrackerProtocol::TCP ==> r@ == "tcp"@,
            *self == TrackerProtocol::WSS ==> r@ == "wss"@,
            *self == TrackerProtocol::HTTP ==> r@ == "http"@,
    {
        match self {
            TrackerProtocol::UDP => "udp",
            TrackerProtocol::TCP => "tcp",
            TrackerProtocol::WSS => "wss",
            TrackerProtocol::HTTP => "http",
        }
    }
}

impl Default for TrackerProtocol {
    fn default() -> (r: Self)
        ensures
            r == TrackerProtocol::UDP,
    {
        TrackerProtocol::UDP
    }
}

/// The host and the explicit port of a URL, as the `url` crate parses it;
/// `None` where it does not parse or has no host.
pub uninterp spec fn url_host_port(address: Seq<char>) -> Option<(Seq<char>, Option<u16>)>;

/// Relies on `url::Url::parse`, then `Url::host` (written out by its
/// `Display`) and `Url::port`: the result depends on the address alone.
#[verifier::external_body]
fn host_and_port(address: &str) -> (r: Option<(String, Option<u16>)>)
    ensures
        r matches Some(hp) ==> url_host_port(address@) == Some((hp.0@, hp.1)),
        r is None ==> url_host_port(address@) is None,
{
    match url::Url::parse(address) {
        Ok(u) => match u.host() {
            Some(h) => Some((h.to_string(), u.port())),
            None => None,
        },
        Err(_) => None,
    }
}

/// A tracker endpoint.
#[derive(Debug)]
pub struct TrackerUrl {
    pub protocol: TrackerProtocol,
    /// The host name or address.
    pub url: String,
    pub port: u16,
}

impl TrackerUrl {
    pub fn new(protocol: TrackerProtocol, url: String, port: u16) -> (r: Self)
        ensures
            r.protocol == protocol,
            r.url@ == url@,
            r.port == port,
    {
        Self { protocol, url, port }
    }

    /// The endpoint that an announce address names; the port is the
    /// protocol's default where the address gives none.
    pub fn parse(address: &str) -> (r: Result<Self, TrackerError>)
        ensures
            url_host_port(address@) is None ==> r == Err::<Self, TrackerError>(
                TrackerError::InvalidUrl,
            ),
            url_host_port(address@) is Some && protocol_of(address@) is None ==> r
                == Err::<Self, TrackerError>(TrackerError::UnsupportedProtocol),
            r is Ok <==> (url_host_port(address@) is Some && protocol_of(address@) is Some),
            r matches Ok(t) ==> ({
                let (host, port) = url_host_port(address@)->0;
                let protocol = protocol_of(address@)->0;
                &&& t.protocol == protocol
                &&& t.url@ == host
                &&& t.port == (match port {
                    Some(p) => p,
                    None => default_port_of(protocol),
                })
            }),
    {
        let hp = host_and_port(address);
        match hp {
            None => Err(TrackerError::InvalidUrl),
            Some((host, port)) => match TrackerProtocol::from_url(address) {
                None => Err(TrackerError::UnsupportedProtocol),
                Some(protocol) => {
                    let port = match port {
                        Some(p) => p,
                        None => protocol.default_port(),
                    };
                    Ok(TrackerUrl::new(protocol, host, port))
                },
            },
        }
    }
}

/// The magic number that opens every UDP tracker connect request.
pub const PROTOCOL_ID: u64 = 0x0417_2710_1980;

/// Action codes of the UDP tracker protocol.
pub const ACTION_CONNECT: u32 = 0;

pub const ACTION_ANNOUNCE: u32 = 1;

/// A UDP tracker connect request.
#[derive(Debug, Clone, Copy)]
pub struct ConnectionRequest {
    pub protocol_id: u64,
    pub action: u32,
    pub transaction_id: u32,
}

/// The 16 bytes of a connect request.
pub open spec fn connection_request_bytes(r: ConnectionRequest) -> Seq<u8> {
    be_u64(r.protocol_id) + be_u32(r.action) + be_u32(r.transaction_id)
}

impl ConnectionRequest {
    /// A connect request with the given transaction id.
    pub fn new(transaction_id: u32) -> (r: Self)
        ensures
            r.protocol_id == PROTOCOL_ID,
            r.action == ACTION_CONNECT,
            r.transaction_id == transaction_id,
    {
        ConnectionRequest { protocol_id: PROTOCOL_ID, action: ACTION_CONNECT, transaction_id }
    }

    pub fn to_bytes(&self) -> (r: Vec<u8>)
        ensures
            r@ == connection_request_bytes(*self),
    {
        let mut out: Vec<u8> = Vec::new();
        put_u64(&mut out, self.protocol_id);
        put_u32(&mut out, self.action);
        put_u32(&mut out, self.transaction_id);
        out
    }
}

impl Default for ConnectionRequest {
    /// A connect request with a random transaction id.
    fn default() -> (r: Self)
        ensures
            r.protocol_id == PROTOCOL_ID,
            r.action == ACTION_CONNECT,
    {
        ConnectionRequest::new(random_u32())
    }
}

/// A UDP tracker connect response.
#[derive(Debug, Clone, Copy)]
pub struct ConnectionResponse {
    pub action: u32,
    pub transaction_id: u32,
    pub connection_id: u64,
}

impl ConnectionResponse {
    /// Reads the first 16 bytes of a connect response.
    pub fn from_bytes(b: &[u8]) -> (r: Result<Self, TrackerError>)
        ensures
            r is Err <==> b@.len() < 16,
            r matches Err(e) ==> e == TrackerError::Malformed,
            r matches Ok(c) ==> c.action == u32_at(b@, 0) && c.transaction_id == u32_at(b@, 4)
                && c.connection_id == u64_at(b@, 8),
    {
        if b.len() < 16 {
            return Err(TrackerError::Malformed);
        }
        Ok(ConnectionResponse {
            action: get_u32(b, 0),
            transaction_id: get_u32(b, 4),
            connection_id: get_u64(b, 8),
        })
    }
}

/// A UDP tracker announce request.
#[derive(Debug, Clone, Copy)]
pub struct AnnounceRequest {
    pub connection_id: u64,
    pub action: u32,
    pub transaction_id: u32,
    pub info_hash: [u8; 20],
    pub peer_id: [u8; 20],
    pub downloaded: u64,
    pub left: u64,
    pub uploaded: u64,
    /// 0: none; 1: completed; 2: started; 3: stopped.
    pub event: u32,
    pub ip_address: u32,
    pub key: u32,
    pub num_want: u32,
    pub port: u16,
}

/// The 98 bytes of an announce request.
pub open spec fn announce_request_bytes(r: AnnounceRequest) -> Seq<u8> {
    be_u64(r.connection_id) + be_u32(r.action) + be_u32(r.transaction_id) + r.info_hash@
        + r.peer_id@ + be_u64(r.downloaded) + be_u64(r.left) + be_u64(r.uploaded) + be_u32(r.event)
        + be_u32(r.ip_address) + be_u32(r.key) + be_u32(r.num_want) + be_u16(r.port)
}

impl AnnounceRequest {
    /// An announce for the whole content still to fetch, with random
    /// transaction id and key.
    pub fn announce(
        connection_id: u64,
        info_hash: [u8; 20],
        peer_id: [u8; 20],
        total_size: u64,
        port: u16,
    ) -> (r: Self)
        ensures
            r.connection_id == connection_id,
            r.action == ACTION_ANNOUNCE,
            r.info_hash == info_hash,
            r.peer_id == peer_id,
            r.downloaded == 0,
            r.left == total_size,
            r.uploaded == 0,
            r.event == 0,
            r.ip_address == 0,
            r.num_want == 200,
            r.port == port,
    {
        AnnounceRequest {
            connection_id,
            action: ACTION_ANNOUNCE,
            transaction_id: random_u32(),
            info_hash,
            peer_id,
            downloaded: 0,
            left: total_size,
            uploaded: 0,
            event: 0,
            ip_address: 0,
            key: random_u32(),
            num_want: 200,
            port,
        }
    }

    pub fn to_bytes(&self) -> (r: Vec<u8>)
        ensures
            r@ == announce_request_bytes(*self),
            r@.len() == 98,
    {
        let mut out: Vec<u8> = Vec::new();
        put_u64(&mut out, self.connection_id);
        put_u32(&mut out, self.action);
        put_u32(&mut out, self.transaction_id);
        put_bytes(&mut out, self.info_hash.as_slice());
        put_bytes(&mut out, self.peer_id.as_slice());
        put_u64(&mut out, self.downloaded);
        put_u64(&mut out, self.left);
        put_u64(&mut out, self.uploaded);
        put_u32(&mut out, self.event);
        put_u32(&mut out, self.ip_address);
        put_u32(&mut out, self.key);
        put_u32(&mut out, self.num_want);
        put_u16(&mut out, self.port);
        out
    }
}

/// The fixed header of a UDP tracker announce response.
#[derive(Debug, Clone, Copy)]
pub struct AnnounceResponse {
    pub action: u32,
    pub transaction_id: u32,
    pub interval: u32,
    pub leechers: u32,
    pub seeders: u32,
}

impl AnnounceResponse {
    /// Reads the 20-byte header of an announce response.
    pub fn from_bytes(b: &[u8]) -> (r: Result<Self, TrackerError>)
        ensures
            r is Err <==> b@.len() < 20,
            r matches Err(e) ==> e == TrackerError::Malformed,
            r matches Ok(a) ==> a.action == u32_at(b@, 0) && a.transaction_id == u32_at(b@, 4)
                && a.interval == u32_at(b@, 8) && a.leechers == u32_at(b@, 12) && a.seeders
                == u32_at(b@, 16),
    {
        if b.len() < 20 {
            return Err(TrackerError::Malformed);
        }
        Ok(AnnounceResponse {
            action: get_u32(b, 0),
            transaction_id: get_u32(b, 4),
            interval: get_u32(b, 8),
            leechers: get_u32(b, 12),
            seeders: get_u32(b, 16),
        })
    }
}

/// The connection id that a connect answer `b` grants to `request`, or why
/// it grants none.
pub open spec fn connect_outcome(request: ConnectionRequest, b: Seq<u8>) -> Result<u64, TrackerError> {
    if b.len() < 16 {
        Err(TrackerError::Malformed)
    } else if u32_at(b, 0) != request.action {
        Err(TrackerError::ActionMismatch)
    } else if u32_at(b, 4) != request.transaction_id {
        Err(TrackerError::TransactionMismatch)
    } else {
        Ok(u64_at(b, 8))
    }
}

/// The error that an announce answer `b` to `request` brings, if any.
pub open spec fn announce_error(request: AnnounceRequest, b: Seq<u8>) -> Option<TrackerError> {
    if b.len() < 20 {
        Some(TrackerError::Malformed)
    } else if u32_at(b, 0) != request.action {
        Some(TrackerError::ActionMismatch)
    } else if u32_at(b, 4) != request.transaction_id {
        Some(TrackerError::TransactionMismatch)
    } else if (b.len() - 20) % 6 != 0 {
        Some(TrackerError::Malformed)
    } else {
        None
    }
}

/// The client for UDP trackers.
#[derive(Debug, Default)]
pub struct UdpClient {}

impl UdpClient {
    /// The connection id in a tracker's answer to `request`; the answer must
    /// carry the request's action and transaction id.
    pub fn obtain_connection_id(
        &self,
        tracker: &TrackerUrl,
        request: &ConnectionRequest,
        response: &[u8],
    ) -> (r: Result<u64, TrackerError>)
        ensures
            tracker.protocol != TrackerProtocol::UDP ==> r == Err::<u64, TrackerError>(
                TrackerError::UnsupportedProtocol,
            ),
            tracker.protocol == TrackerProtocol::UDP ==> r == connect_outcome(*request, response@),
    {
        if tracker.protocol != TrackerProtocol::UDP {
            return Err(TrackerError::UnsupportedProtocol);
        }
        let c = ConnectionResponse::from_bytes(response)?;
        if c.action != request.action {
            Err(TrackerError::ActionMismatch)
        } else if c.transaction_id != request.transaction_id {
            Err(TrackerError::TransactionMismatch)
        } else {
            Ok(c.connection_id)
        }
    }

    /// The peers in a tracker's answer to `request`: a 20-byte header that
    /// must carry the request's action and transaction id, then 6 bytes per
    /// peer.
    pub fn get_peers_list(
        &self,
        tracker: &TrackerUrl,
        request: &AnnounceRequest,
        response: &[u8],
    ) -> (r: Result<Vec<Peer>, TrackerError>)
        ensures
            tracker.protocol != TrackerProtocol::UDP ==> r == Err::<Vec<Peer>, TrackerError>(
                TrackerError::UnsupportedProtocol,
            ),
            tracker.protocol == TrackerProtocol::UDP ==> (match r {
                Ok(v) => announce_error(*request, response@) is None && peers_of(
                    response@.subrange(20, response@.len() as int),
                    v@,
                ),
                Err(e) => announce_error(*request, response@) == Some(e),
            }),
    {
        if tracker.protocol != TrackerProtocol::UDP {
            return Err(TrackerError::UnsupportedProtocol);
        }
        let header = AnnounceResponse::from_bytes(response)?;
        if header.action != request.action {
            return Err(TrackerError::ActionMismatch);
        }
        if header.transaction_id != request.transaction_id {
            return Err(TrackerError::TransactionMismatch);
        }
        let rest = crate::wire::copy_range(response, 20, response.len());
        Peer::from_bytes(rest.as_slice())
    }
}

/// The client for HTTP trackers, which need no connect exchange.
#[derive(Debug, Default)]
pub struct HttpClient {}

impl HttpClient {
    /// HTTP trackers have no connection id: 0 stands for it.
    pub fn obtain_connection_id(&self, tracker: &TrackerUrl) -> (r: Result<u64, TrackerError>)
        ensures
            tracker.protocol == TrackerProtocol::HTTP ==> r == Ok::<u64, TrackerError>(0),
            tracker.protocol != TrackerProtocol::HTTP ==> r == Err::<u64, TrackerError>(
                TrackerError::UnsupportedProtocol,
            ),
    {
        if tracker.protocol != TrackerProtocol::HTTP {
            return Err(TrackerError::UnsupportedProtocol);
        }
        Ok(0)
    }

    /// The peers in the compact (6 bytes per peer) list of an HTTP answer.
    pub fn get_peers_list(&self, tracker: &TrackerUrl, compact: &[u8]) -> (r: Result<
        Vec<Peer>,
        TrackerError,
    >)
        ensures
            tracker.protocol != TrackerProtocol::HTTP ==> r == Err::<Vec<Peer>, TrackerError>(
                TrackerError::UnsupportedProtocol,
            ),
            tracker.protocol == TrackerProtocol::HTTP ==> (match r {
                Ok(v) => peers_of(compact@, v@),
                Err(e) => e == TrackerError::Malformed && compact@.len() % 6 != 0,
            }),
    {
        if tracker.protocol != TrackerProtocol::HTTP {
            return Err(TrackerError::UnsupportedProtocol);
        }
        Peer::from_bytes(compact)
    }
}

/// The client of a tracker, chosen by the protocol of its endpoint.
#[derive(Debug)]
pub enum NetworkClient {
    Udp(UdpClient),
    Http(HttpClient),
}

impl NetworkClient {
    /// The client for a protocol, where there is one.
    pub fn for_protocol(p: TrackerProtocol) -> (r: Option<NetworkClient>)
        ensures
            p == TrackerProtocol::UDP ==> r matches Some(NetworkClient::Udp(_)),
            p == TrackerProtocol::HTTP ==> r matches Some(NetworkClient::Http(_)),
            (p == TrackerProtocol::TCP || p == TrackerProtocol::WSS) ==> r is None,
    {
        match p {
            TrackerProtocol::UDP => Some(NetworkClient::Udp(UdpClient {})),
            TrackerProtocol::HTTP => Some(NetworkClient::Http(HttpClient {})),
            _ => None,
        }
    }

    /// The connection id that a tracker's answer grants; the UDP client
    /// checks the answer against `request`, HTTP trackers need none.
    pub fn obtain_connection_id(
        &self,
        tracker: &TrackerUrl,
        request: &ConnectionRequest,
        response: &[u8],
    ) -> (r: Result<u64, TrackerError>)
        ensures
            self is Udp ==> (tracker.protocol != TrackerProtocol::UDP ==> r == Err::<u64, TrackerError>(
                TrackerError::UnsupportedProtocol,
            )) && (tracker.protocol == TrackerProtocol::UDP ==> r == connect_outcome(*request, response@)),
            self is Http ==> (tracker.protocol == TrackerProtocol::HTTP ==> r == Ok::<u64, TrackerError>(0))
                && (tracker.protocol != TrackerProtocol::HTTP ==> r == Err::<u64, TrackerError>(
                TrackerError::UnsupportedProtocol,
            )),
    {
        match self {
            NetworkClient::Udp(c) => c.obtain_connection_id(tracker, request, response),
            NetworkClient::Http(c) => c.obtain_connection_id(tracker),
        }
    }

    /// The peers in a tracker's answer: a whole UDP announce answer to
    /// `request`, or the compact peer list of an HTTP answer.
    pub fn get_peers_list(
        &self,
        tracker: &TrackerUrl,
        request: &AnnounceRequest,
        response: &[u8],
    ) -> (r: Result<Vec<Peer>, TrackerError>)
        ensures
            self is Udp ==> (tracker.protocol != TrackerProtocol::UDP ==> r == Err::<Vec<Peer>, TrackerError>(
                TrackerError::UnsupportedProtocol,
            )) && (tracker.protocol == TrackerProtocol::UDP ==> (match r {
                Ok(v) => announce_error(*request, response@) is None && peers_of(
                    response@.subrange(20, response@.len() as int),
                    v@,
                ),
                Err(e) => announce_error(*request, response@) == Some(e),
            })),
            self is Http ==> (tracker.protocol != TrackerProtocol::HTTP ==> r == Err::<Vec<Peer>, TrackerError>(
                TrackerError::UnsupportedProtocol,
            )) && (tracker.protocol == TrackerProtocol::HTTP ==> (match r {
                Ok(v) => peers_of(response@, v@),
                Err(e) => e == TrackerError::Malformed && response@.len() % 6 != 0,
            })),
    {
        match self {
            NetworkClient::Udp(c) => c.get_peers_list(tracker, request, response),
            NetworkClient::Http(c) => c.get_peers_list(tracker, response),
        }
    }
}

/// An answer whose transaction id differs from the request's never yields a
/// connection id.
pub proof fn lemma_foreign_transaction_rejected(request: ConnectionRequest, b: Seq<u8>)
    requires
        b.len() >= 8,
        u32_at(b, 4) != request.transaction_id,
    ensures
        connect_outcome(request, b) is Err,
{
}

} // verus!
