use torrentino::ids::generate_peer_id;
use torrentino::peer::Peer;
use torrentino::tracker::{
    AnnounceRequest, ConnectionRequest, HttpClient, NetworkClient, TrackerError, TrackerProtocol, TrackerUrl,
    UdpClient, PROTOCOL_ID,
};
use torrentino::torrent::{Torrent, TorrentFile, TorrentInfo};

fn connect_answer(action: u32, transaction_id: u32, connection_id: u64) -> Vec<u8> {
    let mut b = Vec::new();
    b.extend_from_slice(&action.to_be_bytes());
    b.extend_from_slice(&transaction_id.to_be_bytes());
    b.extend_from_slice(&connection_id.to_be_bytes());
    b
}

fn sample_torrent(files: Option<Vec<u64>>, length: Option<i64>) -> Torrent {
    Torrent {
        announce: Some("udp://tracker.example.org:6969/announce".to_string()),
        announce_list: Some(vec![
            vec!["udp://tracker.example.org:6969/announce".to_string()],
            vec![],
            vec!["http://other.example.org/announce".to_string(), "udp://x:1".to_string()],
        ]),
        comment: None,
        created_by: None,
        creation_date: None,
        encoding: None,
        info: TorrentInfo {
            name: "sample".to_string(),
            md5sum: None,
            length,
            files: files.map(|ls| {
                ls.into_iter()
                    .map(|l| TorrentFile { path: vec!["f".to_string()], length: l, md5sum: None })
                    .collect()
            }),
            pieces: vec![1u8; 40],
            piece_length: 16384,
            private: None,
        },
        httpseeds: None,
        info_encoded: b"abc".to_vec(),
    }
}

#[test]
fn obtain_connection_id() {
    // read tracker url info from .torrent file. See, previous section
    let tracker: TrackerUrl = TrackerUrl {
        protocol: TrackerProtocol::UDP,
        url: "localhost".to_string(),
        port: 6969,
    };

    let client = UdpClient::default();
    let request = ConnectionRequest::default();
    let answer = connect_answer(0, request.transaction_id, 0x1122_3344_5566_7788);
    let connection_id = client
        .obtain_connection_id(&tracker, &request, &answer)
        .expect("Unable establish connection");
    assert_eq!(connection_id, 0x1122_3344_5566_7788);
}

#[test]
fn connect_answer_with_foreign_transaction_is_rejected() {
    let tracker = TrackerUrl::new(TrackerProtocol::UDP, "localhost".to_string(), 6969);
    let request = ConnectionRequest::new(42);
    let client = UdpClient::default();
    let answer = connect_answer(0, 43, 5);
    assert_eq!(
        client.obtain_connection_id(&tracker, &request, &answer),
        Err(TrackerError::TransactionMismatch)
    );
    let answer = connect_answer(1, 42, 5);
    assert_eq!(
        client.obtain_connection_id(&tracker, &request, &answer),
        Err(TrackerError::ActionMismatch)
    );
    assert_eq!(
        client.obtain_connection_id(&tracker, &request, &answer[..15]),
        Err(TrackerError::Malformed)
    );
    let http = TrackerUrl::new(TrackerProtocol::HTTP, "localhost".to_string(), 80);
    assert_eq!(
        client.obtain_connection_id(&http, &request, &connect_answer(0, 42, 5)),
        Err(TrackerError::UnsupportedProtocol)
    );
}

#[test]
fn connect_request_bytes() {
    let request = ConnectionRequest::new(0x0a0b0c0d);
    assert_eq!(request.protocol_id, PROTOCOL_ID);
    assert_eq!(
        request.to_bytes(),
        vec![0, 0, 0x04, 0x17, 0x27, 0x10, 0x19, 0x80, 0, 0, 0, 0, 0x0a, 0x0b, 0x0c, 0x0d]
    );
}

#[test]
fn generate_announce_request() {
    let torrent = sample_torrent(Some(vec![100, 200]), None);

    let connection_id: u64 = u64::MAX;
    let peer_id: [u8; 20] = generate_peer_id();

    let info_hash = torrent.info_hash();
    let total_size = torrent.total_size();

    let port: u16 = 6891;

    let request = AnnounceRequest::announce(connection_id, info_hash, peer_id, total_size, port);

    let request_content = request.to_bytes();

    assert_eq!(request_content.len(), 98);
    assert_eq!(&request_content[8..12], &[0, 0, 0, 1]);
    assert_eq!(&request_content[16..36], &info_hash);
    assert_eq!(&request_content[64..72], &300u64.to_be_bytes());
    assert_eq!(&request_content[92..96], &200u32.to_be_bytes());
    assert_eq!(&request_content[96..98], &6891u16.to_be_bytes());
}

#[test]
fn info_hash_is_sha1_of_encoded_info() {
    let torrent = sample_torrent(None, Some(5));
    let expected: [u8; 20] = [
        0xa9, 0x99, 0x3e, 0x36, 0x47, 0x06, 0x81, 0x6a, 0xba, 0x3e, 0x25, 0x71, 0x78, 0x50, 0xc2,
        0x6c, 0x9c, 0xd0, 0xd8, 0x9d,
    ];
    assert_eq!(torrent.info_hash(), expected);
}

#[test]
fn total_size_of_single_and_multi_file_torrents() {
    assert_eq!(sample_torrent(None, Some(5)).total_size(), 5);
    assert_eq!(sample_torrent(None, None).total_size(), 0);
    assert_eq!(sample_torrent(Some(vec![1, 2, 3]), None).total_size(), 6);
    assert_eq!(sample_torrent(Some(vec![u64::MAX, 2]), None).total_size(), u64::MAX);
}

#[test]
fn trackers_in_tier_order() {
    let t = sample_torrent(None, None);
    assert_eq!(
        t.trackers_list(),
        vec![
            "udp://tracker.example.org:6969/announce".to_string(),
            "udp://tracker.example.org:6969/announce".to_string(),
            "http://other.example.org/announce".to_string(),
        ]
    );
    assert_eq!(t.piece_count(), 2);
    assert_eq!(t.piece_hashes(), vec![[1u8; 20], [1u8; 20]]);
}

#[test]
fn announce_answer_yields_peers() {
    let tracker = TrackerUrl::new(TrackerProtocol::UDP, "localhost".to_string(), 6969);
    let request = AnnounceRequest::announce(1, [0; 20], [0; 20], 10, 6881);
    let mut answer = Vec::new();
    answer.extend_from_slice(&1u32.to_be_bytes());
    answer.extend_from_slice(&request.transaction_id.to_be_bytes());
    answer.extend_from_slice(&[0; 12]);
    answer.extend_from_slice(&[10, 0, 0, 1, 0x1a, 0xe1, 192, 168, 1, 2, 0, 80]);
    let client = UdpClient::default();
    let peers = client.get_peers_list(&tracker, &request, &answer).unwrap();
    assert_eq!(peers.len(), 2);
    assert_eq!(peers[0].ip, [10, 0, 0, 1]);
    assert_eq!(peers[0].port, 6881);
    assert_eq!(peers[1].ip, [192, 168, 1, 2]);
    assert_eq!(peers[1].port, 80);

    answer.push(1);
    assert_eq!(client.get_peers_list(&tracker, &request, &answer).unwrap_err(), TrackerError::Malformed);
    answer.pop();
    answer[7] ^= 1;
    assert_eq!(
        client.get_peers_list(&tracker, &request, &answer).unwrap_err(),
        TrackerError::TransactionMismatch
    );
}

#[test]
fn peer_decoding() {
    let peers = Peer::from_bytes(&[1, 2, 3, 4, 0x1f, 0x90]).unwrap();
    assert_eq!(peers.len(), 1);
    assert_eq!(peers[0].ip, [1, 2, 3, 4]);
    assert_eq!(peers[0].port, 8080);
    assert!(Peer::from_bytes(&[]).unwrap().is_empty());
    assert_eq!(Peer::from_bytes(&[1, 2, 3, 4, 5]).unwrap_err(), TrackerError::Malformed);
    assert_eq!(Peer::from_bytes(&[0; 7]).unwrap_err(), TrackerError::Malformed);
}

#[test]
fn http_client() {
    let http = TrackerUrl::new(TrackerProtocol::HTTP, "h".to_string(), 80);
    let udp = TrackerUrl::new(TrackerProtocol::UDP, "h".to_string(), 80);
    let client = HttpClient::default();
    assert_eq!(client.obtain_connection_id(&http), Ok(0));
    assert_eq!(client.obtain_connection_id(&udp), Err(TrackerError::UnsupportedProtocol));
    assert_eq!(client.get_peers_list(&http, &[1, 2, 3, 4, 0, 1]).unwrap()[0].port, 1);
}

#[test]
fn tracker_protocols_and_urls() {
    assert_eq!(TrackerProtocol::from_url("udp://a"), Some(TrackerProtocol::UDP));
    assert_eq!(TrackerProtocol::from_url("wss://a"), Some(TrackerProtocol::WSS));
    assert_eq!(TrackerProtocol::from_url("tcp://a"), Some(TrackerProtocol::TCP));
    assert_eq!(TrackerProtocol::from_url("https://a"), Some(TrackerProtocol::HTTP));
    assert_eq!(TrackerProtocol::from_url("ftp://a"), None);
    assert_eq!(TrackerProtocol::UDP.default_port(), 6891);
    assert_eq!(TrackerProtocol::TCP.default_port(), 8080);
    assert_eq!(TrackerProtocol::HTTP.default_port(), 80);
    assert_eq!(TrackerProtocol::default(), TrackerProtocol::UDP);

    let t = TrackerUrl::parse("udp://tracker.example.org:1337/announce").unwrap();
    assert_eq!(t.protocol, TrackerProtocol::UDP);
    assert_eq!(t.url, "tracker.example.org");
    assert_eq!(t.port, 1337);
    let t = TrackerUrl::parse("udp://tracker.example.org/announce").unwrap();
    assert_eq!(t.port, 6891);
    assert_eq!(TrackerUrl::parse("not a url").unwrap_err(), TrackerError::InvalidUrl);
    assert_eq!(
        TrackerUrl::parse("ftp://tracker.example.org/").unwrap_err(),
        TrackerError::UnsupportedProtocol
    );
}

#[test]
fn peer_ids_are_alphanumeric() {
    let id = generate_peer_id();
    assert!(id.iter().all(|c| c.is_ascii_alphanumeric()));
}

#[test]
fn piece_sizes() {
    let mut t = sample_torrent(None, Some(40000));
    t.info.piece_length = 16384;
    assert_eq!(t.piece_size(0), 16384);
    assert_eq!(t.piece_size(1), 16384);
    assert_eq!(t.piece_size(2), 40000 - 2 * 16384);
    assert_eq!(t.piece_size(3), 0);
    t.info.piece_length = 0;
    assert_eq!(t.piece_size(0), 0);
}

#[test]
fn clients_by_protocol() {
    assert!(matches!(NetworkClient::for_protocol(TrackerProtocol::UDP), Some(NetworkClient::Udp(_))));
    assert!(matches!(NetworkClient::for_protocol(TrackerProtocol::HTTP), Some(NetworkClient::Http(_))));
    assert!(NetworkClient::for_protocol(TrackerProtocol::WSS).is_none());
    let http = TrackerUrl::new(TrackerProtocol::HTTP, "h".to_string(), 80);
    let client = NetworkClient::for_protocol(TrackerProtocol::HTTP).unwrap();
    let request = ConnectionRequest::new(1);
    assert_eq!(client.obtain_connection_id(&http, &request, &[]), Ok(0));
    let announce = AnnounceRequest::announce(0, [0; 20], [0; 20], 1, 6881);
    let peers = client.get_peers_list(&http, &announce, &[8, 8, 4, 4, 0, 53]).unwrap();
    assert_eq!(peers[0].ip, [8, 8, 4, 4]);
    assert_eq!(peers[0].port, 53);
}
