use sha1::{Digest, Sha1};
use torrentino::cli::{Arguments, Cli, CliError};
use torrentino::engine::{Action, Event, Phase, TorrentEngine};
use torrentino::peer::Peer;
use torrentino::torrent::{Torrent, TorrentInfo};
use torrentino::work::{PieceState, WorkTable};

fn digest(data: &[u8]) -> [u8; 20] {
    Sha1::digest(data).into()
}

fn one_piece_torrent(block: &[u8], announce: &str, tiers: Vec<Vec<String>>) -> Torrent {
    Torrent {
        announce: Some(announce.to_string()),
        announce_list: Some(tiers),
        comment: None,
        created_by: None,
        creation_date: None,
        encoding: None,
        info: TorrentInfo {
            name: "one".to_string(),
            md5sum: None,
            length: Some(block.len() as i64),
            files: None,
            pieces: digest(block).to_vec(),
            piece_length: block.len() as i64,
            private: None,
        },
        httpseeds: None,
        info_encoded: vec![1, 2, 3],
    }
}

fn peer() -> Peer {
    Peer { ip: [127, 0, 0, 1], port: 6881 }
}

fn kinds(actions: &[Action]) -> Vec<String> {
    actions
        .iter()
        .map(|a| match a {
            Action::AskTracker(i) => format!("ask {}", i),
            Action::Connect(p) => format!("connect {}", p),
            Action::Request(p, i) => format!("request {} {}", p, i),
            Action::Store(i, d) => format!("store {} {}", i, d.len()),
            Action::Close(p) => format!("close {}", p),
            Action::Finish => "finish".to_string(),
            Action::Fail => "fail".to_string(),
        })
        .collect()
}

#[test]
fn one_piece_download_completes() {
    let block = vec![0xabu8; 16 * 1024];
    let torrent = one_piece_torrent(&block, "udp://tracker.example.org:6969/announce", vec![]);
    let mut engine = TorrentEngine::start(4);
    assert_eq!(kinds(&engine.add_new_torrent(&torrent)), vec!["ask 0"]);
    assert_eq!(engine.tracker(0).port, 6969);
    assert_eq!(
        kinds(&engine.handle(Event::TrackerAnswered(vec![peer()]))),
        vec!["connect 0"]
    );
    let mut bits = vec![false; 8];
    bits[0] = true;
    assert_eq!(kinds(&engine.handle(Event::SessionReady(0, bits))), vec!["request 0 0"]);
    assert_eq!(engine.piece_state(0), Some(PieceState::InFlight(0)));
    let actions = engine.handle(Event::PieceReceived(0, 0, block.clone()));
    assert_eq!(kinds(&actions), vec!["store 0 16384", "close 0", "finish"]);
    assert_eq!(engine.piece_state(0), Some(PieceState::Verified));
    assert_eq!(engine.current_phase(), Phase::Finished);
}

#[test]
fn wrong_block_fails_without_other_peers() {
    let block = vec![0xabu8; 16 * 1024];
    let torrent = one_piece_torrent(&block, "udp://tracker.example.org:6969/announce", vec![]);
    let mut engine = TorrentEngine::start(4);
    engine.add_new_torrent(&torrent);
    engine.handle(Event::TrackerAnswered(vec![peer()]));
    engine.handle(Event::SessionReady(0, vec![true, false, false, false, false, false, false, false]));
    let bad = vec![0u8; 16 * 1024];
    let actions = engine.handle(Event::PieceReceived(0, 0, bad));
    assert_eq!(kinds(&actions), vec!["close 0", "fail"]);
    assert_eq!(engine.piece_state(0), Some(PieceState::Missing));
    assert_eq!(engine.current_phase(), Phase::Failed);
}

#[test]
fn tracker_timeout_falls_back_to_next_tier() {
    let block = vec![1u8; 64];
    let torrent = one_piece_torrent(
        &block,
        "udp://first.example.org:6969/announce",
        vec![
            vec!["udp://first.example.org:6969/announce".to_string()],
            vec!["udp://second.example.org:7000/announce".to_string()],
        ],
    );
    let mut engine = TorrentEngine::start(1);
    assert_eq!(kinds(&engine.add_new_torrent(&torrent)), vec!["ask 0"]);
    assert_eq!(kinds(&engine.handle(Event::TrackerFailed)), vec!["ask 1"]);
    assert_eq!(kinds(&engine.handle(Event::TrackerFailed)), vec!["ask 2"]);
    assert_eq!(engine.tracker(2).url, "second.example.org");
    assert_eq!(engine.current_phase(), Phase::Discovering);
    assert_eq!(kinds(&engine.handle(Event::TrackerFailed)), vec!["fail"]);
    assert_eq!(engine.current_phase(), Phase::Failed);
}

#[test]
fn failed_session_gives_work_back_and_opens_another() {
    let block = vec![3u8; 32];
    let torrent = one_piece_torrent(&block, "udp://t.example.org:1/announce", vec![]);
    let mut engine = TorrentEngine::start(1);
    engine.add_new_torrent(&torrent);
    assert_eq!(
        kinds(&engine.handle(Event::TrackerAnswered(vec![peer(), peer()]))),
        vec!["connect 0"]
    );
    let bits = vec![true, false, false, false, false, false, false, false];
    assert_eq!(kinds(&engine.handle(Event::SessionReady(0, bits.clone()))), vec!["request 0 0"]);
    assert_eq!(kinds(&engine.handle(Event::SessionFailed(0))), vec!["close 0", "connect 1"]);
    assert_eq!(engine.piece_state(0), Some(PieceState::Missing));
    assert_eq!(kinds(&engine.handle(Event::SessionReady(1, bits))), vec!["request 1 0"]);
    assert_eq!(engine.piece_state(0), Some(PieceState::InFlight(1)));
}

#[test]
fn bitfield_of_wrong_size_closes_the_session() {
    let block = vec![3u8; 32];
    let torrent = one_piece_torrent(&block, "udp://t.example.org:1/announce", vec![]);
    let mut engine = TorrentEngine::start(1);
    engine.add_new_torrent(&torrent);
    engine.handle(Event::TrackerAnswered(vec![peer()]));
    let actions = engine.handle(Event::SessionReady(0, vec![true; 16]));
    assert_eq!(kinds(&actions), vec!["close 0", "fail"]);
}

#[test]
fn no_supported_tracker_fails_at_once() {
    let torrent = one_piece_torrent(&[1], "wss://t.example.org/announce", vec![]);
    let mut engine = TorrentEngine::start(1);
    assert_eq!(kinds(&engine.add_new_torrent(&torrent)), vec!["fail"]);
}

#[test]
fn work_table_transitions() {
    let data = b"piece data".to_vec();
    let mut table = WorkTable::new(vec![digest(&data), digest(b"other")]);
    assert_eq!(table.len(), 2);
    assert!(table.assign(0, 7));
    // a piece in flight cannot go to another peer
    assert!(!table.assign(0, 8));
    assert_eq!(table.state(0), PieceState::InFlight(7));
    // data from a peer that does not hold the piece changes nothing
    assert!(!table.complete(0, 8, &data));
    assert_eq!(table.state(0), PieceState::InFlight(7));
    table.release_peer(7);
    assert_eq!(table.state(0), PieceState::Missing);
    assert!(table.assign(0, 8));
    assert!(table.complete(0, 8, &data));
    assert_eq!(table.state(0), PieceState::Verified);
    assert!(!table.assign(0, 9));
    assert!(!table.is_done());
    // a wrong digest sends the piece back and strikes the peer for it
    assert!(table.assign(1, 9));
    assert!(!table.complete(1, 9, b"bad"));
    assert_eq!(table.state(1), PieceState::Missing);
    assert_eq!(table.select_piece(&vec![true, true], &vec![0, 0], 9), None);
    assert_eq!(table.select_piece(&vec![true, true], &vec![0, 0], 3), Some(1));
    assert!(table.assign(1, 3));
    assert!(table.complete(1, 3, b"other"));
    assert!(table.is_done());
}

#[test]
fn rarest_piece_first() {
    let mut table = WorkTable::new(vec![[0; 20], [1; 20], [2; 20], [3; 20]]);
    assert_eq!(table.select_piece(&vec![true, true, true, true], &vec![3, 1, 2, 1], 0), Some(1));
    assert_eq!(table.select_piece(&vec![true, false, true, true], &vec![3, 1, 2, 1], 0), Some(3));
    table.assign(3, 5);
    assert_eq!(table.select_piece(&vec![true, false, true, true], &vec![3, 1, 2, 1], 0), Some(2));
    assert_eq!(table.select_piece(&vec![false], &vec![3, 1, 2, 1], 0), None);
}

#[test]
fn cli_checks_the_torrent_file() {
    let cli = Cli::new(Arguments {
        file: "no_torrent_file".to_string(),
        threads: 1,
        select: None,
        exclude: None,
        output: Some("target".to_string()),
    });
    assert_eq!(cli.check_file_existence(false, false), Err(CliError::NoTorrentFile));
    assert_eq!(cli.check_file_existence(true, false), Err(CliError::IsDirectory));
    assert_eq!(cli.check_file_existence(true, true), Ok(()));
    assert_eq!(CliError::NoTorrentFile.message(), "Torrent file doesn't exists");
    assert!(cli.process(false, false).is_err());
    assert_eq!(cli.process(true, true).ok().map(|e| e.current_phase()), Some(Phase::Idle));
}

#[test]
fn unusable_tracker_addresses_are_skipped_in_order() {
    let block = vec![2u8; 8];
    let torrent = one_piece_torrent(
        &block,
        "not a url",
        vec![
            vec!["wss://socket.example.org/announce".to_string()],
            vec!["http://web.example.org:81/announce".to_string()],
            vec![],
            vec!["udp://udp.example.org/announce".to_string()],
        ],
    );
    let mut engine = TorrentEngine::start(0);
    assert_eq!(kinds(&engine.add_new_torrent(&torrent)), vec!["ask 0"]);
    assert_eq!(engine.tracker_count(), 2);
    assert_eq!(engine.tracker(0).url, "web.example.org");
    assert_eq!(engine.tracker(0).port, 81);
    assert_eq!(engine.tracker(1).url, "udp.example.org");
    assert_eq!(engine.tracker(1).port, 6891);
    // an empty answer moves to the next tracker, like a failure
    assert_eq!(kinds(&engine.handle(Event::TrackerAnswered(vec![]))), vec!["ask 1"]);
    assert_eq!(kinds(&engine.handle(Event::TrackerAnswered(vec![]))), vec!["fail"]);
}

#[test]
fn session_limit_queues_further_peers() {
    let block = vec![2u8; 8];
    let torrent = one_piece_torrent(&block, "udp://t.example.org:1/announce", vec![]);
    let mut engine = TorrentEngine::start(2);
    engine.add_new_torrent(&torrent);
    let actions = engine.handle(Event::TrackerAnswered(vec![peer(), peer(), peer()]));
    assert_eq!(kinds(&actions), vec!["connect 0", "connect 1"]);
    // a peer without the piece is closed and the queued one is opened
    let none = vec![false; 8];
    assert_eq!(kinds(&engine.handle(Event::SessionReady(0, none))), vec!["close 0", "connect 2"]);
}

#[test]
fn last_session_failing_fails_the_download() {
    let block = vec![3u8; 32];
    let torrent = one_piece_torrent(&block, "udp://t.example.org:1/announce", vec![]);
    let mut engine = TorrentEngine::start(1);
    engine.add_new_torrent(&torrent);
    engine.handle(Event::TrackerAnswered(vec![peer(), peer()]));
    engine.handle(Event::SessionReady(0, vec![false; 8]));
    // peer 0 was closed for lack of pieces; peer 1 is connecting
    let bits = vec![true, false, false, false, false, false, false, false];
    assert_eq!(kinds(&engine.handle(Event::SessionReady(1, bits))), vec!["request 1 0"]);
    engine.handle(Event::SessionFailed(1));
    assert_eq!(engine.piece_state(0), Some(PieceState::Missing));
    assert_eq!(engine.current_phase(), Phase::Failed);
}
