use torrentino::handshake::HandshakeRequest;
use torrentino::messages::MessageType;
use torrentino::session::{PeerSession, SessionFault, SessionStage, SessionStep};

fn ready_session(pieces: usize) -> PeerSession {
    let mut s = PeerSession::new([4u8; 20], [5u8; 20], pieces);
    let hello = s.connected();
    assert_eq!(hello, HandshakeRequest::create([4u8; 20], [5u8; 20]).as_bytes());
    let answer = HandshakeRequest::create([4u8; 20], [6u8; 20]).as_bytes();
    assert_eq!(s.on_handshake(&answer).unwrap(), vec![0, 0, 0, 1, 2]);
    assert_eq!(s.current_stage(), SessionStage::Interested);
    s
}

#[test]
fn session_rejects_foreign_handshake() {
    let mut s = PeerSession::new([4u8; 20], [5u8; 20], 1);
    s.connected();
    let answer = HandshakeRequest::create([9u8; 20], [6u8; 20]).as_bytes();
    assert_eq!(s.on_handshake(&answer).unwrap_err(), SessionFault::BadHandshake);
    assert_eq!(s.current_stage(), SessionStage::Closed);
    let mut short = PeerSession::new([4u8; 20], [5u8; 20], 1);
    short.connected();
    assert_eq!(short.on_handshake(&[19; 10]).unwrap_err(), SessionFault::BadHandshake);
}

#[test]
fn session_merges_bitfield_and_haves() {
    let mut s = ready_session(10);
    let mut bits = vec![false; 16];
    bits[1] = true;
    assert!(matches!(s.on_message(MessageType::Bitfield(bits)), SessionStep::Nothing));
    assert!(matches!(s.on_message(MessageType::Have(7)), SessionStep::Nothing));
    match s.on_message(MessageType::Unchoke) {
        SessionStep::Available(have) => {
            let mut expected = vec![false; 10];
            expected[1] = true;
            expected[7] = true;
            assert_eq!(have, expected);
        }
        _ => panic!("Unexpected step"),
    }
    assert_eq!(s.current_stage(), SessionStage::Exchanging);
}

#[test]
fn session_closes_on_protocol_violations() {
    let mut s = ready_session(10);
    assert!(matches!(
        s.on_message(MessageType::Bitfield(vec![false; 8])),
        SessionStep::Close(SessionFault::BadBitfield)
    ));
    let mut s = ready_session(10);
    assert!(matches!(s.on_message(MessageType::Have(10)), SessionStep::Close(SessionFault::BadPieceIndex)));
    let mut s = ready_session(10);
    assert!(matches!(
        s.on_message(MessageType::Piece(0, 0, vec![1])),
        SessionStep::Close(SessionFault::UnexpectedMessage)
    ));
    let mut fresh = PeerSession::new([4u8; 20], [5u8; 20], 1);
    assert!(matches!(
        fresh.on_message(MessageType::Unchoke),
        SessionStep::Close(SessionFault::UnexpectedMessage)
    ));
}

#[test]
fn session_fetches_a_piece_block_by_block() {
    let mut s = ready_session(2);
    s.on_message(MessageType::Bitfield(vec![true, true, false, false, false, false, false, false]));
    s.on_message(MessageType::Unchoke);
    let size: u32 = 16384 + 100;
    let first = s.request_piece(1, size).unwrap();
    assert_eq!(first, MessageType::Request(1, 0, 16384).to_bytes());
    // no second piece while one is under way
    assert!(s.request_piece(0, 10).is_none());
    match s.on_message(MessageType::Piece(1, 0, vec![7u8; 16384])) {
        SessionStep::Send(next) => assert_eq!(next, MessageType::Request(1, 16384, 100).to_bytes()),
        _ => panic!("Unexpected step"),
    }
    match s.on_message(MessageType::Piece(1, 16384, vec![8u8; 100])) {
        SessionStep::PieceDone(piece, data) => {
            assert_eq!(piece, 1);
            assert_eq!(data.len(), 16484);
            assert_eq!(data[0], 7);
            assert_eq!(data[16483], 8);
        }
        _ => panic!("Unexpected step"),
    }
    assert!(s.request_piece(0, 10).is_some());
}

#[test]
fn session_waits_for_unchoke_before_requests() {
    let mut s = ready_session(1);
    s.on_message(MessageType::Bitfield(vec![true, false, false, false, false, false, false, false]));
    assert!(s.request_piece(0, 10).is_none());
    s.on_message(MessageType::Unchoke);
    s.on_message(MessageType::Choke);
    assert!(s.request_piece(0, 10).is_none());
    s.on_message(MessageType::Unchoke);
    assert!(s.request_piece(0, 10).is_some());
    s.failed();
    assert_eq!(s.current_stage(), SessionStage::Closed);
}
