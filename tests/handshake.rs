use torrentino::handshake::{HandshakeRequest, HANDSHAKE_SIZE};

#[test]
fn build_default_and_serialize() {
    let peer_id = [0u8; 20];
    let info_hash = [0u8; 20];
    let handshake = HandshakeRequest::create(info_hash, peer_id);

    let request_content = handshake.as_bytes();
    assert_eq!(request_content.len(), HANDSHAKE_SIZE);
}

#[test]
fn handshake_layout() {
    let handshake = HandshakeRequest::create([7u8; 20], [9u8; 20]);
    let bytes = handshake.as_bytes();
    assert_eq!(bytes[0], 19);
    assert_eq!(&bytes[1..20], b"BitTorrent protocol");
    assert_eq!(&bytes[20..28], &[0u8; 8]);
    assert_eq!(&bytes[28..48], &[7u8; 20]);
    assert_eq!(&bytes[48..68], &[9u8; 20]);
}

#[test]
fn handshake_validation() {
    let handshake = HandshakeRequest::create([7u8; 20], [9u8; 20]);
    let mine = handshake.as_bytes();
    assert!(handshake.is_valid_response(&mine));

    // reserved bytes and the remote peer id may differ
    let mut answer = mine.clone();
    answer[20] = 0x10;
    for b in &mut answer[48..68] {
        *b = 1;
    }
    assert!(handshake.is_valid_response(&answer));

    // too short
    assert!(!handshake.is_valid_response(&mine[..67]));
    // wrong protocol string
    let mut wrong = mine.clone();
    wrong[5] = b'x';
    assert!(!handshake.is_valid_response(&wrong));
    // wrong length byte
    let mut wrong_len = mine.clone();
    wrong_len[0] = 18;
    assert!(!handshake.is_valid_response(&wrong_len));
    // another info hash
    let mut other = mine.clone();
    other[30] = 0;
    assert!(!handshake.is_valid_response(&other));
}
