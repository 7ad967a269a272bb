use torrentino::messages::{MessageError, MessageType};

fn round_trip(m: MessageType) -> MessageType {
    MessageType::from_bytes(&m.to_bytes()).unwrap()
}

#[test]
fn test_build_interested_request() {
    let bytes = MessageType::Interested.to_bytes();

    assert_eq!(bytes.to_vec(), vec![0, 0, 0, 1, 2]);
}

#[test]
fn test_bitfield_request() {
    let content = [
        0, 0, 0, 25, 5, 255, 255, 255, 255, 255, 255, 255, 255, 255, 255, 255, 255, 255, 255,
        255, 255, 255, 255, 255, 255, 255, 255, 255, 254,
    ];

    let bitfield = MessageType::from_bytes(&content).unwrap();

    match bitfield {
        MessageType::Bitfield(bit) => {
            // one bit per piece: 24 bytes carry 24 * 8 pieces
            let len = 24 * 8;
            let mut expected = vec![true; len];
            expected[len - 1] = false;

            assert_eq!(bit.as_slice(), expected);
        }
        _ => panic!("Unexpected message type"),
    }
}

#[test]
fn test_request_request() {
    let bytes = MessageType::Request(1, 0, u32::MAX).to_bytes();

    assert_eq!(
        bytes,
        vec![0, 0, 0, 13, 6, 0, 0, 0, 1, 0, 0, 0, 0, 255, 255, 255, 255]
    );
}

#[test]
fn keep_alive_is_four_zero_bytes_and_round_trips() {
    assert_eq!(MessageType::KeepAlive.to_bytes(), vec![0, 0, 0, 0]);
    assert!(matches!(round_trip(MessageType::KeepAlive), MessageType::KeepAlive));
}

#[test]
fn simple_messages_round_trip() {
    assert_eq!(MessageType::Choke.to_bytes(), vec![0, 0, 0, 1, 0]);
    assert_eq!(MessageType::Unchoke.to_bytes(), vec![0, 0, 0, 1, 1]);
    assert_eq!(MessageType::NotInterested.to_bytes(), vec![0, 0, 0, 1, 3]);
    assert!(matches!(round_trip(MessageType::Choke), MessageType::Choke));
    assert!(matches!(round_trip(MessageType::Unchoke), MessageType::Unchoke));
    assert!(matches!(round_trip(MessageType::Interested), MessageType::Interested));
    assert!(matches!(round_trip(MessageType::NotInterested), MessageType::NotInterested));
}

#[test]
fn have_request_cancel_port_round_trip() {
    assert_eq!(MessageType::Have(0x01020304).to_bytes(), vec![0, 0, 0, 5, 4, 1, 2, 3, 4]);
    assert!(matches!(round_trip(MessageType::Have(77)), MessageType::Have(77)));
    assert!(matches!(
        round_trip(MessageType::Request(3, 16384, 16384)),
        MessageType::Request(3, 16384, 16384)
    ));
    assert!(matches!(round_trip(MessageType::Cancel(9, 8, 7)), MessageType::Cancel(9, 8, 7)));
    assert_eq!(MessageType::Port(6881).to_bytes(), vec![0, 0, 0, 3, 9, 0x1a, 0xe1]);
    assert!(matches!(round_trip(MessageType::Port(6881)), MessageType::Port(6881)));
}

#[test]
fn piece_round_trip() {
    let bytes = MessageType::Piece(2, 4, vec![9, 8, 7]).to_bytes();
    assert_eq!(bytes, vec![0, 0, 0, 12, 7, 0, 0, 0, 2, 0, 0, 0, 4, 9, 8, 7]);
    match MessageType::from_bytes(&bytes).unwrap() {
        MessageType::Piece(i, b, block) => {
            assert_eq!((i, b), (2, 4));
            assert_eq!(block, vec![9, 8, 7]);
        }
        _ => panic!("Unexpected message type"),
    }
}

#[test]
fn bitfield_round_trip_pads_with_false() {
    let bits = vec![true, false, true, true, false, false, false, true, true, false];
    let bytes = MessageType::Bitfield(bits.clone()).to_bytes();
    assert_eq!(bytes, vec![0, 0, 0, 3, 5, 0b1011_0001, 0b1000_0000]);
    match MessageType::from_bytes(&bytes).unwrap() {
        MessageType::Bitfield(back) => {
            let mut expected = bits.clone();
            expected.resize(16, false);
            assert_eq!(back, expected);
        }
        _ => panic!("Unexpected message type"),
    }
}

#[test]
fn unknown_length_id_pairs_are_rejected() {
    // choke with a payload
    assert_eq!(MessageType::from_bytes(&[0, 0, 0, 2, 0, 0]).unwrap_err(), MessageError::Malformed);
    // have with a short index
    assert_eq!(MessageType::from_bytes(&[0, 0, 0, 4, 4, 0, 0, 1]).unwrap_err(), MessageError::Malformed);
    // an id that no message has
    assert_eq!(MessageType::from_bytes(&[0, 0, 0, 1, 20]).unwrap_err(), MessageError::Malformed);
    // request with a missing field
    let mut short_request = vec![0, 0, 0, 9, 6];
    short_request.extend_from_slice(&[0; 8]);
    assert_eq!(MessageType::from_bytes(&short_request).unwrap_err(), MessageError::Malformed);
}

#[test]
fn truncated_frames_are_rejected() {
    assert_eq!(MessageType::from_bytes(&[0, 0]).unwrap_err(), MessageError::Truncated);
    assert_eq!(MessageType::from_bytes(&[0, 0, 0, 5, 4, 0]).unwrap_err(), MessageError::Truncated);
}

#[test]
fn bytes_past_the_frame_are_left_alone() {
    let m = MessageType::from_bytes(&[0, 0, 0, 1, 1, 0, 0, 0, 1, 2]).unwrap();
    assert!(matches!(m, MessageType::Unchoke));
}
