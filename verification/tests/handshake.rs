use freenet::handshake::{
    HandshakeFailure, HandshakePhase, NatTraversal, Outgoing, Step, HELLO, MAX_FAILURES,
    PROTOC_VERSION,
};

fn to_intro_phase() -> NatTraversal {
    let mut hs = NatTraversal::new();
    assert!(matches!(hs.on_response(&PROTOC_VERSION), Step::Continue));
    hs
}

fn to_ack_phase() -> NatTraversal {
    let mut hs = to_intro_phase();
    assert!(matches!(hs.on_response(&[7u8; 40]), Step::DecryptIntroKey));
    assert!(matches!(hs.on_intro_key(Ok(vec![3u8; 16])), Step::Retry));
    hs
}

#[test]
fn a_new_handshake_sends_the_protocol_version() {
    let hs = NatTraversal::new();
    assert_eq!(hs.phase(), HandshakePhase::Start);
    assert_eq!(hs.failures(), 0);
    assert_eq!(hs.outgoing(), Outgoing::ProtocolVersion);
    assert!(hs.keeps_trying());
    assert!(hs.inbound_key().is_none());
    assert_eq!(PROTOC_VERSION, 1u16.to_le_bytes());
}

#[test]
fn the_same_version_moves_on_to_the_intro_packet() {
    let hs = to_intro_phase();
    assert_eq!(hs.phase(), HandshakePhase::SendIntroPacket);
    assert_eq!(hs.outgoing(), Outgoing::IntroPacket);
    assert_eq!(hs.failures(), 0);
}

#[test]
fn another_version_fails_the_handshake() {
    let mut hs = NatTraversal::new();
    match hs.on_response(&[2, 0]) {
        Step::Failed(HandshakeFailure::ProtocolVersionMismatch(v)) => assert_eq!(v, vec![2, 0]),
        _ => panic!("expected a version mismatch"),
    }
    assert_eq!(hs.phase(), HandshakePhase::Start);
}

#[test]
fn an_answer_of_another_length_counts_as_a_failure() {
    let mut hs = NatTraversal::new();
    assert!(matches!(hs.on_response(&[1, 0, 0]), Step::Retry));
    assert_eq!(hs.failures(), 1);
    assert_eq!(hs.phase(), HandshakePhase::Start);
}

#[test]
fn a_16_byte_key_moves_on_to_hello() {
    let hs = to_ack_phase();
    assert_eq!(hs.phase(), HandshakePhase::AckProtoc);
    assert_eq!(hs.outgoing(), Outgoing::Hello);
    assert!(hs.inbound_key().is_some());
}

#[test]
fn a_key_of_another_length_fails_the_handshake() {
    let mut hs = to_intro_phase();
    assert!(matches!(
        hs.on_intro_key(Ok(vec![3u8; 15])),
        Step::Failed(HandshakeFailure::InvalidSymmetricKey)
    ));
    assert_eq!(hs.phase(), HandshakePhase::SendIntroPacket);
}

#[test]
fn a_failed_decryption_fails_the_handshake() {
    let mut hs = to_intro_phase();
    assert!(matches!(
        hs.on_intro_key(Err(rsa::errors::Error::Decryption)),
        Step::Failed(HandshakeFailure::DecryptionFailed(rsa::errors::Error::Decryption))
    ));
}

#[test]
fn hello_establishes_the_connection() {
    let mut hs = to_ack_phase();
    assert!(matches!(hs.on_response(b"whatever"), Step::DecryptHello));
    assert!(matches!(hs.on_hello(&HELLO), Step::Established));
    assert_eq!(&HELLO, b"hello");
    assert!(hs.into_keys().is_some());
}

#[test]
fn anything_but_hello_fails_the_handshake() {
    let hs = to_ack_phase();
    assert!(matches!(
        hs.on_hello(b"hellO"),
        Step::Failed(HandshakeFailure::UnrecognizedMessage)
    ));
}

#[test]
fn keys_are_only_handed_out_once_both_are_known() {
    assert!(NatTraversal::new().into_keys().is_none());
    assert!(to_intro_phase().into_keys().is_none());
}

#[test]
fn a_failed_send_in_the_last_phase_fails_at_once() {
    let mut hs = to_ack_phase();
    assert!(matches!(
        hs.on_send_error(),
        Step::Failed(HandshakeFailure::SendFailed)
    ));
    assert_eq!(hs.failures(), 0);
}

#[test]
fn failures_are_counted_until_the_allowance_is_used_up() {
    let mut hs = NatTraversal::new();
    for n in 1..MAX_FAILURES {
        assert!(matches!(hs.on_receive_failed(), Step::Retry));
        assert_eq!(hs.failures(), n);
        assert!(hs.keeps_trying());
    }
    // the last allowed failure, on a send, fails the handshake
    assert!(matches!(
        hs.on_send_error(),
        Step::Failed(HandshakeFailure::SendFailed)
    ));
    assert_eq!(hs.failures(), MAX_FAILURES);
    assert!(!hs.keeps_trying());
    assert!(matches!(hs.exhausted(), HandshakeFailure::MaxAttemptsReached));
}

#[test]
fn send_failures_before_the_last_retry() {
    let mut hs = to_intro_phase();
    assert!(matches!(hs.on_send_error(), Step::Retry));
    assert_eq!(hs.failures(), 1);
    assert_eq!(hs.phase(), HandshakePhase::SendIntroPacket);
}

#[test]
fn the_outbound_key_is_sixteen_bytes_and_stays() {
    let hs = NatTraversal::new();
    let bytes = hs.outbound_key_bytes();
    let hs2 = {
        let mut h = hs;
        h.on_response(&PROTOC_VERSION);
        h
    };
    assert_eq!(hs2.outbound_key_bytes(), bytes);
    assert_eq!(bytes.len(), 16);
}

#[test]
fn each_cipher_is_kept_with_the_key_it_was_made_from() {
    let hs = NatTraversal::new();
    assert_eq!(hs.outbound_key().key_bytes(), &hs.outbound_key_bytes()[..]);
    let hs = to_ack_phase();
    assert_eq!(hs.inbound_key().unwrap().key_bytes(), &[3u8; 16][..]);
    let sent = hs.outbound_key_bytes();
    let (outbound, inbound) = hs.into_keys().unwrap();
    assert_eq!(outbound.key_bytes(), &sent[..]);
    assert_eq!(inbound.key_bytes(), &[3u8; 16][..]);
}
