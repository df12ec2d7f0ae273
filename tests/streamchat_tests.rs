use streamchat::cipher::xor_cipher;
use streamchat::dh::{compute_shared_secret, generate_keypair, generate_random, DhParameters, G, P};
use streamchat::frame::{decrypt_frame_text, encrypt_line, receive_line};
use streamchat::handshake::{
    decode_public, encode_public, Handshake, HandshakeAction, HandshakeError, HandshakeEvent,
    HandshakePhase, Role,
};
use streamchat::keystream::KeystreamGenerator;
use streamchat::modexp::mod_exp;
use streamchat::printable::format_ascii;

#[test]
fn mod_exp_small_values() {
    assert_eq!(mod_exp(3, 5, 7), 5);
    assert_eq!(mod_exp(2, 10, 1000), 24);
    assert_eq!(mod_exp(10, 0, 7), 1);
    assert_eq!(mod_exp(0, 5, 7), 0);
}

#[test]
fn mod_exp_modulus_one_is_zero() {
    assert_eq!(mod_exp(5, 0, 1), 0);
    assert_eq!(mod_exp(5, 3, 1), 0);
}

#[test]
fn mod_exp_large_operands() {
    assert_eq!(mod_exp(123456789, 987654321, 1000000007), 652541198);
    assert_eq!(mod_exp(u64::MAX, u64::MAX, u64::MAX - 1), 1);
}

#[test]
fn mod_exp_matches_repeated_multiplication() {
    let modulus: u64 = 1_000_003;
    for base in [0u64, 1, 2, 17, 999_999, u64::MAX] {
        let mut expected: u128 = 1 % modulus as u128;
        for exp in 0u64..40 {
            assert_eq!(mod_exp(base, exp, modulus) as u128, expected);
            expected = expected * (base as u128 % modulus as u128) % modulus as u128;
        }
    }
}

#[test]
fn generate_random_folds_clock_reading() {
    assert_eq!(generate_random((5u128 << 64) | 9), 12);
    assert_eq!(generate_random(42), 42);
    assert_eq!(generate_random(u128::MAX), 0);
}

#[test]
fn standard_parameters() {
    let p = DhParameters::standard();
    assert_eq!(p.modulus, 0xD87FA3E291B4C7F3);
    assert_eq!(p.generator, 2);
    assert_eq!(P, p.modulus);
    assert_eq!(G, p.generator);
}

#[test]
fn handshake_agreement_fixed_scalars() {
    let params = DhParameters::standard();
    let a = generate_keypair(&params, 0x1234567890abcdef);
    let b = generate_keypair(&params, 0x0fedcba987654321);
    assert_eq!(a.public, 0xc7b7cd2a231bd641);
    assert_eq!(b.public, 0x2be6e348fe90a3e4);
    let sa = compute_shared_secret(&params, a.private, b.public);
    let sb = compute_shared_secret(&params, b.private, a.public);
    assert_eq!(sa, sb);
    assert_eq!(sa, 0x367ecdd4642b80da);
}

#[test]
fn handshake_agreement_many_scalars() {
    let params = DhParameters::standard();
    for (x, y) in [(1u64, 2u64), (3, 3), (u64::MAX, 7), (0, 99), (0xdead_beef, 0xfeed_face_cafe)] {
        let a = generate_keypair(&params, x);
        let b = generate_keypair(&params, y);
        assert_eq!(
            compute_shared_secret(&params, x, b.public),
            compute_shared_secret(&params, y, a.public)
        );
    }
}

#[test]
fn keystream_seed_one_fixture() {
    let mut g = KeystreamGenerator::new(0x0000000000000001);
    assert_eq!(g.next_byte(), 0xa6);
    assert_eq!(g.state, 0x41c67ea6);
    assert_eq!(g.next_byte(), 0xe7);
    assert_eq!(g.state, 0x967eb0e7);
    assert_eq!(g.next_byte(), 0x94);
    assert_eq!(g.state, 0x2781e494);
}

#[test]
fn keystream_large_seed_is_reduced() {
    let mut a = KeystreamGenerator::new(0xFFFF_FFFF_0000_0001);
    let mut b = KeystreamGenerator::new(1);
    assert_eq!(a.next_byte(), b.next_byte());
    assert_eq!(a.state, b.state);
}

#[test]
fn keystream_same_seed_same_bytes() {
    let mut a = KeystreamGenerator::new(0x367ecdd4642b80da);
    let mut b = KeystreamGenerator::new(0x367ecdd4642b80da);
    for _ in 0..1000 {
        assert_eq!(a.next_byte(), b.next_byte());
    }
}

#[test]
fn peek_does_not_advance() {
    let mut peeked = KeystreamGenerator::new(1);
    let mut plain = KeystreamGenerator::new(1);
    for _ in 0..5 {
        assert_eq!(peeked.peek_bytes(3), vec![0xa6, 0xe7, 0x94]);
    }
    assert_eq!(peeked.state, 1);
    assert_eq!(peeked.next_byte(), plain.next_byte());
}

#[test]
fn peek_predicts_next_bytes() {
    let mut g = KeystreamGenerator::new(1);
    let preview = g.peek_bytes(3);
    assert_eq!(preview, vec![0xa6, 0xe7, 0x94]);
    assert_eq!(g.next_byte(), preview[0]);
    assert_eq!(g.next_byte(), preview[1]);
    assert_eq!(g.next_byte(), preview[2]);
    assert_eq!(g.peek_bytes(0), Vec::<u8>::new());
}

#[test]
fn xor_cipher_round_trip() {
    let message = b"attack at dawn".to_vec();
    let mut enc = KeystreamGenerator::new(0x367ecdd4642b80da);
    let mut dec = KeystreamGenerator::new(0x367ecdd4642b80da);
    let cipher = xor_cipher(&message, &mut enc);
    assert_ne!(cipher, message);
    assert_eq!(cipher.len(), message.len());
    assert_eq!(xor_cipher(&cipher, &mut dec), message);
    assert_eq!(enc.state, dec.state);
}

#[test]
fn xor_cipher_round_trip_after_earlier_messages() {
    let mut enc = KeystreamGenerator::new(99);
    let mut dec = KeystreamGenerator::new(99);
    for m in [b"one".to_vec(), b"second message".to_vec(), vec![0u8, 255, 128]] {
        let c = xor_cipher(&m, &mut enc);
        assert_eq!(xor_cipher(&c, &mut dec), m);
    }
}

#[test]
fn xor_cipher_consumes_one_byte_per_byte() {
    let mut g = KeystreamGenerator::new(1);
    let out = xor_cipher(&[0, 0, 0], &mut g);
    assert_eq!(out, vec![0xa6, 0xe7, 0x94]);
    assert_eq!(g.state, 0x2781e494);
    let mut h = KeystreamGenerator::new(1);
    assert_eq!(xor_cipher(&[], &mut h), Vec::<u8>::new());
    assert_eq!(h.state, 1);
}

#[test]
fn frame_round_trip_hi() {
    let mut sender = KeystreamGenerator::new(7);
    let mut receiver = KeystreamGenerator::new(7);
    let frame = encrypt_line("hi", &mut sender).unwrap();
    assert_eq!(frame, "5c34\n");
    assert_eq!(frame.trim_end().len(), 4);
    let plain = receive_line(&frame, &mut receiver).unwrap();
    assert_eq!(plain, b"hi".to_vec());
    assert_eq!(sender.state, receiver.state);
}

#[test]
fn frame_is_lowercase_hex() {
    let mut g = KeystreamGenerator::new(1);
    let frame = encrypt_line("\u{0}\u{0}\u{0}", &mut g).unwrap();
    assert_eq!(frame, "a6e794\n");
}

#[test]
fn uppercase_frame_decodes() {
    let mut g = KeystreamGenerator::new(1);
    assert_eq!(decrypt_frame_text("A6E794", &mut g), Some(vec![0, 0, 0]));
}

#[test]
fn malformed_frame_is_skipped() {
    let mut g = KeystreamGenerator::new(7);
    assert_eq!(receive_line("zz\n", &mut g), None);
    assert_eq!(g.state, 7);
    assert_eq!(receive_line("abc\n", &mut g), None);
    assert_eq!(g.state, 7);
    let plain = receive_line("5c34\n", &mut g).unwrap();
    assert_eq!(plain, b"hi".to_vec());
}

#[test]
fn blank_frame_is_skipped() {
    let mut g = KeystreamGenerator::new(7);
    assert_eq!(receive_line("\n", &mut g), None);
    assert_eq!(receive_line("   \r\n", &mut g), None);
    assert_eq!(receive_line("", &mut g), None);
    assert_eq!(g.state, 7);
}

#[test]
fn frame_with_surrounding_whitespace() {
    let mut g = KeystreamGenerator::new(7);
    assert_eq!(receive_line("  5c34 \r\n", &mut g), Some(b"hi".to_vec()));
}

#[test]
fn blank_input_is_not_sent() {
    let mut g = KeystreamGenerator::new(7);
    assert_eq!(encrypt_line("", &mut g), None);
    assert_eq!(encrypt_line("  \t ", &mut g), None);
    assert_eq!(g.state, 7);
}

#[test]
fn input_is_sent_untrimmed() {
    let mut sender = KeystreamGenerator::new(5);
    let mut receiver = KeystreamGenerator::new(5);
    let frame = encrypt_line(" hi ", &mut sender).unwrap();
    assert_eq!(frame.len(), 9);
    assert_eq!(receive_line(&frame, &mut receiver), Some(b" hi ".to_vec()));
}

#[test]
fn public_value_big_endian() {
    assert_eq!(encode_public(0x0102030405060708), vec![1, 2, 3, 4, 5, 6, 7, 8]);
    assert_eq!(decode_public(&[1, 2, 3, 4, 5, 6, 7, 8]), 0x0102030405060708);
    assert_eq!(decode_public(&encode_public(P)), P);
}

fn run_pair(listener_private: u64, connector_private: u64) -> (u64, u64) {
    let params = DhParameters::standard();
    let mut l = Handshake::new(Role::Listener, params, listener_private);
    let mut c = Handshake::new(Role::Connector, params, connector_private);
    assert_eq!(l.phase, HandshakePhase::AwaitingConnection);
    assert_eq!(c.phase, HandshakePhase::Connecting);
    assert!(matches!(l.action(), HandshakeAction::Connect));
    assert!(matches!(c.action(), HandshakeAction::Connect));
    assert_eq!(l.step(HandshakeEvent::Connected), Ok(()));
    assert_eq!(c.step(HandshakeEvent::Connected), Ok(()));
    assert_eq!(l.phase, HandshakePhase::ReceivingPeerPublic);
    assert!(matches!(l.action(), HandshakeAction::ReceivePublic));
    let c_bytes = match c.action() {
        HandshakeAction::SendPublic(b) => b,
        _ => panic!("connector sends first"),
    };
    assert_eq!(c.step(HandshakeEvent::Sent), Ok(()));
    assert_eq!(c.phase, HandshakePhase::ReceivingPeerPublic);
    assert_eq!(l.step(HandshakeEvent::Received(c_bytes)), Ok(()));
    assert_eq!(l.phase, HandshakePhase::SendingOwnPublic);
    let l_bytes = match l.action() {
        HandshakeAction::SendPublic(b) => b,
        _ => panic!("listener sends second"),
    };
    assert_eq!(l.step(HandshakeEvent::Sent), Ok(()));
    assert_eq!(c.step(HandshakeEvent::Received(l_bytes)), Ok(()));
    assert_eq!(l.phase, HandshakePhase::Done);
    assert_eq!(c.phase, HandshakePhase::Done);
    let ls = match l.action() {
        HandshakeAction::Finished(s) => s,
        _ => panic!("listener done"),
    };
    let cs = match c.action() {
        HandshakeAction::Finished(s) => s,
        _ => panic!("connector done"),
    };
    (ls, cs)
}

#[test]
fn handshake_state_machines_agree() {
    let (ls, cs) = run_pair(0x1234567890abcdef, 0x0fedcba987654321);
    assert_eq!(ls, cs);
    assert_eq!(ls, 0x367ecdd4642b80da);
    let (ls, cs) = run_pair(42, u64::MAX);
    assert_eq!(ls, cs);
}

#[test]
fn handshake_refuses_out_of_order_events() {
    let params = DhParameters::standard();
    let mut l = Handshake::new(Role::Listener, params, 5);
    assert_eq!(l.step(HandshakeEvent::Sent), Err(HandshakeError::UnexpectedEvent));
    assert_eq!(
        l.step(HandshakeEvent::Received(vec![0; 8])),
        Err(HandshakeError::UnexpectedEvent)
    );
    assert_eq!(l.phase, HandshakePhase::AwaitingConnection);
    let mut c = Handshake::new(Role::Connector, params, 5);
    assert_eq!(c.step(HandshakeEvent::Connected), Ok(()));
    assert_eq!(c.step(HandshakeEvent::Connected), Err(HandshakeError::UnexpectedEvent));
    assert_eq!(
        c.step(HandshakeEvent::Received(vec![0; 8])),
        Err(HandshakeError::UnexpectedEvent)
    );
    assert_eq!(c.phase, HandshakePhase::SendingOwnPublic);
}

#[test]
fn handshake_short_read() {
    let params = DhParameters::standard();
    let mut l = Handshake::new(Role::Listener, params, 5);
    assert_eq!(l.step(HandshakeEvent::Connected), Ok(()));
    assert_eq!(
        l.step(HandshakeEvent::Received(vec![1, 2, 3])),
        Err(HandshakeError::ShortRead)
    );
    assert_eq!(l.phase, HandshakePhase::ReceivingPeerPublic);
    assert_eq!(l.peer_public, 0);
    assert_eq!(l.step(HandshakeEvent::Received(vec![0, 0, 0, 0, 0, 0, 0, 9])), Ok(()));
    assert_eq!(l.peer_public, 9);
}

#[test]
fn format_ascii_printable_and_not() {
    assert_eq!(format_ascii(b'h'), 'h');
    assert_eq!(format_ascii(0x20), ' ');
    assert_eq!(format_ascii(0x7e), '~');
    assert_eq!(format_ascii(0x1f), '.');
    assert_eq!(format_ascii(0x7f), '.');
    assert_eq!(format_ascii(0xa6), '.');
}
