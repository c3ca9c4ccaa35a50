use ockam_relay::address::Address;
use ockam_relay::mailbox::{Mailbox, Mailboxes};
use ockam_relay::nonce::{Nonce, NonceError};
use ockam_relay::purpose_key::{Identity, Purpose, PurposeKey, Signing, VerificationError};
use ockam_relay::relay::RelayMessage;
use ockam_relay::router::Router;
use ockam_relay::secure_channel::{
    Action, CloseReason, Event, KeyCheck, ReplayPolicy, Session, SessionState,
};

const NOW: u64 = 1_000;

fn identity(name: &str) -> Identity {
    Identity::new(name.as_bytes().to_vec(), vec![name.len() as u8; 32])
}

fn purpose_key(owner: &Identity, purpose: Purpose, from: u64, until: u64) -> PurposeKey {
    PurposeKey::create(
        owner,
        purpose,
        vec![0x42; 32],
        from,
        until,
        Signing::Signed(vec![0x5a; 64]),
    )
    .unwrap()
}

fn good_check(name: &str) -> KeyCheck {
    let owner = identity(name);
    KeyCheck {
        key: purpose_key(&owner, Purpose::SecureChannel, 0, 2_000),
        identity: owner,
        now: NOW,
        signature_valid: true,
    }
}

fn derived(encrypt: u8, decrypt: u8) -> Event {
    Event::KeysDerived { encrypt_key: vec![encrypt; 32], decrypt_key: vec![decrypt; 32] }
}

fn authenticated(own: &str, peer: &str, encrypt: u8, decrypt: u8, policy: ReplayPolicy) -> Session {
    let mut session = Session::with_policy(policy);
    assert_eq!(session.step(Event::Start(good_check(own))), Action::SendHandshake);
    assert_eq!(session.step(Event::PeerKey(good_check(peer))), Action::SendHandshake);
    assert_eq!(session.step(derived(encrypt, decrypt)), Action::Established);
    session
}

// A stand-in for the cipher, which is not this library's: it masks each byte
// with the key and the nonce, and leads with the nonce's wire form.
fn seal(key: &[u8], nonce: Nonce, plaintext: &[u8]) -> Vec<u8> {
    let aead = nonce.to_aes_gcm_nonce();
    let mut out = nonce.to_noise_nonce().to_vec();
    out.extend(
        plaintext
            .iter()
            .enumerate()
            .map(|(i, b)| b ^ key[i % key.len()] ^ aead[i % 12]),
    );
    out
}

fn open(key: &[u8], nonce: Nonce, sealed: &[u8]) -> Vec<u8> {
    let aead = nonce.to_aes_gcm_nonce();
    sealed[8..]
        .iter()
        .enumerate()
        .map(|(i, b)| b ^ key[i % key.len()] ^ aead[i % 12])
        .collect()
}

#[test]
fn a_fresh_session_has_begun_nothing() {
    let session = Session::new();
    assert_eq!(session.state(), SessionState::Initiating);
    assert_eq!(session.policy(), ReplayPolicy::CloseSession);
    assert_eq!(session.peer(), None);
    assert_eq!(session.encrypt_key(), None);
    assert_eq!(session.decrypt_key(), None);
    assert_eq!(session.send_nonce(), Nonce::new(0));
    assert_eq!(session.receive_nonce(), Nonce::new(0));
    assert_eq!(session.close_reason(), None);
}

#[test]
fn a_normal_handshake_ends_authenticated_and_data_flows() {
    let mut router = Router::new();
    router
        .spawn(Mailboxes::primary(Mailbox::allow_all(Address::from_string("a"))), 4)
        .unwrap();
    router
        .spawn(Mailboxes::primary(Mailbox::allow_all(Address::from_string("b"))), 4)
        .unwrap();

    let mut a = Session::new();
    let mut b = Session::new();

    // A initiates: first message out, with A's own key checked.
    assert_eq!(a.step(Event::Start(good_check("A"))), Action::SendHandshake);
    assert_eq!(a.state(), SessionState::HandshakeInProgress);
    // B receives it.
    assert_eq!(b.step(Event::Start(good_check("B"))), Action::SendHandshake);
    assert_eq!(b.state(), SessionState::HandshakeInProgress);
    // B answers with its purpose key; A checks it.
    assert_eq!(a.step(Event::PeerKey(good_check("B"))), Action::SendHandshake);
    assert_eq!(a.peer(), Some(&b"B".to_vec()));
    // A answers with its purpose key; B checks it.
    assert_eq!(b.step(Event::PeerKey(good_check("A"))), Action::SendHandshake);
    assert_eq!(b.peer(), Some(&b"A".to_vec()));
    // Both derive the keys of the two directions.
    assert_eq!(a.step(derived(1, 2)), Action::Established);
    assert_eq!(b.step(derived(2, 1)), Action::Established);

    for session in [&a, &b] {
        assert_eq!(session.state(), SessionState::Authenticated);
        assert_eq!(session.send_nonce().value(), 0);
        assert_eq!(session.receive_nonce().value(), 0);
    }
    assert_eq!(a.encrypt_key(), b.decrypt_key());
    assert_eq!(a.decrypt_key(), b.encrypt_key());

    // A sends a data message.
    let plaintext = b"attack at dawn".to_vec();
    let nonce = match a.step(Event::Send) {
        Action::Encrypt(nonce) => nonce,
        other => panic!("{other:?}"),
    };
    assert_eq!(nonce, Nonce::new(0));
    assert_eq!(a.send_nonce(), Nonce::new(1));
    let sealed = seal(a.encrypt_key().unwrap(), nonce, &plaintext);
    assert_ne!(sealed[8..], plaintext[..]);
    router
        .route(RelayMessage::new(
            Address::from_string("a"),
            Address::from_string("b"),
            sealed,
        ))
        .unwrap();

    // B receives it.
    let delivered = router.receive(&Address::from_string("b")).unwrap().into_payload();
    let nonce = match b.step(Event::Received(delivered[..8].to_vec())) {
        Action::Decrypt(nonce) => nonce,
        other => panic!("{other:?}"),
    };
    assert_eq!(nonce, Nonce::new(0));
    assert_eq!(open(b.decrypt_key().unwrap(), nonce, &delivered), plaintext);
    assert_eq!(b.receive_nonce(), Nonce::new(1));
    assert_eq!(b.send_nonce(), Nonce::new(0));
    assert_eq!(a.receive_nonce(), Nonce::new(0));
}

#[test]
fn every_send_gets_the_next_nonce() {
    let mut a = authenticated("A", "B", 1, 2, ReplayPolicy::CloseSession);
    let mut b = authenticated("B", "A", 2, 1, ReplayPolicy::CloseSession);
    for k in 0..100u64 {
        assert_eq!(a.step(Event::Send), Action::Encrypt(Nonce::new(k)));
        assert_eq!(a.send_nonce().value(), k + 1);
        let wire = Nonce::new(k).to_noise_nonce().to_vec();
        assert_eq!(b.step(Event::Received(wire)), Action::Decrypt(Nonce::new(k)));
        assert_eq!(b.receive_nonce().value(), k + 1);
    }
}

#[test]
fn a_replayed_message_closes_the_session() {
    let mut b = authenticated("B", "A", 2, 1, ReplayPolicy::CloseSession);
    let first = Nonce::new(0).to_noise_nonce().to_vec();
    assert_eq!(b.step(Event::Received(first.clone())), Action::Decrypt(Nonce::new(0)));
    assert_eq!(
        b.step(Event::Received(Nonce::new(1).to_noise_nonce().to_vec())),
        Action::Decrypt(Nonce::new(1))
    );
    let reason = CloseReason::Nonce(NonceError::ReplayOrOutOfOrder);
    assert_eq!(b.step(Event::Received(first.clone())), Action::Closed(reason));
    assert_eq!(b.state(), SessionState::Closed);
    assert_eq!(b.close_reason(), Some(reason));
    assert_eq!(b.encrypt_key(), None);
    assert_eq!(b.decrypt_key(), None);
    assert_eq!(b.peer(), None);
    assert_eq!(
        b.step(Event::Received(Nonce::new(2).to_noise_nonce().to_vec())),
        Action::Rejected
    );
    assert_eq!(b.step(Event::Send), Action::Rejected);
    assert_eq!(b.state(), SessionState::Closed);
}

#[test]
fn a_replayed_message_is_dropped_where_the_policy_says_so() {
    let mut b = authenticated("B", "A", 2, 1, ReplayPolicy::DropMessage);
    let first = Nonce::new(0).to_noise_nonce().to_vec();
    assert_eq!(b.step(Event::Received(first.clone())), Action::Decrypt(Nonce::new(0)));
    assert_eq!(
        b.step(Event::Received(first.clone())),
        Action::Discard(NonceError::ReplayOrOutOfOrder)
    );
    assert_eq!(b.state(), SessionState::Authenticated);
    assert_eq!(b.receive_nonce(), Nonce::new(1));
    assert!(b.decrypt_key().is_some());
    // A message from the future is out of order too.
    assert_eq!(
        b.step(Event::Received(Nonce::new(5).to_noise_nonce().to_vec())),
        Action::Discard(NonceError::ReplayOrOutOfOrder)
    );
    assert_eq!(
        b.step(Event::Received(Nonce::new(1).to_noise_nonce().to_vec())),
        Action::Decrypt(Nonce::new(1))
    );
    assert_eq!(b.receive_nonce(), Nonce::new(2));
}

#[test]
fn a_message_out_of_order_closes_the_session() {
    let mut b = authenticated("B", "A", 2, 1, ReplayPolicy::CloseSession);
    assert_eq!(
        b.step(Event::Received(Nonce::new(1).to_noise_nonce().to_vec())),
        Action::Closed(CloseReason::Nonce(NonceError::ReplayOrOutOfOrder))
    );
    assert_eq!(b.state(), SessionState::Closed);
}

#[test]
fn a_nonce_of_the_wrong_length_closes_the_session() {
    for policy in [ReplayPolicy::CloseSession, ReplayPolicy::DropMessage] {
        for bytes in [vec![], vec![0; 7], vec![0; 9], vec![0; 12]] {
            let mut b = authenticated("B", "A", 2, 1, policy);
            assert_eq!(
                b.step(Event::Received(bytes)),
                Action::Closed(CloseReason::Nonce(NonceError::InvalidNonce))
            );
            assert_eq!(b.state(), SessionState::Closed);
            assert_eq!(b.decrypt_key(), None);
        }
    }
}

#[test]
fn an_expired_purpose_key_ends_the_handshake_before_any_key_is_derived() {
    let owner = identity("A");
    let expired = |now| KeyCheck {
        key: purpose_key(&owner, Purpose::SecureChannel, 0, 500),
        identity: owner.clone(),
        now,
        signature_valid: true,
    };
    let reason = CloseReason::Verification(VerificationError::Expired);

    let mut own = Session::new();
    assert_eq!(own.step(Event::Start(expired(NOW))), Action::Closed(reason));
    assert_eq!(own.state(), SessionState::Closed);
    assert_eq!(own.close_reason(), Some(reason));
    assert_eq!(own.encrypt_key(), None);
    assert_eq!(own.decrypt_key(), None);
    assert_eq!(own.step(derived(1, 2)), Action::Rejected);
    assert_eq!(own.encrypt_key(), None);

    let mut peer = Session::new();
    assert_eq!(peer.step(Event::Start(good_check("B"))), Action::SendHandshake);
    assert_eq!(peer.step(Event::PeerKey(expired(500))), Action::Closed(reason));
    assert_eq!(peer.state(), SessionState::Closed);
    assert_eq!(peer.peer(), None);
    assert_eq!(peer.encrypt_key(), None);
    assert_eq!(peer.step(derived(1, 2)), Action::Rejected);
    assert_eq!(peer.decrypt_key(), None);

    let mut in_time = Session::new();
    assert_eq!(in_time.step(Event::Start(expired(499))), Action::SendHandshake);
}

#[test]
fn a_key_that_fails_its_check_ends_the_handshake_for_that_reason() {
    let owner = identity("A");
    let cases = [
        (
            KeyCheck {
                key: purpose_key(&owner, Purpose::SecureChannel, 0, 2_000),
                identity: owner.clone(),
                now: NOW,
                signature_valid: false,
            },
            VerificationError::SignatureInvalid,
        ),
        (
            KeyCheck {
                key: purpose_key(&owner, Purpose::SecureChannel, 0, 2_000),
                identity: identity("B"),
                now: NOW,
                signature_valid: true,
            },
            VerificationError::SignatureInvalid,
        ),
        (
            KeyCheck {
                key: purpose_key(&owner, Purpose::Credentials, 0, 2_000),
                identity: owner.clone(),
                now: NOW,
                signature_valid: true,
            },
            VerificationError::PurposeMismatch,
        ),
    ];
    for (check, error) in cases {
        let mut session = Session::new();
        assert_eq!(
            session.step(Event::Start(check)),
            Action::Closed(CloseReason::Verification(error))
        );
        assert_eq!(session.state(), SessionState::Closed);
    }
}

#[test]
fn keys_are_taken_only_once_the_peer_is_known() {
    let mut early = Session::new();
    assert_eq!(
        early.step(derived(1, 2)),
        Action::Closed(CloseReason::ProtocolViolation)
    );
    assert_eq!(early.encrypt_key(), None);

    let mut unknown_peer = Session::new();
    unknown_peer.step(Event::Start(good_check("A")));
    assert_eq!(
        unknown_peer.step(derived(1, 2)),
        Action::Closed(CloseReason::ProtocolViolation)
    );
    assert_eq!(unknown_peer.state(), SessionState::Closed);
    assert_eq!(unknown_peer.encrypt_key(), None);
}

#[test]
fn what_has_no_place_in_a_state_closes_the_session() {
    let violation = Action::Closed(CloseReason::ProtocolViolation);
    assert_eq!(Session::new().step(Event::Send), violation);
    assert_eq!(Session::new().step(Event::Received(vec![0; 8])), violation);
    assert_eq!(Session::new().step(Event::PeerKey(good_check("B"))), violation);

    let mut handshake = Session::new();
    handshake.step(Event::Start(good_check("A")));
    assert_eq!(handshake.step(Event::Start(good_check("A"))), violation);

    let mut handshake = Session::new();
    handshake.step(Event::Start(good_check("A")));
    assert_eq!(handshake.step(Event::Send), violation);

    let mut live = authenticated("A", "B", 1, 2, ReplayPolicy::CloseSession);
    assert_eq!(live.step(Event::PeerKey(good_check("B"))), violation);
    assert_eq!(live.encrypt_key(), None);
    let mut live = authenticated("A", "B", 1, 2, ReplayPolicy::CloseSession);
    assert_eq!(live.step(derived(3, 4)), violation);
}

#[test]
fn any_state_can_be_closed() {
    let make: [fn() -> Session; 3] = [
        Session::new,
        || {
            let mut s = Session::new();
            s.step(Event::Start(good_check("A")));
            s
        },
        || authenticated("A", "B", 1, 2, ReplayPolicy::CloseSession),
    ];
    for session in make {
        for (event, reason) in [
            (Event::Close, CloseReason::Requested),
            (Event::PeerDisconnected, CloseReason::PeerDisconnected),
            (Event::Malformed, CloseReason::MalformedHandshake),
            (Event::KeyUnavailable, CloseReason::KeyUnavailable),
        ] {
            let mut s = session();
            assert_eq!(s.step(event), Action::Closed(reason));
            assert_eq!(s.state(), SessionState::Closed);
            assert_eq!(s.close_reason(), Some(reason));
            assert_eq!(s.encrypt_key(), None);
            assert_eq!(s.decrypt_key(), None);
            assert_eq!(s.step(Event::Close), Action::Rejected);
            assert_eq!(s.close_reason(), Some(reason));
        }
    }
}

#[test]
fn a_nonce_that_cannot_advance_closes_the_session() {
    let last = Nonce::largest().to_noise_nonce();
    let before_last = Nonce::new(u64::MAX - 1).to_noise_nonce();
    let overflow = Action::Closed(CloseReason::Nonce(NonceError::Overflow));

    let mut sender = Session::resume(
        ReplayPolicy::CloseSession,
        b"B".to_vec(),
        vec![1; 32],
        vec![2; 32],
        before_last,
        [0; 8],
    );
    assert_eq!(sender.state(), SessionState::Authenticated);
    assert_eq!(sender.send_nonce(), Nonce::new(u64::MAX - 1));
    assert_eq!(sender.step(Event::Send), Action::Encrypt(Nonce::new(u64::MAX - 1)));
    assert_eq!(sender.send_nonce(), Nonce::largest());
    assert_eq!(sender.step(Event::Send), overflow);
    assert_eq!(sender.state(), SessionState::Closed);
    assert_eq!(sender.send_nonce(), Nonce::largest());
    assert_eq!(sender.encrypt_key(), None);

    let mut receiver = Session::resume(
        ReplayPolicy::DropMessage,
        b"A".to_vec(),
        vec![2; 32],
        vec![1; 32],
        [0; 8],
        last,
    );
    assert_eq!(receiver.receive_nonce(), Nonce::largest());
    assert_eq!(receiver.step(Event::Received(last.to_vec())), overflow);
    assert_eq!(receiver.state(), SessionState::Closed);
    assert_eq!(receiver.receive_nonce(), Nonce::largest());
}
