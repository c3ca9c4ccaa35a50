use vstd::prelude::*;
use crate::nonce::{wire_value, Nonce, NonceError};
use crate::purpose_key::{
    Identity,
    IdentityView,
    Purpose,
    PurposeKey,
    PurposeKeyView,
    VerificationError,
};

verus! {

/// Where a session stands in its life.
#[derive(Debug, Clone, Copy, PartialEq, Eq, Structural)]
pub enum SessionState {
    /// Nothing has been exchanged yet.
    Initiating,
    /// Handshake messages are being exchanged.
    HandshakeInProgress,
    /// The handshake is done; data may flow.
    Authenticated,
    /// The session is over for good.
    Closed,
}

/// What a session does with a data message whose nonce is not the one
/// expected.
#[derive(Debug, Clone, Copy, PartialEq, Eq, Structural)]
pub enum ReplayPolicy {
    /// The session is closed. This is the safer choice, and the default.
    CloseSession,
    /// The message is discarded and the session goes on.
    DropMessage,
}

/// Why a session was closed.
#[derive(Debug, Clone, Copy, PartialEq, Eq, Structural)]
pub enum CloseReason {
    /// The owner closed it.
    Requested,
    /// The peer went away.
    PeerDisconnected,
    /// A purpose key could not be had from where the keys are kept.
    KeyUnavailable,
    /// A purpose key did not pass its check.
    Verification(VerificationError),
    /// A message of the peer could not be read.
    MalformedHandshake,
    /// A nonce overflowed, was replayed, came out of order or could not be
    /// read.
    Nonce(NonceError),
    /// Something happened that has no place in the state the session was in.
    ProtocolViolation,
}

/// What a key check is, as plain values.
pub struct KeyCheckView {
    pub key: PurposeKeyView,
    pub identity: IdentityView,
    pub now: u64,
    pub signature_valid: bool,
}

impl KeyCheckView {
    /// What the check gives for a key that is to serve a secure channel.
    pub open spec fn outcome(self) -> Result<(), VerificationError> {
        self.key.verify(self.identity, Purpose::SecureChannel, self.now, self.signature_valid)
    }
}

/// A purpose key with all that is needed to check it: the identity it is
/// held against, the moment of the check, and whether its signature was
/// found to be that of the identity's root key.
#[derive(Debug)]
pub struct KeyCheck {
    pub key: PurposeKey,
    pub identity: Identity,
    pub now: u64,
    pub signature_valid: bool,
}

impl View for KeyCheck {
    type V = KeyCheckView;

    open spec fn view(&self) -> KeyCheckView {
        KeyCheckView {
            key: self.key@,
            identity: self.identity@,
            now: self.now,
            signature_valid: self.signature_valid,
        }
    }
}

/// What an event is, as plain values.
pub enum EventView {
    KeyUnavailable,
    Start(KeyCheckView),
    PeerKey(KeyCheckView),
    Malformed,
    KeysDerived { encrypt_key: Seq<u8>, decrypt_key: Seq<u8> },
    Send,
    Received(Seq<u8>),
    Close,
    PeerDisconnected,
}

/// What happens to a session.
#[derive(Debug)]
pub enum Event {
    /// A purpose key that the handshake needs could not be had: the store of
    /// keys failed, or holds none.
    KeyUnavailable,
    /// The first handshake message is to be sent, or has arrived; with it
    /// the session's own purpose key is put to the check.
    Start(KeyCheck),
    /// A handshake message of the peer has arrived that presents the peer's
    /// purpose key.
    PeerKey(KeyCheck),
    /// A message of the peer has arrived that cannot be read.
    Malformed,
    /// The two symmetric keys have been derived, one for each direction.
    KeysDerived { encrypt_key: Vec<u8>, decrypt_key: Vec<u8> },
    /// The owner wants to send a data message.
    Send,
    /// A data message has arrived that bears these bytes as its nonce.
    Received(Vec<u8>),
    /// The owner closes the session.
    Close,
    /// The peer has gone away.
    PeerDisconnected,
}

impl View for Event {
    type V = EventView;

    open spec fn view(&self) -> EventView {
        match self {
            Event::KeyUnavailable => EventView::KeyUnavailable,
            Event::Start(check) => EventView::Start(check@),
            Event::PeerKey(check) => EventView::PeerKey(check@),
            Event::Malformed => EventView::Malformed,
            Event::KeysDerived { encrypt_key, decrypt_key } => EventView::KeysDerived {
                encrypt_key: encrypt_key@,
                decrypt_key: decrypt_key@,
            },
            Event::Send => EventView::Send,
            Event::Received(bytes) => EventView::Received(bytes@),
            Event::Close => EventView::Close,
            Event::PeerDisconnected => EventView::PeerDisconnected,
        }
    }
}

/// What an action is, as plain values.
pub enum ActionView {
    SendHandshake,
    Established,
    Encrypt(u64),
    Decrypt(u64),
    Discard(NonceError),
    Closed(CloseReason),
    Rejected,
}

/// What the owner of a session is to do after an event.
#[derive(Debug, Clone, Copy, PartialEq, Eq)]
pub enum Action {
    /// Go on with the handshake: send the next message, or wait for the
    /// peer's.
    SendHandshake,
    /// The session is authenticated; both nonces stand at zero.
    Established,
    /// Encrypt the data message under this nonce, and send it.
    Encrypt(Nonce),
    /// Decrypt the data message under this nonce.
    Decrypt(Nonce),
    /// Throw the data message away; the session goes on.
    Discard(NonceError),
    /// The session has just been closed, for this reason. Its keys are gone.
    Closed(CloseReason),
    /// The session was closed before; the event is not for it any more.
    Rejected,
}

impl View for Action {
    type V = ActionView;

    open spec fn view(&self) -> ActionView {
        match self {
            Action::SendHandshake => ActionView::SendHandshake,
            Action::Established => ActionView::Established,
            Action::Encrypt(nonce) => ActionView::Encrypt(nonce@),
            Action::Decrypt(nonce) => ActionView::Decrypt(nonce@),
            Action::Discard(e) => ActionView::Discard(*e),
            Action::Closed(reason) => ActionView::Closed(*reason),
            Action::Rejected => ActionView::Rejected,
        }
    }
}

/// What a session is, as plain values.
pub struct SessionView {
    pub policy: ReplayPolicy,
    pub state: SessionState,
    pub peer: Option<Seq<u8>>,
    pub encrypt_key: Option<Seq<u8>>,
    pub decrypt_key: Option<Seq<u8>>,
    pub send_nonce: u64,
    pub receive_nonce: u64,
    pub reason: Option<CloseReason>,
}

impl SessionView {
    /// A session that has not begun.
    pub open spec fn fresh(policy: ReplayPolicy) -> SessionView {
        SessionView {
            policy,
            state: SessionState::Initiating,
            peer: None,
            encrypt_key: None,
            decrypt_key: None,
            send_nonce: 0,
            receive_nonce: 0,
            reason: None,
        }
    }

    /// An authenticated session taken up again, its nonces given in their
    /// wire form.
    pub open spec fn resumed(
        policy: ReplayPolicy,
        peer: Seq<u8>,
        encrypt_key: Seq<u8>,
        decrypt_key: Seq<u8>,
        send_nonce: Seq<u8>,
        receive_nonce: Seq<u8>,
    ) -> SessionView {
        SessionView {
            policy,
            state: SessionState::Authenticated,
            peer: Some(peer),
            encrypt_key: Some(encrypt_key),
            decrypt_key: Some(decrypt_key),
            send_nonce: wire_value(send_nonce) as u64,
            receive_nonce: wire_value(receive_nonce) as u64,
            reason: None,
        }
    }

    /// What holds of every session: it has its two keys and knows its peer
    /// exactly while it is authenticated, it has a reason for its end exactly
    /// when it is closed, and before it is authenticated both nonces stand at
    /// zero.
    pub open spec fn wf(self) -> bool {
        &&& self.encrypt_key is Some <==> self.state == SessionState::Authenticated
        &&& self.decrypt_key is Some <==> self.state == SessionState::Authenticated
        &&& self.state == SessionState::Authenticated ==> self.peer is Some
        &&& self.state == SessionState::Closed ==> self.peer is None
        &&& self.state == SessionState::Initiating ==> self.peer is None
        &&& self.reason is Some <==> self.state == SessionState::Closed
        &&& self.state == SessionState::Initiating || self.state
            == SessionState::HandshakeInProgress ==> self.send_nonce == 0 && self.receive_nonce
            == 0
    }

    /// The session closed for `reason`: what it knew of keys and peer is
    /// gone. The nonces stay where they were.
    pub open spec fn closed(self, reason: CloseReason) -> SessionView {
        SessionView {
            state: SessionState::Closed,
            peer: None,
            encrypt_key: None,
            decrypt_key: None,
            reason: Some(reason),
            ..self
        }
    }

    /// Closing, with the action that tells of it.
    pub open spec fn close(self, reason: CloseReason) -> (SessionView, ActionView) {
        (self.closed(reason), ActionView::Closed(reason))
    }

    /// What an event makes of the session, and what the owner is to do.
    ///
    /// A closed session rejects every event and stays as it is. In any other
    /// state a close, a peer that went away, a message that cannot be read
    /// and a purpose key that cannot be had close the session. An event that has no place in the state closes it
    /// as a violation of the protocol.
    ///
    /// The first handshake message takes a session that has not begun into
    /// the handshake, if its own purpose key passes the check. In the
    /// handshake, a peer's purpose key that passes the check makes the peer
    /// known. A key that fails closes the session for the reason of the
    /// failure. Once the peer is known, the derived keys make the session
    /// authenticated, with both nonces at zero.
    ///
    /// Authenticated, a send hands out the nonce that the counter holds and
    /// advances the counter; at the largest value it closes the session for
    /// overflow instead. A received nonce must be eight bytes and must equal
    /// the counter of the receiving direction, which then advances; any other
    /// nonce is refused as replayed or out of order, and closes the session
    /// or is discarded, as the policy says.
    pub open spec fn step(self, event: EventView) -> (SessionView, ActionView) {
        if self.state == SessionState::Closed {
            (self, ActionView::Rejected)
        } else {
            match event {
                EventView::Close => self.close(CloseReason::Requested),
                EventView::PeerDisconnected => self.close(CloseReason::PeerDisconnected),
                EventView::Malformed => self.close(CloseReason::MalformedHandshake),
                EventView::KeyUnavailable => self.close(CloseReason::KeyUnavailable),
                EventView::Start(check) => if self.state != SessionState::Initiating {
                    self.close(CloseReason::ProtocolViolation)
                } else {
                    match check.outcome() {
                        Ok(_) => (
                            SessionView { state: SessionState::HandshakeInProgress, ..self },
                            ActionView::SendHandshake,
                        ),
                        Err(e) => self.close(CloseReason::Verification(e)),
                    }
                },
                EventView::PeerKey(check) => if self.state != SessionState::HandshakeInProgress {
                    self.close(CloseReason::ProtocolViolation)
                } else {
                    match check.outcome() {
                        Ok(_) => (
                            SessionView { peer: Some(check.key.subject), ..self },
                            ActionView::SendHandshake,
                        ),
                        Err(e) => self.close(CloseReason::Verification(e)),
                    }
                },
                EventView::KeysDerived { encrypt_key, decrypt_key } => if self.state
                    != SessionState::HandshakeInProgress || self.peer is None {
                    self.close(CloseReason::ProtocolViolation)
                } else {
                    (
                        SessionView {
                            state: SessionState::Authenticated,
                            encrypt_key: Some(encrypt_key),
                            decrypt_key: Some(decrypt_key),
                            send_nonce: 0,
                            receive_nonce: 0,
                            ..self
                        },
                        ActionView::Established,
                    )
                },
                EventView::Send => if self.state != SessionState::Authenticated {
                    self.close(CloseReason::ProtocolViolation)
                } else if self.send_nonce == u64::MAX {
                    self.close(CloseReason::Nonce(NonceError::Overflow))
                } else {
                    (
                        SessionView { send_nonce: (self.send_nonce + 1) as u64, ..self },
                        ActionView::Encrypt(self.send_nonce),
                    )
                },
                EventView::Received(bytes) => if self.state != SessionState::Authenticated {
                    self.close(CloseReason::ProtocolViolation)
                } else if bytes.len() != 8 {
                    self.close(CloseReason::Nonce(NonceError::InvalidNonce))
                } else if wire_value(bytes) != self.receive_nonce {
                    match self.policy {
                        ReplayPolicy::CloseSession => self.close(
                            CloseReason::Nonce(NonceError::ReplayOrOutOfOrder),
                        ),
                        ReplayPolicy::DropMessage => (
                            self,
                            ActionView::Discard(NonceError::ReplayOrOutOfOrder),
                        ),
                    }
                } else if self.receive_nonce == u64::MAX {
                    self.close(CloseReason::Nonce(NonceError::Overflow))
                } else {
                    (
                        SessionView { receive_nonce: (self.receive_nonce + 1) as u64, ..self },
                        ActionView::Decrypt(self.receive_nonce),
                    )
                },
            }
        }
    }

    /// The session after a run of events.
    pub open spec fn run(self, events: Seq<EventView>) -> SessionView
        decreases events.len(),
    {
        if events.len() == 0 {
            self
        } else {
            self.run(events.drop_last()).step(events.last()).0
        }
    }

    /// The action that the event at place `i` of a run brings.
    pub open spec fn action_at(self, events: Seq<EventView>, i: int) -> ActionView {
        self.run(events.take(i)).step(events[i]).1
    }
}

/// A session that has not begun is well formed, and every event leaves a
/// well-formed session well formed.
pub proof fn lemma_step_keeps_wf(session: SessionView, event: EventView)
    requires
        session.wf(),
    ensures
        session.step(event).0.wf(),
        SessionView::fresh(session.policy).wf(),
{
}

/// Every run of events leaves a well-formed session well formed, and in it
/// neither nonce ever moves back.
pub proof fn lemma_run_keeps_wf(session: SessionView, events: Seq<EventView>)
    requires
        session.wf(),
    ensures
        session.run(events).wf(),
        session.run(events).send_nonce >= session.send_nonce,
        session.run(events).receive_nonce >= session.receive_nonce,
    decreases events.len(),
{
    if events.len() > 0 {
        lemma_run_keeps_wf(session, events.drop_last());
        lemma_step_keeps_wf(session.run(events.drop_last()), events.last());
    }
}

/// A closed session holds no key and knows no peer, whatever closed it, and
/// nothing brings it back.
pub proof fn lemma_closed_is_final(session: SessionView, event: EventView)
    requires
        session.wf(),
    ensures
        session.step(event).0.state == SessionState::Closed ==> session.step(event).0.encrypt_key
            is None && session.step(event).0.decrypt_key is None,
        session.state == SessionState::Closed ==> session.step(event) == (
            session,
            ActionView::Rejected,
        ),
{
}

/// A handshake that is handed an expired purpose key, its own or the
/// peer's, ends with `Expired`, and no symmetric key has been derived.
pub proof fn lemma_expired_key_ends_handshake(session: SessionView, check: KeyCheckView)
    requires
        session.wf(),
        check.signature_valid,
        check.key.subject == check.identity.identifier,
        check.key.purpose == Purpose::SecureChannel,
        !check.key.valid_at(check.now),
    ensures
        session.state == SessionState::Initiating ==> session.step(EventView::Start(check))
            == session.close(CloseReason::Verification(VerificationError::Expired)),
        session.state == SessionState::HandshakeInProgress ==> session.step(
            EventView::PeerKey(check),
        ) == session.close(CloseReason::Verification(VerificationError::Expired)),
        session.state == SessionState::Initiating || session.state
            == SessionState::HandshakeInProgress ==> session.encrypt_key is None
            && session.decrypt_key is None && session.closed(
            CloseReason::Verification(VerificationError::Expired),
        ).encrypt_key is None,
{
}

/// In one session no nonce is handed out twice for encryption: of two sends
/// in a run, the later one gets the greater nonce.
pub proof fn lemma_send_nonces_increase(
    session: SessionView,
    events: Seq<EventView>,
    i: int,
    j: int,
)
    requires
        session.wf(),
        0 <= i < j < events.len(),
        session.action_at(events, i) is Encrypt,
        session.action_at(events, j) is Encrypt,
    ensures
        session.action_at(events, i)->Encrypt_0 < session.action_at(events, j)->Encrypt_0,
{
    let before_i = session.run(events.take(i));
    let after_i = session.run(events.take(i + 1));
    let before_j = session.run(events.take(j));
    assert(events.take(i + 1).drop_last() =~= events.take(i));
    assert(events.take(i + 1).last() == events[i]);
    assert(after_i == before_i.step(events[i]).0);
    lemma_run_keeps_wf(session, events.take(i));
    lemma_run_keeps_wf(session, events.take(i + 1));
    lemma_run_split(session, events.take(j), i + 1);
    assert(events.take(j).take(i + 1) =~= events.take(i + 1));
    lemma_run_keeps_wf(after_i, events.take(j).skip(i + 1));
}

/// In one session no nonce is accepted twice for decryption: of two accepted
/// messages in a run, the later one bears the greater nonce.
pub proof fn lemma_receive_nonces_increase(
    session: SessionView,
    events: Seq<EventView>,
    i: int,
    j: int,
)
    requires
        session.wf(),
        0 <= i < j < events.len(),
        session.action_at(events, i) is Decrypt,
        session.action_at(events, j) is Decrypt,
    ensures
        session.action_at(events, i)->Decrypt_0 < session.action_at(events, j)->Decrypt_0,
{
    let before_i = session.run(events.take(i));
    let after_i = session.run(events.take(i + 1));
    assert(events.take(i + 1).drop_last() =~= events.take(i));
    assert(events.take(i + 1).last() == events[i]);
    assert(after_i == before_i.step(events[i]).0);
    lemma_run_keeps_wf(session, events.take(i));
    lemma_run_keeps_wf(session, events.take(i + 1));
    lemma_run_split(session, events.take(j), i + 1);
    assert(events.take(j).take(i + 1) =~= events.take(i + 1));
    lemma_run_keeps_wf(after_i, events.take(j).skip(i + 1));
}

/// A run can be made in two parts.
pub proof fn lemma_run_split(session: SessionView, events: Seq<EventView>, k: int)
    requires
        0 <= k <= events.len(),
    ensures
        session.run(events) == session.run(events.take(k)).run(events.skip(k)),
    decreases events.len(),
{
    if k == events.len() {
        assert(events.take(k) =~= events);
        assert(events.skip(k) =~= Seq::<EventView>::empty());
    } else {
        lemma_run_split(session, events.drop_last(), k);
        assert(events.drop_last().take(k) =~= events.take(k));
        assert(events.drop_last().skip(k) =~= events.skip(k).drop_last());
        assert(events.skip(k).last() == events.last());
    }
}

/// One end of a secure channel: the state of the handshake, the peer once it
/// is known, the two symmetric keys once they are derived, and a nonce for
/// each direction. It decides; the cryptography itself is done by its owner,
/// who tells the session what came of it.
#[derive(Debug)]
pub struct Session {
    policy: ReplayPolicy,
    state: SessionState,
    peer: Option<Vec<u8>>,
    encrypt_key: Option<Vec<u8>>,
    decrypt_key: Option<Vec<u8>>,
    send_nonce: Nonce,
    receive_nonce: Nonce,
    reason: Option<CloseReason>,
}

/// The bytes of an optional byte string.
pub open spec fn bytes_view(bytes: Option<Vec<u8>>) -> Option<Seq<u8>> {
    match bytes {
        Some(b) => Some(b@),
        None => None,
    }
}

impl View for Session {
    type V = SessionView;

    closed spec fn view(&self) -> SessionView {
        SessionView {
            policy: self.policy,
            state: self.state,
            peer: bytes_view(self.peer),
            encrypt_key: bytes_view(self.encrypt_key),
            decrypt_key: bytes_view(self.decrypt_key),
            send_nonce: self.send_nonce@,
            receive_nonce: self.receive_nonce@,
            reason: self.reason,
        }
    }
}

impl Session {
    /// A session that has not begun, and that closes when a nonce is
    /// replayed or out of order.
    pub fn new() -> (session: Session)
        ensures
            session@ == SessionView::fresh(ReplayPolicy::CloseSession),
            session@.wf(),
    {
        Session::with_policy(ReplayPolicy::CloseSession)
    }

    /// A session that has not begun, with the given policy for nonces that
    /// are replayed or out of order.
    pub fn with_policy(policy: ReplayPolicy) -> (session: Session)
        ensures
            session@ == SessionView::fresh(policy),
            session@.wf(),
    {
        Session {
            policy,
            state: SessionState::Initiating,
            peer: None,
            encrypt_key: None,
            decrypt_key: None,
            send_nonce: Nonce::new(0),
            receive_nonce: Nonce::new(0),
            reason: None,
        }
    }

    /// Takes up an authenticated session again where it was left: with its
    /// peer, its two keys, and the two nonces in their wire form.
    pub fn resume(
        policy: ReplayPolicy,
        peer: Vec<u8>,
        encrypt_key: Vec<u8>,
        decrypt_key: Vec<u8>,
        send_nonce: [u8; 8],
        receive_nonce: [u8; 8],
    ) -> (session: Session)
        ensures
            session@ == SessionView::resumed(
                policy,
                peer@,
                encrypt_key@,
                decrypt_key@,
                send_nonce@,
                receive_nonce@,
            ),
            session@.wf(),
    {
        proof {
            crate::nonce::lemma_wire_value_bounds(send_nonce@);
            crate::nonce::lemma_wire_value_bounds(receive_nonce@);
        }
        Session {
            policy,
            state: SessionState::Authenticated,
            peer: Some(peer),
            encrypt_key: Some(encrypt_key),
            decrypt_key: Some(decrypt_key),
            send_nonce: Nonce::from(send_nonce),
            receive_nonce: Nonce::from(receive_nonce),
            reason: None,
        }
    }

    /// Where the session stands.
    pub fn state(&self) -> (state: SessionState)
        ensures
            state == self@.state,
    {
        self.state
    }

    /// What the session does with a nonce that is replayed or out of order.
    pub fn policy(&self) -> (policy: ReplayPolicy)
        ensures
            policy == self@.policy,
    {
        self.policy
    }

    /// The identifier of the peer, once its purpose key has passed the check.
    pub fn peer(&self) -> (peer: Option<&Vec<u8>>)
        ensures
            match peer {
                Some(p) => self@.peer == Some(p@),
                None => self@.peer is None,
            },
    {
        self.peer.as_ref()
    }

    /// The key for what is sent, while the session is authenticated.
    pub fn encrypt_key(&self) -> (key: Option<&Vec<u8>>)
        ensures
            match key {
                Some(k) => self@.encrypt_key == Some(k@),
                None => self@.encrypt_key is None,
            },
    {
        self.encrypt_key.as_ref()
    }

    /// The key for what is received, while the session is authenticated.
    pub fn decrypt_key(&self) -> (key: Option<&Vec<u8>>)
        ensures
            match key {
                Some(k) => self@.decrypt_key == Some(k@),
                None => self@.decrypt_key is None,
            },
    {
        self.decrypt_key.as_ref()
    }

    /// The nonce that the next message sent will be encrypted under.
    pub fn send_nonce(&self) -> (nonce: Nonce)
        ensures
            nonce@ == self@.send_nonce,
    {
        self.send_nonce
    }

    /// The nonce that the next message received must bear.
    pub fn receive_nonce(&self) -> (nonce: Nonce)
        ensures
            nonce@ == self@.receive_nonce,
    {
        self.receive_nonce
    }

    /// Why the session was closed, if it was.
    pub fn close_reason(&self) -> (reason: Option<CloseReason>)
        ensures
            reason == self@.reason,
    {
        self.reason
    }

    fn shut(&mut self, reason: CloseReason) -> (action: Action)
        ensures
            (final(self)@, action@) == old(self)@.close(reason),
    {
        self.state = SessionState::Closed;
        self.peer = None;
        self.encrypt_key = None;
        self.decrypt_key = None;
        self.reason = Some(reason);
        Action::Closed(reason)
    }

    fn check(&mut self, check: &KeyCheck) -> (failure: Option<Action>)
        ensures
            match failure {
                Some(action) => check@.outcome() is Err && (final(self)@, action@) == old(
                    self,
                )@.close(CloseReason::Verification(check@.outcome()->Err_0)),
                None => check@.outcome() is Ok && *final(self) == *old(self),
            },
    {
        match check.key.verify(
            &check.identity,
            Purpose::SecureChannel,
            check.now,
            check.signature_valid,
        ) {
            Ok(_) => None,
            Err(e) => Some(self.shut(CloseReason::Verification(e))),
        }
    }

    /// Takes the session from one state to the next, as the event asks, and
    /// says what the owner is to do.
    pub fn step(&mut self, event: Event) -> (action: Action)
        ensures
            (final(self)@, action@) == old(self)@.step(event@),
            old(self)@.wf() ==> final(self)@.wf(),
    {
        proof {
            if self@.wf() {
                lemma_step_keeps_wf(self@, event@);
            }
        }
        if let SessionState::Closed = self.state {
            return Action::Rejected;
        }
        match event {
            Event::Close => self.shut(CloseReason::Requested),
            Event::PeerDisconnected => self.shut(CloseReason::PeerDisconnected),
            Event::Malformed => self.shut(CloseReason::MalformedHandshake),
            Event::KeyUnavailable => self.shut(CloseReason::KeyUnavailable),
            Event::Start(check) => {
                if let SessionState::Initiating = self.state {
                    match self.check(&check) {
                        Some(action) => action,
                        None => {
                            self.state = SessionState::HandshakeInProgress;
                            Action::SendHandshake
                        },
                    }
                } else {
                    self.shut(CloseReason::ProtocolViolation)
                }
            },
            Event::PeerKey(check) => {
                if let SessionState::HandshakeInProgress = self.state {
                    match self.check(&check) {
                        Some(action) => action,
                        None => {
                            self.peer = Some(vstd::slice::slice_to_vec(check.key.subject()));
                            Action::SendHandshake
                        },
                    }
                } else {
                    self.shut(CloseReason::ProtocolViolation)
                }
            },
            Event::KeysDerived { encrypt_key, decrypt_key } => {
                let in_handshake = match self.state {
                    SessionState::HandshakeInProgress => true,
                    _ => false,
                };
                if in_handshake && self.peer.is_some() {
                    self.state = SessionState::Authenticated;
                    self.encrypt_key = Some(encrypt_key);
                    self.decrypt_key = Some(decrypt_key);
                    self.send_nonce = Nonce::new(0);
                    self.receive_nonce = Nonce::new(0);
                    Action::Established
                } else {
                    self.shut(CloseReason::ProtocolViolation)
                }
            },
            Event::Send => {
                if let SessionState::Authenticated = self.state {
                    let current = self.send_nonce;
                    match self.send_nonce.increment() {
                        Ok(_) => Action::Encrypt(current),
                        Err(e) => self.shut(CloseReason::Nonce(e)),
                    }
                } else {
                    self.shut(CloseReason::ProtocolViolation)
                }
            },
            Event::Received(bytes) => {
                if let SessionState::Authenticated = self.state {
                    match Nonce::try_from(bytes.as_slice()) {
                        Err(e) => self.shut(CloseReason::Nonce(e)),
                        Ok(nonce) => {
                            if nonce.value() != self.receive_nonce.value() {
                                match self.policy {
                                    ReplayPolicy::CloseSession => self.shut(
                                        CloseReason::Nonce(NonceError::ReplayOrOutOfOrder),
                                    ),
                                    ReplayPolicy::DropMessage => Action::Discard(
                                        NonceError::ReplayOrOutOfOrder,
                                    ),
                                }
                            } else {
                                match self.receive_nonce.increment() {
                                    Ok(_) => Action::Decrypt(nonce),
                                    Err(e) => self.shut(CloseReason::Nonce(e)),
                                }
                            }
                        },
                    }
                } else {
                    self.shut(CloseReason::ProtocolViolation)
                }
            },
        }
    }
}

} // verus!
