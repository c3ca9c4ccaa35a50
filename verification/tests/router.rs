use ockam_relay::access_control::AccessControl;
use ockam_relay::address::Address;
use ockam_relay::debugger::Debugger;
use ockam_relay::mailbox::{Mailbox, Mailboxes};
use ockam_relay::relay::RelayMessage;
use ockam_relay::router::{Router, RoutingError, SpawnError};

fn addr(name: &str) -> Address {
    Address::from_string(name)
}

fn message(source: &str, destination: &str, payload: &[u8]) -> RelayMessage {
    RelayMessage::new(addr(source), addr(destination), payload.to_vec())
}

fn open_actor(name: &str) -> Mailboxes {
    Mailboxes::primary(Mailbox::allow_all(addr(name)))
}

fn guarded_actor(name: &str, allowed_source: &str) -> Mailboxes {
    Mailboxes::primary(Mailbox::new(
        addr(name),
        vec![
            AccessControl::AllowAll,
            AccessControl::AllowSourceAddress(addr(allowed_source)),
        ],
        vec![AccessControl::AllowAll],
    ))
}

#[test]
fn a_message_reaches_the_queue_of_its_destination() {
    let mut router = Router::new();
    assert_eq!(router.spawn(open_actor("alice"), 8), Ok(()));
    assert_eq!(router.spawn(open_actor("bob"), 8), Ok(()));
    assert_eq!(router.actor_count(), 2);
    assert_eq!(router.pending(&addr("bob")), Some(0));

    assert_eq!(router.route(message("alice", "bob", b"hello")), Ok(()));
    assert_eq!(router.pending(&addr("bob")), Some(1));
    assert_eq!(router.pending(&addr("alice")), Some(0));

    let received = router.receive(&addr("bob")).unwrap();
    assert_eq!(received.source(), &addr("alice"));
    assert_eq!(received.destination(), &addr("bob"));
    assert_eq!(received.payload(), b"hello");
    assert_eq!(router.pending(&addr("bob")), Some(0));
    assert!(router.receive(&addr("bob")).is_none());
}

#[test]
fn messages_of_one_sender_arrive_in_the_order_sent() {
    let mut router = Router::new();
    router.spawn(open_actor("bob"), 16).unwrap();
    for i in 0..10u8 {
        assert_eq!(router.route(message("alice", "bob", &[i])), Ok(()));
    }
    for i in 0..10u8 {
        assert_eq!(router.receive(&addr("bob")).unwrap().payload(), &[i]);
    }
    assert!(router.receive(&addr("bob")).is_none());
}

#[test]
fn an_unknown_address_is_refused_and_no_queue_changes() {
    let mut router = Router::new();
    router.spawn(open_actor("alice"), 4).unwrap();
    router.spawn(open_actor("bob"), 4).unwrap();
    router.route(message("alice", "bob", b"one")).unwrap();

    assert_eq!(
        router.route(message("alice", "nobody", b"lost")),
        Err(RoutingError::UnknownAddress)
    );
    assert_eq!(router.pending(&addr("alice")), Some(0));
    assert_eq!(router.pending(&addr("bob")), Some(1));
    assert_eq!(router.pending(&addr("nobody")), None);
    assert!(router.receive(&addr("nobody")).is_none());
    assert!(!router.knows(&addr("nobody")));
    assert!(router.find_mailbox(&addr("nobody")).is_none());
}

#[test]
fn a_source_that_fails_one_control_is_never_delivered() {
    let mut router = Router::new();
    router.spawn(guarded_actor("vault", "app"), 4).unwrap();

    assert_eq!(
        router.route(message("mallory", "vault", b"open up")),
        Err(RoutingError::AccessDenied)
    );
    assert_eq!(router.pending(&addr("vault")), Some(0));

    assert_eq!(router.route(message("app", "vault", b"open up")), Ok(()));
    assert_eq!(router.pending(&addr("vault")), Some(1));

    assert_eq!(
        router.route(message("mallory", "vault", b"again")),
        Err(RoutingError::AccessDenied)
    );
    assert_eq!(router.pending(&addr("vault")), Some(1));
    assert_eq!(router.receive(&addr("vault")).unwrap().payload(), b"open up");
}

#[test]
fn a_full_queue_refuses() {
    let mut router = Router::new();
    router.spawn(open_actor("bob"), 2).unwrap();
    router.spawn(open_actor("idle"), 0).unwrap();
    assert_eq!(router.route(message("alice", "bob", b"1")), Ok(()));
    assert_eq!(router.route(message("alice", "bob", b"2")), Ok(()));
    assert_eq!(
        router.route(message("alice", "bob", b"3")),
        Err(RoutingError::MailboxFull)
    );
    assert_eq!(router.pending(&addr("bob")), Some(2));
    assert_eq!(
        router.route(message("alice", "idle", b"x")),
        Err(RoutingError::MailboxFull)
    );
    assert_eq!(router.receive(&addr("bob")).unwrap().payload(), b"1");
    assert_eq!(router.route(message("alice", "bob", b"3")), Ok(()));
    assert_eq!(router.receive(&addr("bob")).unwrap().payload(), b"2");
    assert_eq!(router.receive(&addr("bob")).unwrap().payload(), b"3");
}

#[test]
fn denial_is_decided_before_fullness() {
    let mut router = Router::new();
    router.spawn(guarded_actor("vault", "app"), 0).unwrap();
    assert_eq!(
        router.route(message("mallory", "vault", b"x")),
        Err(RoutingError::AccessDenied)
    );
    assert_eq!(
        router.route(message("app", "vault", b"x")),
        Err(RoutingError::MailboxFull)
    );
}

#[test]
fn an_address_is_registered_once() {
    let mut router = Router::new();
    assert_eq!(router.spawn(open_actor("alice"), 1), Ok(()));
    assert_eq!(
        router.spawn(open_actor("alice"), 1),
        Err(SpawnError::AddressInUse)
    );
    let twice = Mailboxes::new(
        Mailbox::allow_all(addr("carol")),
        vec![Mailbox::allow_all(addr("carol"))],
    );
    assert_eq!(router.spawn(twice, 1), Err(SpawnError::AddressInUse));
    let overlapping = Mailboxes::new(
        Mailbox::allow_all(addr("dave")),
        vec![Mailbox::allow_all(addr("alice"))],
    );
    assert_eq!(router.spawn(overlapping, 1), Err(SpawnError::AddressInUse));
    assert_eq!(router.actor_count(), 1);
    assert!(!router.knows(&addr("dave")));
    assert!(!router.knows(&addr("carol")));
}

#[test]
fn additional_mailboxes_share_the_queue_of_their_actor() {
    let mut router = Router::new();
    let channel = Mailboxes::new(
        Mailbox::allow_all(addr("channel.encrypted")),
        vec![Mailbox::new(
            addr("channel.decrypted"),
            vec![AccessControl::AllowSourceAddress(addr("app"))],
            vec![AccessControl::AllowAll],
        )],
    );
    router.spawn(channel, 4).unwrap();
    assert_eq!(
        router
            .find_mailbox(&addr("channel.decrypted"))
            .map(|m| m.address().clone()),
        Some(addr("channel.decrypted"))
    );
    assert_eq!(router.route(message("peer", "channel.encrypted", b"c")), Ok(()));
    assert_eq!(router.route(message("app", "channel.decrypted", b"p")), Ok(()));
    assert_eq!(
        router.route(message("peer", "channel.decrypted", b"p")),
        Err(RoutingError::AccessDenied)
    );
    assert_eq!(router.pending(&addr("channel.encrypted")), Some(2));
    assert_eq!(router.pending(&addr("channel.decrypted")), Some(2));
    assert_eq!(router.receive(&addr("channel.decrypted")).unwrap().payload(), b"c");
    assert_eq!(router.receive(&addr("channel.encrypted")).unwrap().payload(), b"p");
}

#[test]
fn a_removed_actor_is_unknown() {
    let mut router = Router::new();
    let channel = Mailboxes::new(
        Mailbox::allow_all(addr("main")),
        vec![Mailbox::allow_all(addr("side"))],
    );
    router.spawn(channel, 4).unwrap();
    router.spawn(open_actor("other"), 4).unwrap();
    router.route(message("x", "main", b"1")).unwrap();

    assert!(!router.despawn(&addr("side")));
    assert!(router.knows(&addr("side")));
    assert!(router.despawn(&addr("main")));
    assert!(!router.despawn(&addr("main")));
    assert!(!router.knows(&addr("main")));
    assert!(!router.knows(&addr("side")));
    assert!(router.knows(&addr("other")));
    assert_eq!(router.actor_count(), 1);
    assert_eq!(
        router.route(message("x", "side", b"2")),
        Err(RoutingError::UnknownAddress)
    );
    assert_eq!(router.spawn(open_actor("main"), 1), Ok(()));
}

#[test]
fn an_attached_debugger_sees_hops_and_denials_and_changes_nothing() {
    let mut observed = Router::with_debugger(Debugger::new());
    let mut plain = Router::new();
    assert!(plain.debugger().is_none());
    for router in [&mut observed, &mut plain] {
        router.spawn(open_actor("alice"), 2).unwrap();
        router.spawn(guarded_actor("vault", "alice"), 2).unwrap();
    }
    let traffic = [
        ("alice", "vault"),
        ("mallory", "vault"),
        ("alice", "vault"),
        ("alice", "vault"),
        ("vault", "alice"),
        ("vault", "nobody"),
    ];
    for (source, destination) in traffic {
        let a = observed.route(message(source, destination, b"m"));
        let b = plain.route(message(source, destination, b"m"));
        assert_eq!(a, b);
    }
    assert_eq!(observed.pending(&addr("vault")), plain.pending(&addr("vault")));
    assert_eq!(observed.pending(&addr("alice")), plain.pending(&addr("alice")));

    let debugger = observed.debugger().unwrap();
    assert_eq!(
        debugger.sources_of(&addr("vault")),
        vec![addr("alice"), addr("alice")]
    );
    assert_eq!(debugger.sources_of(&addr("alice")), vec![addr("vault")]);
    assert_eq!(debugger.denied_sources_of(&addr("vault")), vec![addr("mallory")]);
    assert!(debugger.denied_sources_of(&addr("alice")).is_empty());
    assert!(debugger.sources_of(&addr("nobody")).is_empty());
}

#[test]
fn a_child_is_noted_under_its_parent() {
    let mut router = Router::with_debugger(Debugger::new());
    router.spawn(open_actor("app"), 1).unwrap();
    assert_eq!(
        router.spawn_child(&addr("ghost"), open_actor("orphan"), 1),
        Err(SpawnError::UnknownParent)
    );
    assert_eq!(
        router.spawn_child(&addr("app"), open_actor("app"), 1),
        Err(SpawnError::AddressInUse)
    );
    assert_eq!(router.spawn_child(&addr("app"), open_actor("worker"), 1), Ok(()));
    assert!(router.knows(&addr("worker")));
    assert!(!router.knows(&addr("orphan")));
    let lines = ockam_relay::debugger::display_log(router.debugger().unwrap());
    let lines: Vec<String> = lines
        .into_iter()
        .map(|l| String::from_utf8(l).unwrap())
        .collect();
    assert_eq!(lines[3], "app in: [AllowAll] out: [AllowAll]");
    assert_eq!(lines[4], "    =>  {worker in: [AllowAll] out: [AllowAll]}");
    assert_eq!(lines.len(), 8);
}

#[test]
fn a_sender_is_told_of_a_denial_only_if_it_asked() {
    let mut router = Router::with_debugger(Debugger::new());
    router.spawn(guarded_actor("vault", "app"), 4).unwrap();
    router
        .spawn(
            Mailboxes::primary(Mailbox::new(
                addr("app"),
                vec![AccessControl::AllowAll],
                vec![AccessControl::AllowDestinationAddress(addr("vault"))],
            )),
            4,
        )
        .unwrap();
    router.spawn(open_actor("mallory"), 4).unwrap();

    // Refused by the destination.
    assert_eq!(router.send(message("mallory", "vault", b"x"), false), Ok(()));
    assert_eq!(
        router.send(message("mallory", "vault", b"x"), true),
        Err(RoutingError::AccessDenied)
    );
    assert_eq!(router.pending(&addr("vault")), Some(0));
    // Refused by the source's own outgoing policy.
    assert_eq!(router.send(message("app", "mallory", b"x"), false), Ok(()));
    assert_eq!(
        router.send(message("app", "mallory", b"x"), true),
        Err(RoutingError::AccessDenied)
    );
    assert_eq!(router.pending(&addr("mallory")), Some(0));
    // Let through by both.
    assert_eq!(router.send(message("app", "vault", b"key"), false), Ok(()));
    assert_eq!(router.send(message("app", "vault", b"key"), true), Ok(()));
    assert_eq!(router.pending(&addr("vault")), Some(2));
    // From outside, only the destination is asked.
    assert_eq!(router.send(message("outside", "mallory", b"x"), true), Ok(()));
    // Other failures are told always.
    assert_eq!(
        router.send(message("app", "nobody", b"x"), false),
        Ok(())
    );
    assert_eq!(
        router.send(message("mallory", "nobody", b"x"), false),
        Err(RoutingError::UnknownAddress)
    );

    let debugger = router.debugger().unwrap();
    assert_eq!(
        debugger.denied_sources_of(&addr("vault")),
        vec![addr("mallory"), addr("mallory")]
    );
    assert_eq!(
        debugger.denied_sources_of(&addr("mallory")),
        vec![addr("app"), addr("app")]
    );
    assert_eq!(
        debugger.denied_sources_of(&addr("nobody")),
        vec![addr("app")]
    );
    assert_eq!(
        debugger.destinations_of(&addr("app")),
        vec![addr("vault"), addr("vault")]
    );
    assert_eq!(
        debugger.destinations_of(&addr("mallory")),
        vec![addr("vault"), addr("vault"), addr("nobody")]
    );
    assert_eq!(debugger.sources_of(&addr("vault")), vec![addr("app"), addr("app")]);
}
