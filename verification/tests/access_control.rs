use ockam_relay::access_control::{clone_policy, policy_allows, AccessControl};
use ockam_relay::address::Address;
use ockam_relay::mailbox::{authorize, authorize_outgoing, Mailbox, Mailboxes};
use ockam_relay::relay::RelayMessage;

fn addr(name: &str) -> Address {
    Address::from_string(name)
}

fn message(source: &str, destination: &str) -> RelayMessage {
    RelayMessage::new(addr(source), addr(destination), vec![1, 2, 3])
}

#[test]
fn each_control_is_its_predicate() {
    let m = message("alice", "bob");
    assert!(AccessControl::AllowAll.is_authorized(&m));
    assert!(!AccessControl::DenyAll.is_authorized(&m));
    assert!(AccessControl::AllowSourceAddress(addr("alice")).is_authorized(&m));
    assert!(!AccessControl::AllowSourceAddress(addr("bob")).is_authorized(&m));
    assert!(AccessControl::AllowDestinationAddress(addr("bob")).is_authorized(&m));
    assert!(!AccessControl::AllowDestinationAddress(addr("alice")).is_authorized(&m));
    assert!(
        AccessControl::AllowSourceAddresses(vec![addr("carol"), addr("alice")]).is_authorized(&m)
    );
    assert!(!AccessControl::AllowSourceAddresses(vec![addr("carol")]).is_authorized(&m));
    assert!(!AccessControl::AllowSourceAddresses(vec![]).is_authorized(&m));
    assert!(
        AccessControl::AllowDestinationAddresses(vec![addr("bob"), addr("dave")])
            .is_authorized(&m)
    );
    assert!(!AccessControl::AllowDestinationAddresses(vec![addr("dave")]).is_authorized(&m));
}

#[test]
fn a_policy_is_the_conjunction_of_its_controls() {
    let m = message("alice", "bob");
    assert!(policy_allows(&vec![], &m));
    assert!(policy_allows(&vec![AccessControl::AllowAll], &m));
    assert!(policy_allows(
        &vec![
            AccessControl::AllowAll,
            AccessControl::AllowSourceAddress(addr("alice")),
            AccessControl::AllowDestinationAddress(addr("bob")),
        ],
        &m
    ));
    assert!(!policy_allows(
        &vec![
            AccessControl::AllowAll,
            AccessControl::AllowSourceAddress(addr("alice")),
            AccessControl::DenyAll,
        ],
        &m
    ));
    assert!(!policy_allows(
        &vec![
            AccessControl::AllowSourceAddress(addr("mallory")),
            AccessControl::AllowAll,
        ],
        &m
    ));
    let policy = vec![
        AccessControl::AllowSourceAddresses(vec![addr("alice")]),
        AccessControl::AllowAll,
    ];
    let copy = clone_policy(&policy);
    assert_eq!(copy.len(), 2);
    assert!(policy_allows(&copy, &m));
    assert!(!policy_allows(&copy, &message("mallory", "bob")));
}

#[test]
fn a_mailbox_is_guarded_in_both_directions() {
    let mailbox = Mailbox::new(
        addr("bob"),
        vec![AccessControl::AllowSourceAddress(addr("alice"))],
        vec![AccessControl::AllowDestinationAddress(addr("carol"))],
    );
    assert_eq!(mailbox.address(), &addr("bob"));
    assert!(authorize(&mailbox, &message("alice", "bob")));
    assert!(!authorize(&mailbox, &message("mallory", "bob")));
    assert!(authorize_outgoing(&mailbox, &message("bob", "carol")));
    assert!(!authorize_outgoing(&mailbox, &message("bob", "alice")));

    let open = Mailbox::allow_all(addr("open"));
    assert!(authorize(&open, &message("anyone", "open")));
    assert!(authorize_outgoing(&open, &message("open", "anyone")));
    let shut = Mailbox::deny_all(addr("shut"));
    assert!(!authorize(&shut, &message("anyone", "shut")));
    assert!(!authorize_outgoing(&shut, &message("shut", "anyone")));
}

#[test]
fn the_mailboxes_of_an_actor_are_found_by_address() {
    let mailboxes = Mailboxes::new(
        Mailbox::allow_all(addr("public")),
        vec![
            Mailbox::new(
                addr("private"),
                vec![AccessControl::AllowSourceAddress(addr("app"))],
                vec![AccessControl::DenyAll],
            ),
            Mailbox::deny_all(addr("spare")),
        ],
    );
    assert_eq!(mailboxes.primary_address(), &addr("public"));
    assert_eq!(mailboxes.primary_mailbox().address(), &addr("public"));
    assert_eq!(mailboxes.additional_mailboxes().len(), 2);
    assert_eq!(
        mailboxes.addresses(),
        vec![addr("public"), addr("private"), addr("spare")]
    );
    assert_eq!(
        mailboxes.find_mailbox(&addr("private")).map(|m| m.address().clone()),
        Some(addr("private"))
    );
    assert!(mailboxes.find_mailbox(&addr("nowhere")).is_none());
    assert!(mailboxes.contains(&addr("spare")));
    assert!(!mailboxes.contains(&addr("nowhere")));

    assert!(mailboxes.is_incoming_authorized(&message("anyone", "public")));
    assert!(mailboxes.is_incoming_authorized(&message("app", "private")));
    assert!(!mailboxes.is_incoming_authorized(&message("anyone", "private")));
    assert!(!mailboxes.is_incoming_authorized(&message("app", "spare")));
    assert!(!mailboxes.is_incoming_authorized(&message("app", "nowhere")));
    assert!(mailboxes.is_outgoing_authorized(&message("public", "anyone")));
    assert!(!mailboxes.is_outgoing_authorized(&message("private", "anyone")));
    assert!(!mailboxes.is_outgoing_authorized(&message("nowhere", "anyone")));

    let only = Mailboxes::primary(Mailbox::allow_all(addr("only")));
    assert_eq!(only.addresses(), vec![addr("only")]);
    let copy = mailboxes.clone();
    assert_eq!(copy.addresses(), mailboxes.addresses());
}

#[test]
fn a_relay_message_keeps_what_it_was_given() {
    let m = RelayMessage::new(addr("alice"), addr("bob"), vec![9, 8, 7]);
    assert_eq!(m.source(), &addr("alice"));
    assert_eq!(m.destination(), &addr("bob"));
    assert_eq!(m.payload(), &[9, 8, 7]);
    let copy = m.clone();
    assert_eq!(copy.source(), &addr("alice"));
    assert_eq!(copy.into_payload(), vec![9, 8, 7]);
}
