use ockam_relay::access_control::AccessControl;
use ockam_relay::address::Address;
use ockam_relay::debugger::{
    _log_start_processor, _log_start_worker, display_log, generate_graphs, log_denied_message,
    log_incoming_message, log_inherit_context, log_outgoing_message, Debugger,
};
use ockam_relay::mailbox::{Mailbox, Mailboxes};
use ockam_relay::relay::RelayMessage;

fn addr(name: &str) -> Address {
    Address::from_string(name)
}

fn message(source: &str, destination: &str) -> RelayMessage {
    RelayMessage::new(addr(source), addr(destination), Vec::new())
}

fn text(bytes: Vec<u8>) -> String {
    String::from_utf8(bytes).unwrap()
}

fn lines(debugger: &Debugger) -> Vec<String> {
    display_log(debugger).into_iter().map(text).collect()
}

const HEAVY: &str = "======================================================================";
const LIGHT: &str = "----------------------------------------------------------------------";

const INHERITANCE_OPEN: &str = "digraph ockam_node {
  fontname=Arial;
  rankdir=TB;
  subgraph cluster_Inheritance {
    label=\"Inheritance\";
    fontsize=24.0;
    labelloc=\"t\";
    rankdir=TB;
    edge [fillcolor=\"#a6cee3\"];
    edge [color=\"#1f78b4\"];
    node [shape=record];
    node [fontname=Arial];
    node [fontsize=12.0];
";

const FLOW_OPEN: &str = "  }

  subgraph cluster_MessageFlow {
    label=\"MessageFlow\";
    fontsize=24.0;
    fontname=Arial;
    labelloc=\"t\";
    rankdir=TB;
    edge [fillcolor=\"#a60000\"];
    edge [color=\"#1f0000\"];
    node [shape=Mrecord];
    node [fontname=Arial];
    node [fontsize=12.0];
";

const CLOSE: &str = "  }
}
";

#[test]
fn an_empty_record_gives_the_bare_frame() {
    let debugger = Debugger::new();
    assert_eq!(
        text(generate_graphs(&debugger)),
        format!("{INHERITANCE_OPEN}{FLOW_OPEN}{CLOSE}")
    );
    assert_eq!(
        lines(&debugger),
        [
            HEAVY,
            "  Contexts Inherited",
            LIGHT,
            LIGHT,
            "  Incoming Messages Received",
            LIGHT
        ]
    );
    assert_eq!(HEAVY.len(), 70);
    assert_eq!(LIGHT.len(), 70);
}

fn sample() -> (Debugger, Mailboxes, Mailboxes) {
    let mut debugger = Debugger::new();
    let parent = Mailboxes::primary(Mailbox::allow_all(addr("app")));
    let child = Mailboxes::new(
        Mailbox::allow_all(addr("child.one")),
        vec![Mailbox::new(
            addr("child.two"),
            vec![
                AccessControl::AllowSourceAddress(addr("app")),
                AccessControl::AllowSourceAddresses(vec![addr("a.src"), addr("b.src")]),
            ],
            vec![AccessControl::DenyAll],
        )],
    );
    log_inherit_context(&mut debugger, &parent, &child);
    log_incoming_message(&mut debugger, &child, &message("b.src", "child.one"));
    log_incoming_message(&mut debugger, &child, &message("a.src", "child.one"));
    log_incoming_message(&mut debugger, &child, &message("b.src", "child.one"));
    log_incoming_message(&mut debugger, &parent, &message("child.one", "app"));
    (debugger, parent, child)
}

#[test]
fn the_graph_describes_inheritance_and_message_flow() {
    let (debugger, _, _) = sample();
    let nodes = |tag: &str| {
        format!(
            "    {tag}app [label=\"{{ app | in: [AllowAll] | out: [AllowAll]  }} \"]
    {tag}child_one [label=\"{{ child.one | in: [AllowAll] | out: [AllowAll]  }} \"]
    {tag}child_two [label=\"{{ child.two | in: [AllowSourceAddress(app), AllowSourceAddresses(a.src, b.src)] | out: [DenyAll]  }} \"]
"
        )
    };
    let expected = format!(
        "{INHERITANCE_OPEN}{}    app -> child_one;
    app -> child_two;
{FLOW_OPEN}{}    MF_a_src -> MF_child_one;
    MF_b_src -> MF_child_one;
    MF_child_one -> MF_app;
{CLOSE}",
        nodes(""),
        nodes("MF_")
    );
    assert_eq!(text(generate_graphs(&debugger)), expected);
}

#[test]
fn the_summary_lists_children_and_sources() {
    let (debugger, _, _) = sample();
    assert_eq!(
        lines(&debugger),
        [
            HEAVY,
            "  Contexts Inherited",
            LIGHT,
            "app in: [AllowAll] out: [AllowAll]",
            "    =>  {child.one in: [AllowAll] out: [AllowAll]}, {child.two in: [AllowSourceAddress(app), AllowSourceAddresses(a.src, b.src)] out: [DenyAll]}",
            LIGHT,
            "  Incoming Messages Received",
            LIGHT,
            "child.one in: [AllowAll] out: [AllowAll]",
            "    <=  a.src",
            "    <=  b.src",
            "app in: [AllowAll] out: [AllowAll]",
            "    <=  child.one",
        ]
    );
}

#[test]
fn each_parent_and_each_mailbox_stands_once() {
    let mut debugger = Debugger::new();
    let app = Mailboxes::primary(Mailbox::allow_all(addr("app")));
    let first = Mailboxes::primary(Mailbox::deny_all(addr("w1")));
    let second = Mailboxes::primary(Mailbox::deny_all(addr("w2")));
    let grandchild = Mailboxes::primary(Mailbox::deny_all(addr("w1.x")));
    log_inherit_context(&mut debugger, &app, &first);
    log_inherit_context(&mut debugger, &first, &grandchild);
    log_inherit_context(&mut debugger, &app, &second);
    log_inherit_context(&mut debugger, &app, &first);
    assert_eq!(
        lines(&debugger)[3..8],
        [
            "app in: [AllowAll] out: [AllowAll]",
            "    =>  {w1 in: [DenyAll] out: [DenyAll]}",
            "    =>  {w2 in: [DenyAll] out: [DenyAll]}",
            "    =>  {w1 in: [DenyAll] out: [DenyAll]}",
            "w1 in: [DenyAll] out: [DenyAll]",
        ]
    );
    let graph = text(generate_graphs(&debugger));
    let needle = "\n    w1 [label=";
    assert_eq!(graph.matches(needle).count(), 1);
    assert_eq!(graph.matches("\n    app [label=").count(), 1);
    assert_eq!(graph.matches("\n    MF_w1_x [label=").count(), 1);
    assert_eq!(graph.matches("    app -> w1;\n").count(), 2);
    assert_eq!(graph.matches("    w1 -> w1_x;\n").count(), 1);
    let order: Vec<usize> = ["    app [", "    w1 [", "    w2 [", "    w1_x ["]
        .iter()
        .map(|n| graph.find(n).unwrap())
        .collect();
    assert!(order.windows(2).all(|w| w[0] < w[1]));
}

#[test]
fn a_message_for_no_mailbox_of_the_receiver_is_noted_by_address_only() {
    let mut debugger = Debugger::new();
    let receiver = Mailboxes::primary(Mailbox::allow_all(addr("here")));
    log_incoming_message(&mut debugger, &receiver, &message("src", "elsewhere"));
    assert_eq!(debugger.sources_of(&addr("elsewhere")), vec![addr("src")]);
    assert_eq!(lines(&debugger).len(), 6);
}

#[test]
fn traffic_is_kept_message_by_message() {
    let mut debugger = Debugger::new();
    log_outgoing_message(&mut debugger, &message("a", "x"));
    log_outgoing_message(&mut debugger, &message("b", "y"));
    log_outgoing_message(&mut debugger, &message("a", "z"));
    log_outgoing_message(&mut debugger, &message("a", "x"));
    assert_eq!(
        debugger.destinations_of(&addr("a")),
        vec![addr("x"), addr("z"), addr("x")]
    );
    assert_eq!(debugger.destinations_of(&addr("b")), vec![addr("y")]);
    assert!(debugger.destinations_of(&addr("x")).is_empty());
    assert!(debugger.sources_of(&addr("x")).is_empty());

    log_denied_message(&mut debugger, &message("m", "x"));
    log_denied_message(&mut debugger, &message("n", "x"));
    assert_eq!(debugger.denied_sources_of(&addr("x")), vec![addr("m"), addr("n")]);
    assert_eq!(
        text(generate_graphs(&debugger)),
        format!("{INHERITANCE_OPEN}{FLOW_OPEN}{CLOSE}")
    );
    _log_start_worker();
    _log_start_processor();
}
