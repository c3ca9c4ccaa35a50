use vstd::prelude::*;
use vstd::string::StringSliceAdditionalSpecFns;
use crate::address::{
    clone_addresses,
    distinct,
    lemma_distinct_after_push,
    lemma_position,
    lemma_position_is_first,
    names,
    position,
    sort_dedup,
    sorted_unique,
    Address,
};
use crate::mailbox::{mailbox_views, Mailbox, MailboxView, Mailboxes, MailboxesView};
use crate::relay::{RelayMessage, RelayMessageView};
use crate::render::{
    mailbox_text,
    mailboxes_text,
    node_id,
    policy_text,
    put,
    put_bytes,
    put_mailbox,
    put_mailboxes,
    put_node_id,
    put_policy,
};

verus! {

/// What was recorded of one parent, as plain values.
pub struct InheritanceView {
    pub parent: MailboxView,
    pub children: Seq<MailboxesView>,
}

/// What was recorded of the traffic at one address, as plain values.
pub struct TrafficView {
    pub address: Seq<u8>,
    pub peers: Seq<Seq<u8>>,
}

/// What was recorded of the traffic into one mailbox, as plain values.
pub struct MailboxTrafficView {
    pub mailbox: MailboxView,
    pub sources: Seq<Seq<u8>>,
}

/// What a debugger has recorded, as plain values. Each table holds its keys
/// in the order in which they were first seen.
pub struct DebuggerView {
    pub inherited_mb: Seq<InheritanceView>,
    pub incoming: Seq<TrafficView>,
    pub incoming_mb: Seq<MailboxTrafficView>,
    pub outgoing: Seq<TrafficView>,
    pub denied: Seq<TrafficView>,
}

/// The children that one parent mailbox begat, in the order of their making.
#[derive(Debug)]
pub struct Inheritance {
    parent: Mailbox,
    children: Vec<Mailboxes>,
}

/// The addresses that one address exchanged messages with, one for each
/// message, in the order of the messages.
#[derive(Debug)]
pub struct Traffic {
    address: Address,
    peers: Vec<Address>,
}

/// The addresses that sent messages into one mailbox, one for each message,
/// in the order of the messages.
#[derive(Debug)]
pub struct MailboxTraffic {
    mailbox: Mailbox,
    sources: Vec<Address>,
}

/// The views of a sequence of actors' mailboxes, in the same order.
pub open spec fn mailboxes_views(list: Seq<Mailboxes>) -> Seq<MailboxesView> {
    list.map_values(|m: Mailboxes| m@)
}

impl View for Inheritance {
    type V = InheritanceView;

    closed spec fn view(&self) -> InheritanceView {
        InheritanceView { parent: self.parent@, children: mailboxes_views(self.children@) }
    }
}

impl View for Traffic {
    type V = TrafficView;

    closed spec fn view(&self) -> TrafficView {
        TrafficView { address: self.address@, peers: names(self.peers@) }
    }
}

impl View for MailboxTraffic {
    type V = MailboxTrafficView;

    closed spec fn view(&self) -> MailboxTrafficView {
        MailboxTrafficView { mailbox: self.mailbox@, sources: names(self.sources@) }
    }
}

/// The keys of an inheritance table: the addresses of the parents.
pub open spec fn inheritance_keys(table: Seq<InheritanceView>) -> Seq<Seq<u8>> {
    table.map_values(|e: InheritanceView| e.parent.address)
}

/// The keys of a traffic table.
pub open spec fn traffic_keys(table: Seq<TrafficView>) -> Seq<Seq<u8>> {
    table.map_values(|e: TrafficView| e.address)
}

/// The keys of a mailbox traffic table: the addresses of the mailboxes.
pub open spec fn mailbox_traffic_keys(table: Seq<MailboxTrafficView>) -> Seq<Seq<u8>> {
    table.map_values(|e: MailboxTrafficView| e.mailbox.address)
}

/// The table after `child` was recorded under `parent`: added to the
/// children of the entry with the parent's address, or, if there is none, in
/// a new entry at the end.
pub open spec fn record_inheritance(
    table: Seq<InheritanceView>,
    parent: MailboxView,
    child: MailboxesView,
) -> Seq<InheritanceView> {
    let p = position(inheritance_keys(table), parent.address);
    if p < table.len() {
        table.update(
            p,
            InheritanceView { parent: table[p].parent, children: table[p].children.push(child) },
        )
    } else {
        table.push(InheritanceView { parent, children: seq![child] })
    }
}

/// The table after `peer` was recorded under `address`: added to the peers
/// of the entry with that address, or, if there is none, in a new entry at
/// the end.
pub open spec fn record_traffic(table: Seq<TrafficView>, address: Seq<u8>, peer: Seq<u8>) -> Seq<
    TrafficView,
> {
    let p = position(traffic_keys(table), address);
    if p < table.len() {
        table.update(p, TrafficView { address: table[p].address, peers: table[p].peers.push(peer) })
    } else {
        table.push(TrafficView { address, peers: seq![peer] })
    }
}

/// The table after `source` was recorded under `mailbox`: added to the
/// sources of the entry with the mailbox's address, or, if there is none, in
/// a new entry at the end.
pub open spec fn record_mailbox_traffic(
    table: Seq<MailboxTrafficView>,
    mailbox: MailboxView,
    source: Seq<u8>,
) -> Seq<MailboxTrafficView> {
    let p = position(mailbox_traffic_keys(table), mailbox.address);
    if p < table.len() {
        table.update(
            p,
            MailboxTrafficView { mailbox: table[p].mailbox, sources: table[p].sources.push(source) },
        )
    } else {
        table.push(MailboxTrafficView { mailbox, sources: seq![source] })
    }
}

/// The views of an inheritance table's entries, in the same order.
pub open spec fn inheritance_views(table: Seq<Inheritance>) -> Seq<InheritanceView> {
    table.map_values(|e: Inheritance| e@)
}

/// The views of a traffic table's entries, in the same order.
pub open spec fn traffic_views(table: Seq<Traffic>) -> Seq<TrafficView> {
    table.map_values(|e: Traffic| e@)
}

/// The views of a mailbox traffic table's entries, in the same order.
pub open spec fn mailbox_traffic_views(table: Seq<MailboxTraffic>) -> Seq<MailboxTrafficView> {
    table.map_values(|e: MailboxTraffic| e@)
}

fn record_inheritance_in(table: &mut Vec<Inheritance>, parent: &Mailbox, child: &Mailboxes)
    ensures
        inheritance_views(final(table)@) == record_inheritance(
            inheritance_views(old(table)@),
            parent@,
            child@,
        ),
{
    let ghost before = inheritance_views(table@);
    let ghost keys = inheritance_keys(before);
    let mut p: usize = 0;
    while p < table.len() && !table[p].parent.address().equals(parent.address())
        invariant
            p <= table.len(),
            table@ == old(table)@,
            keys == inheritance_keys(inheritance_views(table@)),
            forall|j: int| 0 <= j < p ==> keys[j] != parent@.address,
        decreases table.len() - p,
    {
        p += 1;
    }
    proof {
        lemma_position(keys, parent@.address, p as int);
    }
    if p < table.len() {
        table[p].children.push(child.clone());
        assert(table@[p as int]@.children =~= before[p as int].children.push(child@));
    } else {
        let mut children: Vec<Mailboxes> = Vec::new();
        children.push(child.clone());
        assert(mailboxes_views(children@) =~= seq![child@]);
        table.push(Inheritance { parent: parent.clone(), children });
    }
    assert(inheritance_views(table@) =~= record_inheritance(before, parent@, child@));
}

fn record_traffic_in(table: &mut Vec<Traffic>, address: &Address, peer: &Address)
    ensures
        traffic_views(final(table)@) == record_traffic(
            traffic_views(old(table)@),
            address@,
            peer@,
        ),
{
    let ghost before = traffic_views(table@);
    let ghost keys = traffic_keys(before);
    let mut p: usize = 0;
    while p < table.len() && !table[p].address.equals(address)
        invariant
            p <= table.len(),
            table@ == old(table)@,
            keys == traffic_keys(traffic_views(table@)),
            forall|j: int| 0 <= j < p ==> keys[j] != address@,
        decreases table.len() - p,
    {
        p += 1;
    }
    proof {
        lemma_position(keys, address@, p as int);
    }
    if p < table.len() {
        table[p].peers.push(peer.clone());
        assert(table@[p as int]@.peers =~= before[p as int].peers.push(peer@));
    } else {
        let mut peers: Vec<Address> = Vec::new();
        peers.push(peer.clone());
        assert(names(peers@) =~= seq![peer@]);
        table.push(Traffic { address: address.clone(), peers });
    }
    assert(traffic_views(table@) =~= record_traffic(before, address@, peer@));
}

fn record_mailbox_traffic_in(table: &mut Vec<MailboxTraffic>, mailbox: &Mailbox, source: &Address)
    ensures
        mailbox_traffic_views(final(table)@) == record_mailbox_traffic(
            mailbox_traffic_views(old(table)@),
            mailbox@,
            source@,
        ),
{
    let ghost before = mailbox_traffic_views(table@);
    let ghost keys = mailbox_traffic_keys(before);
    let mut p: usize = 0;
    while p < table.len() && !table[p].mailbox.address().equals(mailbox.address())
        invariant
            p <= table.len(),
            table@ == old(table)@,
            keys == mailbox_traffic_keys(mailbox_traffic_views(table@)),
            forall|j: int| 0 <= j < p ==> keys[j] != mailbox@.address,
        decreases table.len() - p,
    {
        p += 1;
    }
    proof {
        lemma_position(keys, mailbox@.address, p as int);
    }
    if p < table.len() {
        table[p].sources.push(source.clone());
        assert(table@[p as int]@.sources =~= before[p as int].sources.push(source@));
    } else {
        let mut sources: Vec<Address> = Vec::new();
        sources.push(source.clone());
        assert(names(sources@) =~= seq![source@]);
        table.push(MailboxTraffic { mailbox: mailbox.clone(), sources });
    }
    assert(mailbox_traffic_views(table@) =~= record_mailbox_traffic(before, mailbox@, source@));
}

/// A record of what happens in a node: which actor's mailbox begat which
/// actors, and which address sent messages to which. It only observes: the
/// node works the same with it and without.
#[derive(Debug)]
pub struct Debugger {
    /// The main mailbox of each parent, with the mailboxes of its children.
    inherited_mb: Vec<Inheritance>,
    /// Each destination, with the sources of its messages.
    incoming: Vec<Traffic>,
    /// The mailbox of each destination, with the sources of its messages.
    incoming_mb: Vec<MailboxTraffic>,
    /// Each source, with the destinations of its messages.
    outgoing: Vec<Traffic>,
    /// Each destination, with the sources of the messages that it refused.
    denied: Vec<Traffic>,
}

impl View for Debugger {
    type V = DebuggerView;

    closed spec fn view(&self) -> DebuggerView {
        DebuggerView {
            inherited_mb: inheritance_views(self.inherited_mb@),
            incoming: traffic_views(self.incoming@),
            incoming_mb: mailbox_traffic_views(self.incoming_mb@),
            outgoing: traffic_views(self.outgoing@),
            denied: traffic_views(self.denied@),
        }
    }
}

impl DebuggerView {
    /// The record with nothing in it.
    pub open spec fn empty() -> DebuggerView {
        DebuggerView {
            inherited_mb: Seq::empty(),
            incoming: Seq::empty(),
            incoming_mb: Seq::empty(),
            outgoing: Seq::empty(),
            denied: Seq::empty(),
        }
    }

    /// What holds of every record: no table has two entries for one
    /// address.
    pub open spec fn wf(self) -> bool {
        &&& distinct(inheritance_keys(self.inherited_mb))
        &&& distinct(traffic_keys(self.incoming))
        &&& distinct(mailbox_traffic_keys(self.incoming_mb))
        &&& distinct(traffic_keys(self.outgoing))
        &&& distinct(traffic_keys(self.denied))
    }

    /// The record after a message was seen to arrive at an actor with the
    /// mailboxes `receiving`. The source is noted under the destination's
    /// address, and under the destination's mailbox if the actor has one at
    /// that address.
    pub open spec fn with_incoming(self, receiving: MailboxesView, message: RelayMessageView) -> DebuggerView {
        DebuggerView {
            incoming: record_traffic(self.incoming, message.destination, message.source),
            incoming_mb: match receiving.find(message.destination) {
                Some(mailbox) => record_mailbox_traffic(self.incoming_mb, mailbox, message.source),
                None => self.incoming_mb,
            },
            ..self
        }
    }

    /// The record after a message was seen to leave: the destination is noted
    /// under the source's address.
    pub open spec fn with_outgoing(self, message: RelayMessageView) -> DebuggerView {
        DebuggerView {
            outgoing: record_traffic(self.outgoing, message.source, message.destination),
            ..self
        }
    }

    /// The record after a message was seen to be refused by the mailbox it
    /// was for: the source is noted under the destination's address.
    pub open spec fn with_denied(self, message: RelayMessageView) -> DebuggerView {
        DebuggerView {
            denied: record_traffic(self.denied, message.destination, message.source),
            ..self
        }
    }

    /// The record after the actor with the mailboxes `parent` made an actor
    /// with the mailboxes `child`: the child is noted under the parent's
    /// primary mailbox.
    pub open spec fn with_inheritance(self, parent: MailboxesView, child: MailboxesView) -> DebuggerView {
        DebuggerView {
            inherited_mb: record_inheritance(self.inherited_mb, parent.primary, child),
            ..self
        }
    }
}

/// Recording keeps the keys of a table apart: what is recorded goes to the
/// entry that has its key, or to a new entry if no entry has.
pub proof fn lemma_recording_keeps_keys_distinct(
    inherited: Seq<InheritanceView>,
    traffic: Seq<TrafficView>,
    mailbox_traffic: Seq<MailboxTrafficView>,
    mailbox: MailboxView,
    child: MailboxesView,
    address: Seq<u8>,
    peer: Seq<u8>,
)
    ensures
        distinct(inheritance_keys(inherited)) ==> distinct(
            inheritance_keys(record_inheritance(inherited, mailbox, child)),
        ),
        distinct(traffic_keys(traffic)) ==> distinct(
            traffic_keys(record_traffic(traffic, address, peer)),
        ),
        distinct(mailbox_traffic_keys(mailbox_traffic)) ==> distinct(
            mailbox_traffic_keys(record_mailbox_traffic(mailbox_traffic, mailbox, peer)),
        ),
{
    if distinct(inheritance_keys(inherited)) {
        let keys = inheritance_keys(inherited);
        let after = inheritance_keys(record_inheritance(inherited, mailbox, child));
        lemma_position_is_first(keys, mailbox.address);
        if position(keys, mailbox.address) < inherited.len() {
            assert(after =~= keys);
        } else {
            lemma_distinct_after_push(keys, mailbox.address);
            assert(after =~= keys.push(mailbox.address));
        }
    }
    if distinct(traffic_keys(traffic)) {
        let keys = traffic_keys(traffic);
        let after = traffic_keys(record_traffic(traffic, address, peer));
        lemma_position_is_first(keys, address);
        if position(keys, address) < traffic.len() {
            assert(after =~= keys);
        } else {
            lemma_distinct_after_push(keys, address);
            assert(after =~= keys.push(address));
        }
    }
    if distinct(mailbox_traffic_keys(mailbox_traffic)) {
        let keys = mailbox_traffic_keys(mailbox_traffic);
        let after = mailbox_traffic_keys(record_mailbox_traffic(mailbox_traffic, mailbox, peer));
        lemma_position_is_first(keys, mailbox.address);
        if position(keys, mailbox.address) < mailbox_traffic.len() {
            assert(after =~= keys);
        } else {
            lemma_distinct_after_push(keys, mailbox.address);
            assert(after =~= keys.push(mailbox.address));
        }
    }
}

/// The empty record is well formed, and whatever is recorded leaves a
/// well-formed record well formed.
pub proof fn lemma_record_stays_wf(
    record: DebuggerView,
    mailboxes: MailboxesView,
    child: MailboxesView,
    message: RelayMessageView,
)
    requires
        record.wf(),
    ensures
        DebuggerView::empty().wf(),
        record.with_incoming(mailboxes, message).wf(),
        record.with_outgoing(message).wf(),
        record.with_denied(message).wf(),
        record.with_inheritance(mailboxes, child).wf(),
{
    lemma_recording_keeps_keys_distinct(
        record.inherited_mb,
        record.incoming,
        record.incoming_mb,
        mailboxes.primary,
        child,
        message.destination,
        message.source,
    );
    if mailboxes.find(message.destination) is Some {
        lemma_recording_keeps_keys_distinct(
            record.inherited_mb,
            record.incoming,
            record.incoming_mb,
            mailboxes.find(message.destination)->Some_0,
            child,
            message.destination,
            message.source,
        );
    }
    lemma_recording_keeps_keys_distinct(
        record.inherited_mb,
        record.outgoing,
        record.incoming_mb,
        mailboxes.primary,
        child,
        message.source,
        message.destination,
    );
    lemma_recording_keeps_keys_distinct(
        record.inherited_mb,
        record.denied,
        record.incoming_mb,
        mailboxes.primary,
        child,
        message.destination,
        message.source,
    );
}

impl Default for Debugger {
    fn default() -> (debugger: Debugger)
        ensures
            debugger@ == DebuggerView::empty(),
            debugger@.wf(),
    {
        Debugger::new()
    }
}

impl Debugger {
    /// A debugger that has recorded nothing.
    pub fn new() -> (debugger: Debugger)
        ensures
            debugger@ == DebuggerView::empty(),
            debugger@.wf(),
    {
        let debugger = Debugger {
            inherited_mb: Vec::new(),
            incoming: Vec::new(),
            incoming_mb: Vec::new(),
            outgoing: Vec::new(),
            denied: Vec::new(),
        };
        assert(debugger@.inherited_mb =~= Seq::empty());
        assert(debugger@.incoming =~= Seq::empty());
        assert(debugger@.incoming_mb =~= Seq::empty());
        assert(debugger@.outgoing =~= Seq::empty());
        assert(debugger@.denied =~= Seq::empty());
        debugger
    }

    /// The sources of the messages that were seen to arrive at `destination`,
    /// one for each message, in the order of the messages.
    pub fn sources_of(&self, destination: &Address) -> (sources: Vec<Address>)
        ensures
            names(sources@) == peers_of(self@.incoming, destination@),
    {
        peers_in(&self.incoming, destination)
    }

    /// The destinations of the messages that `source` was seen to send, one
    /// for each message, in the order of the messages.
    pub fn destinations_of(&self, source: &Address) -> (destinations: Vec<Address>)
        ensures
            names(destinations@) == peers_of(self@.outgoing, source@),
    {
        peers_in(&self.outgoing, source)
    }

    /// The sources of the messages that `destination` was seen to refuse, one
    /// for each message, in the order of the messages.
    pub fn denied_sources_of(&self, destination: &Address) -> (sources: Vec<Address>)
        ensures
            names(sources@) == peers_of(self@.denied, destination@),
    {
        peers_in(&self.denied, destination)
    }
}

/// The peers noted under `address` in a traffic table; none if the address
/// is not in the table.
pub open spec fn peers_of(table: Seq<TrafficView>, address: Seq<u8>) -> Seq<Seq<u8>> {
    let p = position(traffic_keys(table), address);
    if p < table.len() {
        table[p].peers
    } else {
        Seq::empty()
    }
}

fn peers_in(table: &Vec<Traffic>, address: &Address) -> (peers: Vec<Address>)
    ensures
        names(peers@) == peers_of(traffic_views(table@), address@),
{
    let ghost keys = traffic_keys(traffic_views(table@));
    let mut p: usize = 0;
    while p < table.len() && !table[p].address.equals(address)
        invariant
            p <= table.len(),
            keys == traffic_keys(traffic_views(table@)),
            forall|j: int| 0 <= j < p ==> keys[j] != address@,
        decreases table.len() - p,
    {
        p += 1;
    }
    proof {
        lemma_position(keys, address@, p as int);
    }
    if p < table.len() {
        clone_addresses(&table[p].peers)
    } else {
        let peers: Vec<Address> = Vec::new();
        assert(names(peers@) =~= Seq::<Seq<u8>>::empty());
        peers
    }
}

proof fn lemma_wf_needs_no_mailboxes(record: DebuggerView, message: RelayMessageView)
    requires
        record.wf(),
    ensures
        record.with_outgoing(message).wf(),
        record.with_denied(message).wf(),
{
    lemma_recording_keeps_keys_distinct(
        record.inherited_mb,
        record.outgoing,
        record.incoming_mb,
        arbitrary(),
        arbitrary(),
        message.source,
        message.destination,
    );
    lemma_recording_keeps_keys_distinct(
        record.inherited_mb,
        record.denied,
        record.incoming_mb,
        arbitrary(),
        arbitrary(),
        message.destination,
        message.source,
    );
}

/// Records that `relay_msg` arrived at the actor whose mailboxes are
/// `receiving`.
pub fn log_incoming_message(debugger: &mut Debugger, receiving: &Mailboxes, relay_msg: &RelayMessage)
    ensures
        final(debugger)@ == old(debugger)@.with_incoming(receiving@, relay_msg@),
        old(debugger)@.wf() ==> final(debugger)@.wf(),
{
    proof {
        if debugger@.wf() {
            lemma_record_stays_wf(debugger@, receiving@, receiving@, relay_msg@);
        }
    }
    record_traffic_in(&mut debugger.incoming, relay_msg.destination(), relay_msg.source());
    if let Some(destination_mb) = receiving.find_mailbox(relay_msg.destination()) {
        record_mailbox_traffic_in(&mut debugger.incoming_mb, destination_mb, relay_msg.source());
    }
}

/// Records that `relay_msg` was sent.
pub fn log_outgoing_message(debugger: &mut Debugger, relay_msg: &RelayMessage)
    ensures
        final(debugger)@ == old(debugger)@.with_outgoing(relay_msg@),
        old(debugger)@.wf() ==> final(debugger)@.wf(),
{
    proof {
        if debugger@.wf() {
            lemma_wf_needs_no_mailboxes(debugger@, relay_msg@);
        }
    }
    record_traffic_in(&mut debugger.outgoing, relay_msg.source(), relay_msg.destination());
}

/// Records that the mailbox that `relay_msg` was for refused it.
pub fn log_denied_message(debugger: &mut Debugger, relay_msg: &RelayMessage)
    ensures
        final(debugger)@ == old(debugger)@.with_denied(relay_msg@),
        old(debugger)@.wf() ==> final(debugger)@.wf(),
{
    proof {
        if debugger@.wf() {
            lemma_wf_needs_no_mailboxes(debugger@, relay_msg@);
        }
    }
    record_traffic_in(&mut debugger.denied, relay_msg.destination(), relay_msg.source());
}

/// Records that the actor whose mailboxes are `parent` made the actor whose
/// mailboxes are `child`.
pub fn log_inherit_context(debugger: &mut Debugger, parent: &Mailboxes, child: &Mailboxes)
    ensures
        final(debugger)@ == old(debugger)@.with_inheritance(parent@, child@),
        old(debugger)@.wf() ==> final(debugger)@.wf(),
{
    proof {
        if debugger@.wf() {
            lemma_record_stays_wf(
                debugger@,
                parent@,
                child@,
                RelayMessageView {
                    source: Seq::empty(),
                    destination: Seq::empty(),
                    payload: Seq::empty(),
                },
            );
        }
    }
    record_inheritance_in(&mut debugger.inherited_mb, parent.primary_mailbox(), child);
}

/// Reserved for a record of the workers that start. Nothing is recorded yet.
pub fn _log_start_worker() {
}

/// Reserved for a record of the processors that start. Nothing is recorded
/// yet.
pub fn _log_start_processor() {
}

/// The first lines of a graph description.
pub const GRAPH_OPEN: &'static str = "digraph ockam_node {\n  fontname=Arial;\n  rankdir=TB;\n";

/// The lines that open the cluster of inheritance.
pub const INHERITANCE_OPEN: &'static str =
    "  subgraph cluster_Inheritance {\n    label=\"Inheritance\";\n    fontsize=24.0;\n    labelloc=\"t\";\n    rankdir=TB;\n    edge [fillcolor=\"#a6cee3\"];\n    edge [color=\"#1f78b4\"];\n    node [shape=record];\n    node [fontname=Arial];\n    node [fontsize=12.0];\n";

/// The lines that close the cluster of inheritance.
pub const INHERITANCE_CLOSE: &'static str = "  }\n\n";

/// The lines that open the cluster of message flow.
pub const FLOW_OPEN: &'static str =
    "  subgraph cluster_MessageFlow {\n    label=\"MessageFlow\";\n    fontsize=24.0;\n    fontname=Arial;\n    labelloc=\"t\";\n    rankdir=TB;\n    edge [fillcolor=\"#a60000\"];\n    edge [color=\"#1f0000\"];\n    node [shape=Mrecord];\n    node [fontname=Arial];\n    node [fontsize=12.0];\n";

/// The line that closes the cluster of message flow.
pub const FLOW_CLOSE: &'static str = "  }\n";

/// The last line of a graph description.
pub const GRAPH_CLOSE: &'static str = "}\n";

/// The prefix of the names of the inheritance's nodes: none.
pub const INHERITANCE_TAG: &'static str = "";

/// The prefix that tells the nodes of the message flow from those of the
/// inheritance.
pub const FLOW_TAG: &'static str = "MF_";

/// The addresses of a sequence of mailboxes.
pub open spec fn mailbox_keys(set: Seq<MailboxView>) -> Seq<Seq<u8>> {
    set.map_values(|m: MailboxView| m.address)
}

/// A set of mailboxes with `mailbox` added at the end, unless it holds one
/// at that address already.
pub open spec fn with_mailbox(set: Seq<MailboxView>, mailbox: MailboxView) -> Seq<MailboxView> {
    if position(mailbox_keys(set), mailbox.address) < set.len() {
        set
    } else {
        set.push(mailbox)
    }
}

/// A set of mailboxes with those of `list` added, one after the other.
pub open spec fn with_mailboxes(set: Seq<MailboxView>, list: Seq<MailboxView>) -> Seq<MailboxView>
    decreases list.len(),
{
    if list.len() == 0 {
        set
    } else {
        with_mailbox(with_mailboxes(set, list.drop_last()), list.last())
    }
}

/// A set of mailboxes with the parent and the mailboxes of each child added.
pub open spec fn with_children(
    set: Seq<MailboxView>,
    parent: MailboxView,
    children: Seq<MailboxesView>,
) -> Seq<MailboxView>
    decreases children.len(),
{
    if children.len() == 0 {
        set
    } else {
        with_mailboxes(
            with_mailbox(with_children(set, parent, children.drop_last()), parent),
            children.last().all(),
        )
    }
}

/// A set of mailboxes with those of every entry of an inheritance table
/// added.
pub open spec fn with_entries(set: Seq<MailboxView>, table: Seq<InheritanceView>) -> Seq<
    MailboxView,
>
    decreases table.len(),
{
    if table.len() == 0 {
        set
    } else {
        with_children(
            with_entries(set, table.drop_last()),
            table.last().parent,
            table.last().children,
        )
    }
}

/// The mailboxes that a record of inheritance speaks of, each address once,
/// in the order in which they are first met.
pub open spec fn mailbox_set(table: Seq<InheritanceView>) -> Seq<MailboxView> {
    with_entries(Seq::empty(), table)
}

/// The mailboxes that a record speaks of stand each once: no two of them
/// are at one address.
pub proof fn lemma_mailbox_set_is_distinct(table: Seq<InheritanceView>)
    ensures
        distinct(mailbox_keys(mailbox_set(table))),
{
    lemma_with_entries_distinct(Seq::empty(), table);
}

proof fn lemma_with_mailbox_distinct(set: Seq<MailboxView>, mailbox: MailboxView)
    requires
        distinct(mailbox_keys(set)),
    ensures
        distinct(mailbox_keys(with_mailbox(set, mailbox))),
{
    let keys = mailbox_keys(set);
    if position(keys, mailbox.address) >= set.len() {
        lemma_distinct_after_push(keys, mailbox.address);
        assert(mailbox_keys(with_mailbox(set, mailbox)) =~= keys.push(mailbox.address));
    }
}

proof fn lemma_with_mailboxes_distinct(set: Seq<MailboxView>, list: Seq<MailboxView>)
    requires
        distinct(mailbox_keys(set)),
    ensures
        distinct(mailbox_keys(with_mailboxes(set, list))),
    decreases list.len(),
{
    if list.len() > 0 {
        lemma_with_mailboxes_distinct(set, list.drop_last());
        lemma_with_mailbox_distinct(with_mailboxes(set, list.drop_last()), list.last());
    }
}

proof fn lemma_with_children_distinct(
    set: Seq<MailboxView>,
    parent: MailboxView,
    children: Seq<MailboxesView>,
)
    requires
        distinct(mailbox_keys(set)),
    ensures
        distinct(mailbox_keys(with_children(set, parent, children))),
    decreases children.len(),
{
    if children.len() > 0 {
        lemma_with_children_distinct(set, parent, children.drop_last());
        let before = with_children(set, parent, children.drop_last());
        lemma_with_mailbox_distinct(before, parent);
        lemma_with_mailboxes_distinct(with_mailbox(before, parent), children.last().all());
    }
}

proof fn lemma_with_entries_distinct(set: Seq<MailboxView>, table: Seq<InheritanceView>)
    requires
        distinct(mailbox_keys(set)),
    ensures
        distinct(mailbox_keys(with_entries(set, table))),
    decreases table.len(),
{
    if table.len() > 0 {
        lemma_with_entries_distinct(set, table.drop_last());
        lemma_with_children_distinct(
            with_entries(set, table.drop_last()),
            table.last().parent,
            table.last().children,
        );
    }
}

/// The line that describes a mailbox as a node of a graph.
pub open spec fn node_line(tag: Seq<u8>, mailbox: MailboxView) -> Seq<u8> {
    "    ".spec_bytes() + tag + node_id(mailbox.address) + " [label=\"{ ".spec_bytes()
        + mailbox.address + " | in: ".spec_bytes() + policy_text(mailbox.incoming)
        + " | out: ".spec_bytes() + policy_text(mailbox.outgoing) + "  } \"]\n".spec_bytes()
}

/// The lines that describe the mailboxes of `set` as nodes.
pub open spec fn node_lines(tag: Seq<u8>, set: Seq<MailboxView>) -> Seq<u8>
    decreases set.len(),
{
    if set.len() == 0 {
        Seq::empty()
    } else {
        node_lines(tag, set.drop_last()) + node_line(tag, set.last())
    }
}

/// The line for an edge of the inheritance, from a parent to a mailbox of a
/// child.
pub open spec fn edge_line(parent: Seq<u8>, child: Seq<u8>) -> Seq<u8> {
    "    ".spec_bytes() + node_id(parent) + " -> ".spec_bytes() + node_id(child)
        + ";\n".spec_bytes()
}

/// The edges from a parent to each mailbox of `list`.
pub open spec fn mailbox_edges(parent: Seq<u8>, list: Seq<MailboxView>) -> Seq<u8>
    decreases list.len(),
{
    if list.len() == 0 {
        Seq::empty()
    } else {
        mailbox_edges(parent, list.drop_last()) + edge_line(parent, list.last().address)
    }
}

/// The edges from a parent to every mailbox of each of its children.
pub open spec fn children_edges(parent: Seq<u8>, children: Seq<MailboxesView>) -> Seq<u8>
    decreases children.len(),
{
    if children.len() == 0 {
        Seq::empty()
    } else {
        children_edges(parent, children.drop_last()) + mailbox_edges(
            parent,
            children.last().all(),
        )
    }
}

/// The edges of the whole inheritance.
pub open spec fn topology(table: Seq<InheritanceView>) -> Seq<u8>
    decreases table.len(),
{
    if table.len() == 0 {
        Seq::empty()
    } else {
        topology(table.drop_last()) + children_edges(
            table.last().parent.address,
            table.last().children,
        )
    }
}

/// The line for an edge of the message flow, from a source to a destination.
pub open spec fn flow_line(source: Seq<u8>, destination: Seq<u8>) -> Seq<u8> {
    "    MF_".spec_bytes() + node_id(source) + " -> MF_".spec_bytes() + node_id(destination)
        + ";\n".spec_bytes()
}

/// The edges from each of `sources` to a destination.
pub open spec fn source_flows(sources: Seq<Seq<u8>>, destination: Seq<u8>) -> Seq<u8>
    decreases sources.len(),
{
    if sources.len() == 0 {
        Seq::empty()
    } else {
        source_flows(sources.drop_last(), destination) + flow_line(sources.last(), destination)
    }
}

/// The edges of the whole message flow: for each destination one from each
/// of its sources, the sources in order and each once.
pub open spec fn flows(table: Seq<MailboxTrafficView>) -> Seq<u8>
    decreases table.len(),
{
    if table.len() == 0 {
        Seq::empty()
    } else {
        flows(table.drop_last()) + source_flows(
            sorted_unique(table.last().sources),
            table.last().mailbox.address,
        )
    }
}

/// The description of what was recorded as a directed graph, in the language
/// of graphviz: a cluster for the inheritance of actors, and one for the flow
/// of messages.
pub open spec fn graph_text(record: DebuggerView) -> Seq<u8> {
    GRAPH_OPEN.spec_bytes() + INHERITANCE_OPEN.spec_bytes() + node_lines(
        INHERITANCE_TAG.spec_bytes(),
        mailbox_set(record.inherited_mb),
    ) + topology(record.inherited_mb) + INHERITANCE_CLOSE.spec_bytes() + FLOW_OPEN.spec_bytes()
        + node_lines(FLOW_TAG.spec_bytes(), mailbox_set(record.inherited_mb)) + flows(
        record.incoming_mb,
    ) + FLOW_CLOSE.spec_bytes() + GRAPH_CLOSE.spec_bytes()
}

fn insert_mailbox(set: &mut Vec<Mailbox>, mailbox: &Mailbox)
    ensures
        mailbox_views(final(set)@) == with_mailbox(mailbox_views(old(set)@), mailbox@),
{
    let ghost before = mailbox_views(set@);
    let ghost keys = mailbox_keys(before);
    let mut p: usize = 0;
    while p < set.len() && !set[p].address().equals(mailbox.address())
        invariant
            p <= set.len(),
            set@ == old(set)@,
            keys == mailbox_keys(mailbox_views(set@)),
            forall|j: int| 0 <= j < p ==> keys[j] != mailbox@.address,
        decreases set.len() - p,
    {
        p += 1;
    }
    proof {
        lemma_position(keys, mailbox@.address, p as int);
    }
    if p >= set.len() {
        set.push(mailbox.clone());
    }
    assert(mailbox_views(set@) =~= with_mailbox(before, mailbox@));
}

fn insert_child(set: &mut Vec<Mailbox>, parent: &Mailbox, child: &Mailboxes)
    ensures
        mailbox_views(final(set)@) == with_mailboxes(
            with_mailbox(mailbox_views(old(set)@), parent@),
            child@.all(),
        ),
{
    insert_mailbox(set, parent);
    let ghost base = mailbox_views(set@);
    let ghost all = child@.all();
    insert_mailbox(set, child.primary_mailbox());
    proof {
        assert(all.take(1).drop_last() =~= Seq::<MailboxView>::empty());
        assert(all.take(1).last() == child@.primary);
        assert(with_mailboxes(base, all.take(1).drop_last()) == base);
    }
    let rest = child.additional_mailboxes();
    let mut i: usize = 0;
    while i < rest.len()
        invariant
            i <= rest.len(),
            all == child@.all(),
            mailbox_views(rest@) == child@.additional,
            mailbox_views(set@) == with_mailboxes(base, all.take(i + 1)),
        decreases rest.len() - i,
    {
        proof {
            let next = all.take(i + 2);
            assert(next.drop_last() =~= all.take(i + 1));
            assert(next.last() == mailbox_views(rest@)[i as int]);
        }
        insert_mailbox(set, &rest[i]);
        i += 1;
    }
    assert(all.take(rest.len() + 1) =~= all);
}

fn insert_children(set: &mut Vec<Mailbox>, entry: &Inheritance)
    ensures
        mailbox_views(final(set)@) == with_children(
            mailbox_views(old(set)@),
            entry@.parent,
            entry@.children,
        ),
{
    let ghost base = mailbox_views(set@);
    let ghost children = entry@.children;
    let mut i: usize = 0;
    assert(children.take(0) =~= Seq::<MailboxesView>::empty());
    while i < entry.children.len()
        invariant
            i <= entry.children.len(),
            children == mailboxes_views(entry.children@),
            mailbox_views(set@) == with_children(base, entry.parent@, children.take(i as int)),
        decreases entry.children.len() - i,
    {
        proof {
            let next = children.take(i + 1);
            assert(next.drop_last() =~= children.take(i as int));
            assert(next.last() == entry.children@[i as int]@);
        }
        insert_child(set, &entry.parent, &entry.children[i]);
        i += 1;
    }
    assert(children.take(entry.children.len() as int) =~= children);
}

fn collect_mailboxes(table: &Vec<Inheritance>) -> (set: Vec<Mailbox>)
    ensures
        mailbox_views(set@) == mailbox_set(inheritance_views(table@)),
{
    let mut set: Vec<Mailbox> = Vec::new();
    let ghost entries = inheritance_views(table@);
    let mut i: usize = 0;
    assert(entries.take(0) =~= Seq::<InheritanceView>::empty());
    assert(mailbox_views(set@) =~= Seq::<MailboxView>::empty());
    while i < table.len()
        invariant
            i <= table.len(),
            entries == inheritance_views(table@),
            mailbox_views(set@) == with_entries(Seq::empty(), entries.take(i as int)),
        decreases table.len() - i,
    {
        proof {
            let next = entries.take(i + 1);
            assert(next.drop_last() =~= entries.take(i as int));
            assert(next.last() == table@[i as int]@);
        }
        insert_children(&mut set, &table[i]);
        i += 1;
    }
    assert(entries.take(table.len() as int) =~= entries);
    set
}

fn put_node(out: &mut Vec<u8>, mailbox: &Mailbox, tag: &str)
    ensures
        final(out)@ == old(out)@ + node_line(tag.spec_bytes(), mailbox@),
{
    put(out, "    ");
    put(out, tag);
    put_node_id(out, mailbox.address());
    put(out, " [label=\"{ ");
    put_bytes(out, mailbox.address().as_bytes());
    put(out, " | in: ");
    put_policy(out, mailbox.incoming_access_control());
    put(out, " | out: ");
    put_policy(out, mailbox.outgoing_access_control());
    put(out, "  } \"]\n");
    assert(out@ =~= old(out)@ + node_line(tag.spec_bytes(), mailbox@));
}

fn put_nodes(out: &mut Vec<u8>, set: &Vec<Mailbox>, tag: &str)
    ensures
        final(out)@ == old(out)@ + node_lines(tag.spec_bytes(), mailbox_views(set@)),
{
    let ghost views = mailbox_views(set@);
    let mut i: usize = 0;
    assert(views.take(0) =~= Seq::<MailboxView>::empty());
    assert(out@ =~= old(out)@ + node_lines(tag.spec_bytes(), views.take(0)));
    while i < set.len()
        invariant
            i <= set.len(),
            views == mailbox_views(set@),
            out@ == old(out)@ + node_lines(tag.spec_bytes(), views.take(i as int)),
        decreases set.len() - i,
    {
        proof {
            let next = views.take(i + 1);
            assert(next.drop_last() =~= views.take(i as int));
            assert(next.last() == set@[i as int]@);
        }
        put_node(out, &set[i], tag);
        assert(out@ =~= old(out)@ + node_lines(tag.spec_bytes(), views.take(i + 1)));
        i += 1;
    }
    assert(views.take(set.len() as int) =~= views);
}

fn put_edge(out: &mut Vec<u8>, parent: &Address, child: &Address)
    ensures
        final(out)@ == old(out)@ + edge_line(parent@, child@),
{
    put(out, "    ");
    put_node_id(out, parent);
    put(out, " -> ");
    put_node_id(out, child);
    put(out, ";\n");
    assert(out@ =~= old(out)@ + edge_line(parent@, child@));
}

fn put_mailbox_edges(out: &mut Vec<u8>, parent: &Address, child: &Mailboxes)
    ensures
        final(out)@ == old(out)@ + mailbox_edges(parent@, child@.all()),
{
    let ghost all = child@.all();
    proof {
        assert(all.take(1).drop_last() =~= Seq::<MailboxView>::empty());
        assert(all.take(1).last() == child@.primary);
        assert(mailbox_edges(parent@, Seq::<MailboxView>::empty()) == Seq::<u8>::empty());
    }
    put_edge(out, parent, child.primary_address());
    assert(out@ =~= old(out)@ + mailbox_edges(parent@, all.take(1)));
    let rest = child.additional_mailboxes();
    let mut i: usize = 0;
    while i < rest.len()
        invariant
            i <= rest.len(),
            all == child@.all(),
            mailbox_views(rest@) == child@.additional,
            out@ == old(out)@ + mailbox_edges(parent@, all.take(i + 1)),
        decreases rest.len() - i,
    {
        proof {
            let next = all.take(i + 2);
            assert(next.drop_last() =~= all.take(i + 1));
            assert(next.last() == mailbox_views(rest@)[i as int]);
        }
        put_edge(out, parent, rest[i].address());
        assert(out@ =~= old(out)@ + mailbox_edges(parent@, all.take(i + 2)));
        i += 1;
    }
    assert(all.take(rest.len() + 1) =~= all);
}

fn put_children_edges(out: &mut Vec<u8>, entry: &Inheritance)
    ensures
        final(out)@ == old(out)@ + children_edges(entry@.parent.address, entry@.children),
{
    let ghost children = entry@.children;
    let ghost parent = entry@.parent.address;
    let mut i: usize = 0;
    assert(children.take(0) =~= Seq::<MailboxesView>::empty());
    assert(out@ =~= old(out)@ + children_edges(parent, children.take(0)));
    while i < entry.children.len()
        invariant
            i <= entry.children.len(),
            children == mailboxes_views(entry.children@),
            parent == entry.parent@.address,
            out@ == old(out)@ + children_edges(parent, children.take(i as int)),
        decreases entry.children.len() - i,
    {
        proof {
            let next = children.take(i + 1);
            assert(next.drop_last() =~= children.take(i as int));
            assert(next.last() == entry.children@[i as int]@);
        }
        put_mailbox_edges(out, entry.parent.address(), &entry.children[i]);
        assert(out@ =~= old(out)@ + children_edges(parent, children.take(i + 1)));
        i += 1;
    }
    assert(children.take(entry.children.len() as int) =~= children);
}

fn put_topology(out: &mut Vec<u8>, table: &Vec<Inheritance>)
    ensures
        final(out)@ == old(out)@ + topology(inheritance_views(table@)),
{
    let ghost entries = inheritance_views(table@);
    let mut i: usize = 0;
    assert(entries.take(0) =~= Seq::<InheritanceView>::empty());
    assert(out@ =~= old(out)@ + topology(entries.take(0)));
    while i < table.len()
        invariant
            i <= table.len(),
            entries == inheritance_views(table@),
            out@ == old(out)@ + topology(entries.take(i as int)),
        decreases table.len() - i,
    {
        proof {
            let next = entries.take(i + 1);
            assert(next.drop_last() =~= entries.take(i as int));
            assert(next.last() == table@[i as int]@);
        }
        put_children_edges(out, &table[i]);
        assert(out@ =~= old(out)@ + topology(entries.take(i + 1)));
        i += 1;
    }
    assert(entries.take(table.len() as int) =~= entries);
}

fn put_flow(out: &mut Vec<u8>, source: &Address, destination: &Address)
    ensures
        final(out)@ == old(out)@ + flow_line(source@, destination@),
{
    put(out, "    MF_");
    put_node_id(out, source);
    put(out, " -> MF_");
    put_node_id(out, destination);
    put(out, ";\n");
    assert(out@ =~= old(out)@ + flow_line(source@, destination@));
}

fn put_source_flows(out: &mut Vec<u8>, sources: &Vec<Address>, destination: &Address)
    ensures
        final(out)@ == old(out)@ + source_flows(names(sources@), destination@),
{
    let ghost list = names(sources@);
    let mut i: usize = 0;
    assert(list.take(0) =~= Seq::<Seq<u8>>::empty());
    assert(out@ =~= old(out)@ + source_flows(list.take(0), destination@));
    while i < sources.len()
        invariant
            i <= sources.len(),
            list == names(sources@),
            out@ == old(out)@ + source_flows(list.take(i as int), destination@),
        decreases sources.len() - i,
    {
        proof {
            let next = list.take(i + 1);
            assert(next.drop_last() =~= list.take(i as int));
            assert(next.last() == sources@[i as int]@);
        }
        put_flow(out, &sources[i], destination);
        assert(out@ =~= old(out)@ + source_flows(list.take(i + 1), destination@));
        i += 1;
    }
    assert(list.take(sources.len() as int) =~= list);
}

fn put_flows(out: &mut Vec<u8>, table: &Vec<MailboxTraffic>)
    ensures
        final(out)@ == old(out)@ + flows(mailbox_traffic_views(table@)),
{
    let ghost entries = mailbox_traffic_views(table@);
    let mut i: usize = 0;
    assert(entries.take(0) =~= Seq::<MailboxTrafficView>::empty());
    assert(out@ =~= old(out)@ + flows(entries.take(0)));
    while i < table.len()
        invariant
            i <= table.len(),
            entries == mailbox_traffic_views(table@),
            out@ == old(out)@ + flows(entries.take(i as int)),
        decreases table.len() - i,
    {
        proof {
            let next = entries.take(i + 1);
            assert(next.drop_last() =~= entries.take(i as int));
            assert(next.last() == table@[i as int]@);
        }
        let sources = sort_dedup(&table[i].sources);
        put_source_flows(out, &sources, table[i].mailbox.address());
        assert(out@ =~= old(out)@ + flows(entries.take(i + 1)));
        i += 1;
    }
    assert(entries.take(table.len() as int) =~= entries);
}

/// Describes what the debugger has recorded as a directed graph that
/// graphviz can draw.
pub fn generate_graphs(debugger: &Debugger) -> (text: Vec<u8>)
    ensures
        text@ == graph_text(debugger@),
{
    let mailboxes = collect_mailboxes(&debugger.inherited_mb);
    let mut out: Vec<u8> = Vec::new();
    put(&mut out, GRAPH_OPEN);
    put(&mut out, INHERITANCE_OPEN);
    put_nodes(&mut out, &mailboxes, INHERITANCE_TAG);
    put_topology(&mut out, &debugger.inherited_mb);
    put(&mut out, INHERITANCE_CLOSE);
    put(&mut out, FLOW_OPEN);
    put_nodes(&mut out, &mailboxes, FLOW_TAG);
    put_flows(&mut out, &debugger.incoming_mb);
    put(&mut out, FLOW_CLOSE);
    put(&mut out, GRAPH_CLOSE);
    assert(out@ =~= graph_text(debugger@));
    out
}

/// The heavy rule that opens the summary.
pub const RULE_HEAVY: &'static str =
    "======================================================================";

/// The light rule that sets the parts of the summary apart.
pub const RULE_LIGHT: &'static str =
    "----------------------------------------------------------------------";

/// The title of the summary's first part.
pub const TITLE_INHERITED: &'static str = "  Contexts Inherited";

/// The title of the summary's second part.
pub const TITLE_INCOMING: &'static str = "  Incoming Messages Received";

/// What stands before each child in the summary.
pub const MARK_CHILD: &'static str = "    =>  ";

/// What stands before each source in the summary.
pub const MARK_SOURCE: &'static str = "    <=  ";

/// The contents of a sequence of lines.
pub open spec fn line_views(lines: Seq<Vec<u8>>) -> Seq<Seq<u8>> {
    lines.map_values(|l: Vec<u8>| l@)
}

/// One line for each child: the mark, then the child's mailboxes.
pub open spec fn child_log_lines(children: Seq<MailboxesView>) -> Seq<Seq<u8>>
    decreases children.len(),
{
    if children.len() == 0 {
        Seq::empty()
    } else {
        child_log_lines(children.drop_last()).push(
            MARK_CHILD.spec_bytes() + mailboxes_text(children.last()),
        )
    }
}

/// For each parent a line with its mailbox, then the lines of its children.
pub open spec fn inherited_log_lines(table: Seq<InheritanceView>) -> Seq<Seq<u8>>
    decreases table.len(),
{
    if table.len() == 0 {
        Seq::empty()
    } else {
        inherited_log_lines(table.drop_last()).push(mailbox_text(table.last().parent))
            + child_log_lines(table.last().children)
    }
}

/// One line for each source: the mark, then the source's name.
pub open spec fn source_log_lines(sources: Seq<Seq<u8>>) -> Seq<Seq<u8>>
    decreases sources.len(),
{
    if sources.len() == 0 {
        Seq::empty()
    } else {
        source_log_lines(sources.drop_last()).push(MARK_SOURCE.spec_bytes() + sources.last())
    }
}

/// For each destination a line with its mailbox, then the lines of its
/// sources, the sources in order and each once.
pub open spec fn incoming_log_lines(table: Seq<MailboxTrafficView>) -> Seq<Seq<u8>>
    decreases table.len(),
{
    if table.len() == 0 {
        Seq::empty()
    } else {
        incoming_log_lines(table.drop_last()).push(mailbox_text(table.last().mailbox))
            + source_log_lines(sorted_unique(table.last().sources))
    }
}

/// The summary of what was recorded, line by line: the inheritance of
/// actors, then the messages that each mailbox received.
pub open spec fn log_lines(record: DebuggerView) -> Seq<Seq<u8>> {
    seq![RULE_HEAVY.spec_bytes(), TITLE_INHERITED.spec_bytes(), RULE_LIGHT.spec_bytes()]
        + inherited_log_lines(record.inherited_mb) + seq![
        RULE_LIGHT.spec_bytes(),
        TITLE_INCOMING.spec_bytes(),
        RULE_LIGHT.spec_bytes(),
    ] + incoming_log_lines(record.incoming_mb)
}

fn push_line(lines: &mut Vec<Vec<u8>>, line: Vec<u8>)
    ensures
        line_views(final(lines)@) == line_views(old(lines)@).push(line@),
{
    lines.push(line);
    assert(line_views(lines@) =~= line_views(old(lines)@).push(line@));
}

fn push_text(lines: &mut Vec<Vec<u8>>, text: &str)
    ensures
        line_views(final(lines)@) == line_views(old(lines)@).push(text.spec_bytes()),
{
    let mut line: Vec<u8> = Vec::new();
    put(&mut line, text);
    assert(line@ =~= text.spec_bytes());
    push_line(lines, line);
}

fn push_child_lines(lines: &mut Vec<Vec<u8>>, children: &Vec<Mailboxes>)
    ensures
        line_views(final(lines)@) == line_views(old(lines)@) + child_log_lines(
            mailboxes_views(children@),
        ),
{
    let ghost views = mailboxes_views(children@);
    let mut i: usize = 0;
    assert(views.take(0) =~= Seq::<MailboxesView>::empty());
    assert(line_views(lines@) =~= line_views(old(lines)@) + child_log_lines(views.take(0)));
    while i < children.len()
        invariant
            i <= children.len(),
            views == mailboxes_views(children@),
            line_views(lines@) == line_views(old(lines)@) + child_log_lines(views.take(i as int)),
        decreases children.len() - i,
    {
        proof {
            let next = views.take(i + 1);
            assert(next.drop_last() =~= views.take(i as int));
            assert(next.last() == children@[i as int]@);
        }
        let mut line: Vec<u8> = Vec::new();
        put(&mut line, MARK_CHILD);
        put_mailboxes(&mut line, &children[i]);
        assert(line@ =~= MARK_CHILD.spec_bytes() + mailboxes_text(children@[i as int]@));
        push_line(lines, line);
        assert(line_views(lines@) =~= line_views(old(lines)@) + child_log_lines(
            views.take(i + 1),
        ));
        i += 1;
    }
    assert(views.take(children.len() as int) =~= views);
}

fn push_inherited_lines(lines: &mut Vec<Vec<u8>>, table: &Vec<Inheritance>)
    ensures
        line_views(final(lines)@) == line_views(old(lines)@) + inherited_log_lines(
            inheritance_views(table@),
        ),
{
    let ghost entries = inheritance_views(table@);
    let mut i: usize = 0;
    assert(entries.take(0) =~= Seq::<InheritanceView>::empty());
    assert(line_views(lines@) =~= line_views(old(lines)@) + inherited_log_lines(entries.take(0)));
    while i < table.len()
        invariant
            i <= table.len(),
            entries == inheritance_views(table@),
            line_views(lines@) == line_views(old(lines)@) + inherited_log_lines(
                entries.take(i as int),
            ),
        decreases table.len() - i,
    {
        proof {
            let next = entries.take(i + 1);
            assert(next.drop_last() =~= entries.take(i as int));
            assert(next.last() == table@[i as int]@);
        }
        let mut line: Vec<u8> = Vec::new();
        put_mailbox(&mut line, &table[i].parent);
        assert(line@ =~= mailbox_text(table@[i as int]@.parent));
        push_line(lines, line);
        push_child_lines(lines, &table[i].children);
        assert(line_views(lines@) =~= line_views(old(lines)@) + inherited_log_lines(
            entries.take(i + 1),
        ));
        i += 1;
    }
    assert(entries.take(table.len() as int) =~= entries);
}

fn push_source_lines(lines: &mut Vec<Vec<u8>>, sources: &Vec<Address>)
    ensures
        line_views(final(lines)@) == line_views(old(lines)@) + source_log_lines(names(sources@)),
{
    let ghost list = names(sources@);
    let mut i: usize = 0;
    assert(list.take(0) =~= Seq::<Seq<u8>>::empty());
    assert(line_views(lines@) =~= line_views(old(lines)@) + source_log_lines(list.take(0)));
    while i < sources.len()
        invariant
            i <= sources.len(),
            list == names(sources@),
            line_views(lines@) == line_views(old(lines)@) + source_log_lines(list.take(i as int)),
        decreases sources.len() - i,
    {
        proof {
            let next = list.take(i + 1);
            assert(next.drop_last() =~= list.take(i as int));
            assert(next.last() == sources@[i as int]@);
        }
        let mut line: Vec<u8> = Vec::new();
        put(&mut line, MARK_SOURCE);
        put_bytes(&mut line, sources[i].as_bytes());
        assert(line@ =~= MARK_SOURCE.spec_bytes() + sources@[i as int]@);
        push_line(lines, line);
        assert(line_views(lines@) =~= line_views(old(lines)@) + source_log_lines(
            list.take(i + 1),
        ));
        i += 1;
    }
    assert(list.take(sources.len() as int) =~= list);
}

fn push_incoming_lines(lines: &mut Vec<Vec<u8>>, table: &Vec<MailboxTraffic>)
    ensures
        line_views(final(lines)@) == line_views(old(lines)@) + incoming_log_lines(
            mailbox_traffic_views(table@),
        ),
{
    let ghost entries = mailbox_traffic_views(table@);
    let mut i: usize = 0;
    assert(entries.take(0) =~= Seq::<MailboxTrafficView>::empty());
    assert(line_views(lines@) =~= line_views(old(lines)@) + incoming_log_lines(entries.take(0)));
    while i < table.len()
        invariant
            i <= table.len(),
            entries == mailbox_traffic_views(table@),
            line_views(lines@) == line_views(old(lines)@) + incoming_log_lines(
                entries.take(i as int),
            ),
        decreases table.len() - i,
    {
        proof {
            let next = entries.take(i + 1);
            assert(next.drop_last() =~= entries.take(i as int));
            assert(next.last() == table@[i as int]@);
        }
        let mut line: Vec<u8> = Vec::new();
        put_mailbox(&mut line, &table[i].mailbox);
        assert(line@ =~= mailbox_text(table@[i as int]@.mailbox));
        push_line(lines, line);
        let sources = sort_dedup(&table[i].sources);
        push_source_lines(lines, &sources);
        assert(line_views(lines@) =~= line_views(old(lines)@) + incoming_log_lines(
            entries.take(i + 1),
        ));
        i += 1;
    }
    assert(entries.take(table.len() as int) =~= entries);
}

/// Sums up what the debugger has recorded, as lines of text for a log.
pub fn display_log(debugger: &Debugger) -> (lines: Vec<Vec<u8>>)
    ensures
        line_views(lines@) == log_lines(debugger@),
{
    let mut lines: Vec<Vec<u8>> = Vec::new();
    assert(line_views(lines@) =~= Seq::<Seq<u8>>::empty());
    push_text(&mut lines, RULE_HEAVY);
    push_text(&mut lines, TITLE_INHERITED);
    push_text(&mut lines, RULE_LIGHT);
    push_inherited_lines(&mut lines, &debugger.inherited_mb);
    push_text(&mut lines, RULE_LIGHT);
    push_text(&mut lines, TITLE_INCOMING);
    push_text(&mut lines, RULE_LIGHT);
    push_incoming_lines(&mut lines, &debugger.incoming_mb);
    assert(line_views(lines@) =~= log_lines(debugger@));
    lines
}

} // verus!
