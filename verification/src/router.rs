use vstd::prelude::*;
use crate::address::{distinct, names, Address};
use crate::debugger::{
    log_denied_message,
    log_incoming_message,
    log_inherit_context,
    lemma_record_stays_wf,
    log_outgoing_message,
    Debugger,
    DebuggerView,
};
use crate::mailbox::{lemma_first_at, Mailbox, MailboxView, Mailboxes, MailboxesView};
use crate::relay::{message_views, RelayMessage, RelayMessageView};

verus! {

/// Why a message was not delivered. The caller can recover from each: try
/// again, resolve the address anew, or tell the user.
#[derive(Debug, Clone, Copy, PartialEq, Eq, Structural)]
pub enum RoutingError {
    /// No mailbox is registered at the destination.
    UnknownAddress,
    /// The destination's incoming policy refused the message.
    AccessDenied,
    /// The destination's inbound queue holds as many messages as it may.
    MailboxFull,
}

/// Why an actor was not registered.
#[derive(Debug, Clone, Copy, PartialEq, Eq, Structural)]
pub enum SpawnError {
    /// One of the actor's addresses is taken, or occurs twice among its own.
    AddressInUse,
    /// No actor is registered at the parent's address.
    UnknownParent,
}

/// What a registered actor is, as plain values.
pub struct ActorView {
    pub mailboxes: MailboxesView,
    pub inbox: Seq<RelayMessageView>,
    pub capacity: nat,
}

/// What a router is, as plain values: the actors in the order of their
/// registration, and what the debugger has recorded, if one is attached.
pub struct RouterView {
    pub actors: Seq<ActorView>,
    pub debugger: Option<DebuggerView>,
}

/// The place of the first actor that has a mailbox at `name`, or the number
/// of actors if none has.
pub open spec fn owner_in(actors: Seq<ActorView>, name: Seq<u8>) -> int
    decreases actors.len(),
{
    if actors.len() == 0 {
        0
    } else if actors[0].mailboxes.contains(name) {
        0
    } else {
        1 + owner_in(actors.drop_first(), name)
    }
}

/// The place of the first actor whose primary mailbox is at `name`, or the
/// number of actors if there is none.
pub open spec fn primary_in(actors: Seq<ActorView>, name: Seq<u8>) -> int
    decreases actors.len(),
{
    if actors.len() == 0 {
        0
    } else if actors[0].mailboxes.primary.address == name {
        0
    } else {
        1 + primary_in(actors.drop_first(), name)
    }
}

/// A place with a mailbox at the name, before which no actor has one, is the
/// owner's place; so is the number of actors, if no actor has one.
pub proof fn lemma_owner_in(actors: Seq<ActorView>, name: Seq<u8>, p: int)
    requires
        0 <= p <= actors.len(),
        forall|j: int| 0 <= j < p ==> !(#[trigger] actors[j]).mailboxes.contains(name),
        p < actors.len() ==> actors[p].mailboxes.contains(name),
    ensures
        owner_in(actors, name) == p,
    decreases actors.len(),
{
    if actors.len() > 0 && p > 0 {
        assert(!actors[0].mailboxes.contains(name));
        let rest = actors.drop_first();
        assert forall|j: int| 0 <= j < p - 1 implies !(#[trigger] rest[j]).mailboxes.contains(
            name,
        ) by {
            assert(rest[j] == actors[j + 1]);
        }
        lemma_owner_in(rest, name, p - 1);
    }
}

/// The owner's place is within the actors or just behind them; the actor
/// there has a mailbox at the name, and no actor before it has.
pub proof fn lemma_owner_in_is_first(actors: Seq<ActorView>, name: Seq<u8>)
    ensures
        0 <= owner_in(actors, name) <= actors.len(),
        owner_in(actors, name) < actors.len() ==> actors[owner_in(actors, name)].mailboxes.contains(
            name,
        ),
        forall|j: int|
            0 <= j < owner_in(actors, name) ==> !(#[trigger] actors[j]).mailboxes.contains(name),
    decreases actors.len(),
{
    if actors.len() > 0 && !actors[0].mailboxes.contains(name) {
        let rest = actors.drop_first();
        lemma_owner_in_is_first(rest, name);
        assert forall|j: int| 0 <= j < owner_in(actors, name) implies !(
        #[trigger] actors[j]).mailboxes.contains(name) by {
            if j > 0 {
                assert(actors[j] == rest[j - 1]);
            }
        }
    }
}

/// The same of the place of a primary address.
pub proof fn lemma_primary_in(actors: Seq<ActorView>, name: Seq<u8>, p: int)
    requires
        0 <= p <= actors.len(),
        forall|j: int| 0 <= j < p ==> (#[trigger] actors[j]).mailboxes.primary.address != name,
        p < actors.len() ==> actors[p].mailboxes.primary.address == name,
    ensures
        primary_in(actors, name) == p,
    decreases actors.len(),
{
    if actors.len() > 0 && p > 0 {
        assert(actors[0].mailboxes.primary.address != name);
        let rest = actors.drop_first();
        assert forall|j: int| 0 <= j < p - 1 implies (
        #[trigger] rest[j]).mailboxes.primary.address != name by {
            assert(rest[j] == actors[j + 1]);
        }
        lemma_primary_in(rest, name, p - 1);
    }
}

impl RouterView {
    /// The place of the actor that owns the mailbox at `name`, or the number
    /// of actors if no mailbox is registered there.
    pub open spec fn owner(self, name: Seq<u8>) -> int {
        owner_in(self.actors, name)
    }

    /// Whether a mailbox is registered at `name`.
    pub open spec fn knows(self, name: Seq<u8>) -> bool {
        self.owner(name) < self.actors.len()
    }

    /// The mailbox registered at `name`, if there is one.
    pub open spec fn find_mailbox(self, name: Seq<u8>) -> Option<MailboxView> {
        if self.knows(name) {
            self.actors[self.owner(name)].mailboxes.find(name)
        } else {
            None
        }
    }

    /// The messages that wait for the actor that owns the mailbox at `name`,
    /// the oldest first.
    pub open spec fn inbox(self, name: Seq<u8>) -> Option<Seq<RelayMessageView>> {
        if self.knows(name) {
            Some(self.actors[self.owner(name)].inbox)
        } else {
            None
        }
    }

    /// What holds of every router: its actors are well formed, and so is the
    /// record of its debugger, if it has one.
    pub open spec fn wf(self) -> bool {
        &&& self.actors_wf()
        &&& match self.debugger {
            Some(d) => d.wf(),
            None => true,
        }
    }

    /// No address is registered twice, and no queue holds more than it may.
    pub open spec fn actors_wf(self) -> bool {
        &&& forall|i: int, a: int, j: int, b: int|
            #![trigger self.actors[i].mailboxes.all()[a], self.actors[j].mailboxes.all()[b]]
            0 <= i < self.actors.len() && 0 <= a < self.actors[i].mailboxes.all().len() && 0 <= j
                < self.actors.len() && 0 <= b < self.actors[j].mailboxes.all().len()
                && self.actors[i].mailboxes.all()[a].address
                == self.actors[j].mailboxes.all()[b].address ==> i == j && a == b
        &&& forall|i: int|
            0 <= i < self.actors.len() ==> (#[trigger] self.actors[i]).inbox.len()
                <= self.actors[i].capacity
    }

    /// Whether an actor with these mailboxes can be registered: its addresses
    /// differ from each other, and none of them is registered.
    pub open spec fn can_spawn(self, mailboxes: MailboxesView) -> bool {
        &&& distinct(mailboxes.addresses())
        &&& forall|b: int|
            0 <= b < mailboxes.addresses().len() ==> !self.knows(#[trigger] mailboxes.addresses()[b])
    }

    /// What routing a message does: the outcome, and the router afterwards.
    ///
    /// A message for an address at which nothing is registered is refused as
    /// unknown. A message that the destination's incoming policy does not
    /// admit is refused as denied, which an attached debugger notes. A
    /// message for a full queue is refused as such. Any other is put at the
    /// end of its owner's queue, which an attached debugger notes. No refusal
    /// changes any actor.
    pub open spec fn route(self, message: RelayMessageView) -> (Result<(), RoutingError>, RouterView) {
        let k = self.owner(message.destination);
        if k >= self.actors.len() {
            (Err(RoutingError::UnknownAddress), self)
        } else if !self.actors[k].mailboxes.admits(message) {
            (
                Err(RoutingError::AccessDenied),
                RouterView {
                    debugger: match self.debugger {
                        Some(d) => Some(d.with_denied(message)),
                        None => None,
                    },
                    ..self
                },
            )
        } else if self.actors[k].inbox.len() >= self.actors[k].capacity {
            (Err(RoutingError::MailboxFull), self)
        } else {
            (
                Ok(()),
                RouterView {
                    actors: self.actors.update(
                        k,
                        ActorView {
                            inbox: self.actors[k].inbox.push(message),
                            ..self.actors[k]
                        },
                    ),
                    debugger: match self.debugger {
                        Some(d) => Some(d.with_incoming(self.actors[k].mailboxes, message)),
                        None => None,
                    },
                },
            )
        }
    }

    /// What sending a message does: the outcome as the sender is told it,
    /// and the router afterwards.
    ///
    /// Where the source is a mailbox of this router, its outgoing policy is
    /// asked first; a message that it does not release goes nowhere, and an
    /// attached debugger notes the denial. A message that is released, or
    /// that comes from outside, is noted as sent by an attached debugger and
    /// is then routed. A sender that did not ask for confirmation is not told
    /// of a denial: to it the message is sent.
    pub open spec fn send(self, message: RelayMessageView, confirm: bool) -> (
        Result<(), RoutingError>,
        RouterView,
    ) {
        let s = self.owner(message.source);
        if s < self.actors.len() && !self.actors[s].mailboxes.releases(message) {
            (
                told(Err(RoutingError::AccessDenied), confirm),
                RouterView {
                    debugger: match self.debugger {
                        Some(d) => Some(d.with_denied(message)),
                        None => None,
                    },
                    ..self
                },
            )
        } else {
            let observed = RouterView {
                debugger: match self.debugger {
                    Some(d) => Some(d.with_outgoing(message)),
                    None => None,
                },
                ..self
            };
            (told(observed.route(message).0, confirm), observed.route(message).1)
        }
    }

    /// What registering an actor does: the outcome, and the router
    /// afterwards. The new actor comes last and has nothing in its queue.
    pub open spec fn spawn(self, mailboxes: MailboxesView, capacity: nat) -> (
        Result<(), SpawnError>,
        RouterView,
    ) {
        if !self.can_spawn(mailboxes) {
            (Err(SpawnError::AddressInUse), self)
        } else {
            (
                Ok(()),
                RouterView {
                    actors: self.actors.push(
                        ActorView { mailboxes, inbox: Seq::empty(), capacity },
                    ),
                    ..self
                },
            )
        }
    }

    /// What registering the child of an actor does: as `spawn`, but the
    /// parent must be registered, and an attached debugger notes the child
    /// under the parent.
    pub open spec fn spawn_child(
        self,
        parent: Seq<u8>,
        mailboxes: MailboxesView,
        capacity: nat,
    ) -> (Result<(), SpawnError>, RouterView) {
        if !self.knows(parent) {
            (Err(SpawnError::UnknownParent), self)
        } else if !self.can_spawn(mailboxes) {
            (Err(SpawnError::AddressInUse), self)
        } else {
            (
                Ok(()),
                RouterView {
                    actors: self.actors.push(
                        ActorView { mailboxes, inbox: Seq::empty(), capacity },
                    ),
                    debugger: match self.debugger {
                        Some(d) => Some(
                            d.with_inheritance(self.actors[self.owner(parent)].mailboxes, mailboxes),
                        ),
                        None => None,
                    },
                },
            )
        }
    }

    /// The router without the first actor whose primary mailbox is at
    /// `name`; the same router if there is none.
    pub open spec fn despawn(self, name: Seq<u8>) -> RouterView {
        let k = primary_in(self.actors, name);
        if k < self.actors.len() {
            RouterView { actors: self.actors.remove(k), ..self }
        } else {
            self
        }
    }

    /// What taking the next message of the actor that owns `name` does: the
    /// oldest message of its queue, if there is one, and the router
    /// afterwards.
    pub open spec fn receive(self, name: Seq<u8>) -> (Option<RelayMessageView>, RouterView) {
        let k = self.owner(name);
        if k < self.actors.len() && self.actors[k].inbox.len() > 0 {
            (
                Some(self.actors[k].inbox[0]),
                RouterView {
                    actors: self.actors.update(
                        k,
                        ActorView { inbox: self.actors[k].inbox.drop_first(), ..self.actors[k] },
                    ),
                    ..self
                },
            )
        } else {
            (None, self)
        }
    }
}

/// What a sender is told of an outcome: all of it if it asked for
/// confirmation; else a denial is kept from it.
pub open spec fn told(outcome: Result<(), RoutingError>, confirm: bool) -> Result<
    (),
    RoutingError,
> {
    if !confirm && outcome == Err::<(), RoutingError>(RoutingError::AccessDenied) {
        Ok(())
    } else {
        outcome
    }
}

/// A message that the policies refuse is not delivered, whether or not the
/// sender is told: no queue changes.
pub proof fn lemma_send_denied_is_not_delivered(
    router: RouterView,
    message: RelayMessageView,
    confirm: bool,
)
    requires
        router.knows(message.destination),
        !router.actors[router.owner(message.destination)].mailboxes.admits(message)
            || router.knows(message.source) && !router.actors[router.owner(
            message.source,
        )].mailboxes.releases(message),
    ensures
        router.send(message, confirm).1.actors == router.actors,
        router.send(message, confirm).0 == told(
            Err::<(), RoutingError>(RoutingError::AccessDenied),
            confirm,
        ),
{
}

/// A message that some control of the destination's incoming policy does not
/// let pass is refused as denied, and no queue changes.
pub proof fn lemma_denied_is_not_delivered(router: RouterView, message: RelayMessageView, i: int)
    requires
        router.find_mailbox(message.destination) is Some,
        0 <= i < router.find_mailbox(message.destination)->Some_0.incoming.len(),
        !router.find_mailbox(message.destination)->Some_0.incoming[i].allows(message),
    ensures
        router.route(message).0 == Err::<(), RoutingError>(RoutingError::AccessDenied),
        router.route(message).1.actors == router.actors,
{
}

/// A message for an address at which no mailbox is registered is refused as
/// unknown, and nothing changes.
pub proof fn lemma_unknown_is_not_delivered(router: RouterView, message: RelayMessageView)
    requires
        !router.knows(message.destination),
    ensures
        router.route(message).0 == Err::<(), RoutingError>(RoutingError::UnknownAddress),
        router.route(message).1 == router,
{
}

/// A message is delivered exactly when its destination is registered, the
/// destination's incoming policy admits it and the owner's queue has room;
/// it then stands last in that queue, and every other queue is as it was.
pub proof fn lemma_delivered(router: RouterView, message: RelayMessageView)
    ensures
        router.route(message).0 is Ok <==> router.knows(message.destination)
            && router.actors[router.owner(message.destination)].mailboxes.admits(message)
            && router.actors[router.owner(message.destination)].inbox.len()
            < router.actors[router.owner(message.destination)].capacity,
        router.route(message).0 is Ok ==> router.route(message).1.actors.len()
            == router.actors.len() && router.route(message).1.actors[router.owner(
            message.destination,
        )].inbox == router.actors[router.owner(message.destination)].inbox.push(message)
            && forall|j: int|
            0 <= j < router.actors.len() && j != router.owner(message.destination)
                ==> router.route(message).1.actors[j] == router.actors[j],
{
    lemma_owner_in_is_first(router.actors, message.destination);
}

/// The place of a primary address is within the actors or just behind them.
pub proof fn lemma_primary_in_bounds(actors: Seq<ActorView>, name: Seq<u8>)
    ensures
        0 <= primary_in(actors, name) <= actors.len(),
    decreases actors.len(),
{
    if actors.len() > 0 {
        lemma_primary_in_bounds(actors.drop_first(), name);
    }
}

/// A well-formed router is well formed after it has routed a message.
pub proof fn lemma_wf_after_route(router: RouterView, message: RelayMessageView)
    requires
        router.wf(),
    ensures
        router.route(message).1.wf(),
{
    lemma_owner_in_is_first(router.actors, message.destination);
    if router.debugger is Some {
        let k = router.owner(message.destination);
        let receiving = if k < router.actors.len() {
            router.actors[k].mailboxes
        } else {
            arbitrary()
        };
        lemma_record_stays_wf(router.debugger->Some_0, receiving, receiving, message);
    }
}

/// A well-formed router is well formed after a message was sent through it.
pub proof fn lemma_wf_after_send(router: RouterView, message: RelayMessageView, confirm: bool)
    requires
        router.wf(),
    ensures
        router.send(message, confirm).1.wf(),
{
    let observed = RouterView {
        debugger: match router.debugger {
            Some(d) => Some(d.with_outgoing(message)),
            None => None,
        },
        ..router
    };
    if router.debugger is Some {
        lemma_record_stays_wf(router.debugger->Some_0, arbitrary(), arbitrary(), message);
    }
    assert(observed.actors_wf());
    lemma_wf_after_route(observed, message);
}

/// A well-formed router is well formed after a message was taken from it.
pub proof fn lemma_wf_after_receive(router: RouterView, name: Seq<u8>)
    requires
        router.wf(),
    ensures
        router.receive(name).1.wf(),
{
    lemma_owner_in_is_first(router.actors, name);
}

/// A well-formed router is well formed after an actor was removed from it.
pub proof fn lemma_wf_after_despawn(router: RouterView, name: Seq<u8>)
    requires
        router.wf(),
    ensures
        router.despawn(name).wf(),
{
    let after = router.despawn(name);
    let k = primary_in(router.actors, name);
    lemma_primary_in_bounds(router.actors, name);
    if k < router.actors.len() {
        assert forall|i: int, a: int, j: int, b: int|
            #![trigger after.actors[i].mailboxes.all()[a], after.actors[j].mailboxes.all()[b]]
            0 <= i < after.actors.len() && 0 <= a < after.actors[i].mailboxes.all().len() && 0 <= j
                < after.actors.len() && 0 <= b < after.actors[j].mailboxes.all().len()
                && after.actors[i].mailboxes.all()[a].address
                == after.actors[j].mailboxes.all()[b].address implies i == j && a == b by {
            let i0 = if i < k {
                i
            } else {
                i + 1
            };
            let j0 = if j < k {
                j
            } else {
                j + 1
            };
            assert(after.actors[i] == router.actors[i0]);
            assert(after.actors[j] == router.actors[j0]);
            assert(router.actors[i0].mailboxes.all()[a].address
                == router.actors[j0].mailboxes.all()[b].address);
        }
        assert forall|i: int| 0 <= i < after.actors.len() implies (
        #[trigger] after.actors[i]).inbox.len() <= after.actors[i].capacity by {
            let i0 = if i < k {
                i
            } else {
                i + 1
            };
            assert(after.actors[i] == router.actors[i0]);
        }
    }
}

/// A router that registers an actor it can register stays well formed.
pub proof fn lemma_wf_after_spawn(router: RouterView, mailboxes: MailboxesView, capacity: nat)
    requires
        router.wf(),
    ensures
        router.spawn(mailboxes, capacity).1.wf(),
        forall|parent: Seq<u8>| (#[trigger] router.spawn_child(parent, mailboxes, capacity)).1.wf(),
{
    if router.can_spawn(mailboxes) {
        let after = router.spawn(mailboxes, capacity).1;
        let n = router.actors.len() as int;
        let addresses = mailboxes.addresses();
        assert forall|i: int, a: int, j: int, b: int|
            #![trigger after.actors[i].mailboxes.all()[a], after.actors[j].mailboxes.all()[b]]
            0 <= i < after.actors.len() && 0 <= a < after.actors[i].mailboxes.all().len() && 0 <= j
                < after.actors.len() && 0 <= b < after.actors[j].mailboxes.all().len()
                && after.actors[i].mailboxes.all()[a].address
                == after.actors[j].mailboxes.all()[b].address implies i == j && a == b by {
            if i < n && j < n {
                assert(router.actors[i].mailboxes.all()[a].address
                    == router.actors[j].mailboxes.all()[b].address);
            } else if i == n && j == n {
                assert(addresses[a] == mailboxes.all()[a].address);
                assert(addresses[b] == mailboxes.all()[b].address);
            } else {
                let (old_i, old_a, new_b) = if i < n {
                    (i, a, b)
                } else {
                    (j, b, a)
                };
                let name = mailboxes.all()[new_b].address;
                assert(addresses[new_b] == name);
                assert(!router.knows(addresses[new_b]));
                lemma_owner_in_is_first(router.actors, name);
                assert(!router.actors[old_i].mailboxes.contains(name));
                lemma_first_at(router.actors[old_i].mailboxes.all(), name);
                assert(router.actors[old_i].mailboxes.all()[old_a].address == name);
            }
        }
        assert(after.wf());
        assert forall|parent: Seq<u8>| (#[trigger] router.spawn_child(
            parent,
            mailboxes,
            capacity,
        )).1.wf() by {
            let child = router.spawn_child(parent, mailboxes, capacity).1;
            if router.knows(parent) {
                assert(child.actors == after.actors);
                assert(child.actors_wf());
                if router.debugger is Some {
                    lemma_record_stays_wf(
                        router.debugger->Some_0,
                        router.actors[router.owner(parent)].mailboxes,
                        mailboxes,
                        arbitrary(),
                    );
                }
            }
        }
    }
}

struct Actor {
    mailboxes: Mailboxes,
    inbox: Vec<RelayMessage>,
    capacity: usize,
}

impl View for Actor {
    type V = ActorView;

    closed spec fn view(&self) -> ActorView {
        ActorView {
            mailboxes: self.mailboxes@,
            inbox: message_views(self.inbox@),
            capacity: self.capacity as nat,
        }
    }
}

/// The table of the actors of a node. It resolves the destination of each
/// message to the mailbox registered there, asks the mailbox's incoming
/// policy, and puts what is admitted at the end of the owner's inbound
/// queue. A queue that is full refuses the message.
pub struct Router {
    actors: Vec<Actor>,
    debugger: Option<Debugger>,
}

impl View for Router {
    type V = RouterView;

    closed spec fn view(&self) -> RouterView {
        RouterView {
            actors: self.actors@.map_values(|a: Actor| a@),
            debugger: match self.debugger {
                Some(d) => Some(d@),
                None => None,
            },
        }
    }
}

impl Router {
    /// A router with no actors and no debugger.
    pub fn new() -> (router: Router)
        ensures
            router@ == (RouterView { actors: Seq::empty(), debugger: None }),
            router@.wf(),
    {
        let router = Router { actors: Vec::new(), debugger: None };
        assert(router@.actors =~= Seq::empty());
        router
    }

    /// A router with no actors, observed by `debugger`.
    pub fn with_debugger(debugger: Debugger) -> (router: Router)
        ensures
            router@ == (RouterView { actors: Seq::empty(), debugger: Some(debugger@) }),
            debugger@.wf() ==> router@.wf(),
    {
        let router = Router { actors: Vec::new(), debugger: Some(debugger) };
        assert(router@.actors =~= Seq::empty());
        router
    }

    /// The attached debugger, if there is one.
    pub fn debugger(&self) -> (debugger: Option<&Debugger>)
        ensures
            match debugger {
                Some(d) => self@.debugger == Some(d@),
                None => self@.debugger is None,
            },
    {
        self.debugger.as_ref()
    }

    /// The number of registered actors.
    pub fn actor_count(&self) -> (count: usize)
        ensures
            count == self@.actors.len(),
    {
        self.actors.len()
    }

    fn owner_index(&self, address: &Address) -> (k: usize)
        ensures
            k == self@.owner(address@),
            k <= self.actors.len(),
            k < self.actors.len() ==> self.actors@[k as int].mailboxes@.contains(address@),
    {
        let mut k: usize = 0;
        while k < self.actors.len() && !self.actors[k].mailboxes.contains(address)
            invariant
                k <= self.actors.len(),
                forall|j: int| 0 <= j < k ==> !(#[trigger] self@.actors[j]).mailboxes.contains(address@),
            decreases self.actors.len() - k,
        {
            k += 1;
        }
        proof {
            lemma_owner_in(self@.actors, address@, k as int);
        }
        k
    }

    /// Whether a mailbox is registered at `address`.
    pub fn knows(&self, address: &Address) -> (known: bool)
        ensures
            known == self@.knows(address@),
    {
        self.owner_index(address) < self.actors.len()
    }

    /// The mailbox registered at `address`, if there is one.
    pub fn find_mailbox(&self, address: &Address) -> (found: Option<&Mailbox>)
        ensures
            match found {
                Some(mailbox) => self@.find_mailbox(address@) == Some(mailbox@),
                None => self@.find_mailbox(address@) is None,
            },
    {
        let k = self.owner_index(address);
        if k < self.actors.len() {
            self.actors[k].mailboxes.find_mailbox(address)
        } else {
            None
        }
    }

    /// The number of messages that wait for the actor that owns the mailbox
    /// at `address`; `None` if no mailbox is registered there.
    pub fn pending(&self, address: &Address) -> (count: Option<usize>)
        ensures
            match count {
                Some(n) => self@.inbox(address@) is Some && n == self@.inbox(address@)->Some_0.len(),
                None => self@.inbox(address@) is None,
            },
    {
        let k = self.owner_index(address);
        if k < self.actors.len() {
            Some(self.actors[k].inbox.len())
        } else {
            None
        }
    }

    fn can_spawn(&self, mailboxes: &Mailboxes) -> (possible: bool)
        ensures
            possible == self@.can_spawn(mailboxes@),
    {
        let addresses = mailboxes.addresses();
        let mut b: usize = 0;
        while b < addresses.len()
            invariant
                b <= addresses.len(),
                names(addresses@) == mailboxes@.addresses(),
                forall|j: int| 0 <= j < b ==> !self@.knows(#[trigger] mailboxes@.addresses()[j]),
                forall|i: int, j: int|
                    0 <= i < j < b ==> mailboxes@.addresses()[i] != mailboxes@.addresses()[j],
            decreases addresses.len() - b,
        {
            assert(names(addresses@)[b as int] == addresses@[b as int]@);
            if self.knows(&addresses[b]) {
                return false;
            }
            let mut a: usize = 0;
            while a < b
                invariant
                    a <= b,
                    b < addresses.len(),
                    names(addresses@) == mailboxes@.addresses(),
                    forall|i: int| 0 <= i < a ==> mailboxes@.addresses()[i] != mailboxes@.addresses()[b as int],
                decreases b - a,
            {
                assert(names(addresses@)[a as int] == addresses@[a as int]@);
                assert(names(addresses@)[b as int] == addresses@[b as int]@);
                if addresses[a].equals(&addresses[b]) {
                    return false;
                }
                a += 1;
            }
            b += 1;
        }
        true
    }

    /// Registers an actor with the given mailboxes and an inbound queue that
    /// holds up to `capacity` messages. Fails, and changes nothing, if one of
    /// the addresses is registered already or occurs twice among the
    /// actor's own.
    pub fn spawn(&mut self, mailboxes: Mailboxes, capacity: usize) -> (result: Result<(), SpawnError>)
        ensures
            (result, final(self)@) == old(self)@.spawn(mailboxes@, capacity as nat),
            old(self)@.wf() ==> final(self)@.wf(),
    {
        proof {
            if self@.wf() {
                lemma_wf_after_spawn(self@, mailboxes@, capacity as nat);
            }
        }
        if !self.can_spawn(&mailboxes) {
            return Err(SpawnError::AddressInUse);
        }
        self.actors.push(Actor { mailboxes, inbox: Vec::new(), capacity });
        proof {
            let pushed = self.actors@.last();
            assert(pushed@.inbox =~= Seq::empty());
            assert(self@.actors =~= old(self)@.actors.push(pushed@));
        }
        Ok(())
    }

    /// Registers an actor made by the actor that owns the mailbox at
    /// `parent`. As `spawn`, but fails if the parent is not registered, and
    /// an attached debugger notes the new actor under its parent.
    pub fn spawn_child(&mut self, parent: &Address, mailboxes: Mailboxes, capacity: usize) -> (result:
        Result<(), SpawnError>)
        ensures
            (result, final(self)@) == old(self)@.spawn_child(
                parent@,
                mailboxes@,
                capacity as nat,
            ),
            old(self)@.wf() ==> final(self)@.wf(),
    {
        proof {
            if self@.wf() {
                lemma_wf_after_spawn(self@, mailboxes@, capacity as nat);
            }
        }
        let k = self.owner_index(parent);
        if k >= self.actors.len() {
            return Err(SpawnError::UnknownParent);
        }
        if !self.can_spawn(&mailboxes) {
            return Err(SpawnError::AddressInUse);
        }
        match &mut self.debugger {
            Some(debugger) => {
                log_inherit_context(debugger, &self.actors[k].mailboxes, &mailboxes);
            },
            None => {},
        }
        self.actors.push(Actor { mailboxes, inbox: Vec::new(), capacity });
        proof {
            let pushed = self.actors@.last();
            assert(pushed@.inbox =~= Seq::empty());
            assert(self@.actors =~= old(self)@.actors.push(pushed@));
            assert(self@ == old(self)@.spawn_child(parent@, mailboxes@, capacity as nat).1);
        }
        Ok(())
    }

    /// Removes the actor whose primary mailbox is at `primary`, with all its
    /// mailboxes and whatever waits in its queue. Says whether there was one.
    pub fn despawn(&mut self, primary: &Address) -> (removed: bool)
        ensures
            final(self)@ == old(self)@.despawn(primary@),
            removed == (primary_in(old(self)@.actors, primary@) < old(self)@.actors.len()),
            old(self)@.wf() ==> final(self)@.wf(),
    {
        proof {
            if self@.wf() {
                lemma_wf_after_despawn(self@, primary@);
            }
        }
        let mut k: usize = 0;
        while k < self.actors.len() && !self.actors[k].mailboxes.primary_address().equals(primary)
            invariant
                k <= self.actors.len(),
                self.actors == old(self).actors,
                forall|j: int|
                    0 <= j < k ==> (#[trigger] self@.actors[j]).mailboxes.primary.address
                        != primary@,
            decreases self.actors.len() - k,
        {
            k += 1;
        }
        proof {
            lemma_primary_in(self@.actors, primary@, k as int);
        }
        if k < self.actors.len() {
            let _ = self.actors.remove(k);
            assert(self@.actors =~= old(self)@.actors.remove(k as int));
            true
        } else {
            false
        }
    }

    /// Moves `message` one hop: into the inbound queue of the actor that owns
    /// the mailbox at its destination.
    ///
    /// Fails with `UnknownAddress` if no mailbox is registered there, with
    /// `AccessDenied` if the mailbox's incoming policy does not admit the
    /// message, and with `MailboxFull` if the queue has no room. A failure
    /// leaves every queue as it was.
    pub fn route(&mut self, message: RelayMessage) -> (result: Result<(), RoutingError>)
        ensures
            (result, final(self)@) == old(self)@.route(message@),
            result is Err ==> final(self)@.actors == old(self)@.actors,
            old(self)@.wf() ==> final(self)@.wf(),
    {
        proof {
            lemma_owner_in_is_first(self@.actors, message@.destination);
        }
        let k = self.owner_index(message.destination());
        if k >= self.actors.len() {
            return Err(RoutingError::UnknownAddress);
        }
        if !self.actors[k].mailboxes.is_incoming_authorized(&message) {
            match &mut self.debugger {
                Some(debugger) => {
                    log_denied_message(debugger, &message);
                },
                None => {},
            }
            return Err(RoutingError::AccessDenied);
        }
        if self.actors[k].inbox.len() >= self.actors[k].capacity {
            return Err(RoutingError::MailboxFull);
        }
        match &mut self.debugger {
            Some(debugger) => {
                log_incoming_message(debugger, &self.actors[k].mailboxes, &message);
            },
            None => {},
        }
        let ghost before = self.actors@[k as int]@;
        self.actors[k].inbox.push(message);
        proof {
            assert(self.actors@[k as int]@.inbox =~= before.inbox.push(message@));
            assert(self@.actors =~= old(self)@.actors.update(
                k as int,
                ActorView { inbox: before.inbox.push(message@), ..before },
            ));
        }
        Ok(())
    }

    /// Sends `message` on behalf of its source: asks the outgoing policy of
    /// the source's mailbox, if the source is registered here, and then
    /// routes the message. A denial is told to the sender only if it asked
    /// for confirmation with `confirm`; every other failure is told always.
    pub fn send(&mut self, message: RelayMessage, confirm: bool) -> (result: Result<
        (),
        RoutingError,
    >)
        ensures
            (result, final(self)@) == old(self)@.send(message@, confirm),
            old(self)@.wf() ==> final(self)@.wf(),
    {
        let s = self.owner_index(message.source());
        if s < self.actors.len() && !self.actors[s].mailboxes.is_outgoing_authorized(&message) {
            match &mut self.debugger {
                Some(debugger) => {
                    log_denied_message(debugger, &message);
                },
                None => {},
            }
            return if confirm {
                Err(RoutingError::AccessDenied)
            } else {
                Ok(())
            };
        }
        match &mut self.debugger {
            Some(debugger) => {
                log_outgoing_message(debugger, &message);
            },
            None => {},
        }
        let ghost observed = self@;
        assert(observed.actors == old(self)@.actors);
        assert(old(self)@.wf() ==> observed.wf());
        let outcome = self.route(message);
        match outcome {
            Err(RoutingError::AccessDenied) => if confirm {
                outcome
            } else {
                Ok(())
            },
            _ => outcome,
        }
    }

    /// Takes the oldest message out of the inbound queue of the actor that
    /// owns the mailbox at `address`. `None` if nothing waits there, or if
    /// no mailbox is registered at the address.
    pub fn receive(&mut self, address: &Address) -> (message: Option<RelayMessage>)
        ensures
            (
                match message {
                    Some(m) => Some(m@),
                    None => None,
                },
                final(self)@,
            ) == old(self)@.receive(address@),
            old(self)@.wf() ==> final(self)@.wf(),
    {
        proof {
            lemma_owner_in_is_first(self@.actors, address@);
        }
        let k = self.owner_index(address);
        if k < self.actors.len() && self.actors[k].inbox.len() > 0 {
            let ghost before = self.actors@[k as int]@;
            let message = self.actors[k].inbox.remove(0);
            proof {
                assert(self.actors@[k as int]@.inbox =~= before.inbox.drop_first());
                assert(self@.actors =~= old(self)@.actors.update(
                    k as int,
                    ActorView { inbox: before.inbox.drop_first(), ..before },
                ));
            }
            Some(message)
        } else {
            None
        }
    }
}

} // verus!
