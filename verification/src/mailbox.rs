use vstd::prelude::*;
use crate::access_control::{
    all_allow,
    clone_policy,
    policy_allows,
    policy_view,
    AccessControl,
    AccessControlView,
};
use crate::address::Address;
use crate::relay::{RelayMessage, RelayMessageView};

verus! {

/// What a mailbox is, as plain values.
pub struct MailboxView {
    pub address: Seq<u8>,
    pub incoming: Seq<AccessControlView>,
    pub outgoing: Seq<AccessControlView>,
}

impl MailboxView {
    /// Whether the incoming policy lets `message` into this mailbox.
    pub open spec fn admits(self, message: RelayMessageView) -> bool {
        all_allow(self.incoming, message)
    }

    /// Whether the outgoing policy lets `message` leave this mailbox.
    pub open spec fn releases(self, message: RelayMessageView) -> bool {
        all_allow(self.outgoing, message)
    }
}

/// An address with the two policies that guard it: `incoming` decides who may
/// deliver into the mailbox, `outgoing` whom the mailbox may send to.
#[derive(Debug)]
pub struct Mailbox {
    address: Address,
    incoming: Vec<AccessControl>,
    outgoing: Vec<AccessControl>,
}

impl View for Mailbox {
    type V = MailboxView;

    closed spec fn view(&self) -> MailboxView {
        MailboxView {
            address: self.address@,
            incoming: policy_view(self.incoming@),
            outgoing: policy_view(self.outgoing@),
        }
    }
}

/// The views of a sequence of mailboxes, in the same order.
pub open spec fn mailbox_views(mailboxes: Seq<Mailbox>) -> Seq<MailboxView> {
    mailboxes.map_values(|m: Mailbox| m@)
}

/// The first mailbox of `s` at the address `name`, if there is one.
pub open spec fn first_at(s: Seq<MailboxView>, name: Seq<u8>) -> Option<MailboxView>
    decreases s.len(),
{
    if s.len() == 0 {
        None
    } else if s[0].address == name {
        Some(s[0])
    } else {
        first_at(s.drop_first(), name)
    }
}

/// A mailbox is found at a name exactly when some mailbox bears that name,
/// and the one found bears it.
pub proof fn lemma_first_at(s: Seq<MailboxView>, name: Seq<u8>)
    ensures
        first_at(s, name) is Some <==> exists|i: int|
            0 <= i < s.len() && (#[trigger] s[i]).address == name,
        first_at(s, name) is Some ==> first_at(s, name)->Some_0.address == name && s.contains(
            first_at(s, name)->Some_0,
        ),
    decreases s.len(),
{
    if s.len() > 0 {
        if s[0].address != name {
            let t = s.drop_first();
            lemma_first_at(t, name);
            if first_at(t, name) is Some {
                let i = choose|i: int| 0 <= i < t.len() && (#[trigger] t[i]).address == name;
                assert(s[i + 1].address == name);
                let m = first_at(t, name)->Some_0;
                let k = choose|k: int| 0 <= k < t.len() && t[k] == m;
                assert(s[k + 1] == m);
            }
            if exists|i: int| 0 <= i < s.len() && (#[trigger] s[i]).address == name {
                let i = choose|i: int| 0 <= i < s.len() && (#[trigger] s[i]).address == name;
                assert(t[i - 1].address == name);
            }
        } else {
            assert(s[0].address == name);
        }
    }
}

impl Clone for Mailbox {
    fn clone(&self) -> (copy: Mailbox)
        ensures
            copy@ == self@,
    {
        Mailbox {
            address: self.address.clone(),
            incoming: clone_policy(&self.incoming),
            outgoing: clone_policy(&self.outgoing),
        }
    }
}

impl Mailbox {
    /// A mailbox at `address`, guarded by the two policies. A policy is the
    /// conjunction of its controls.
    pub fn new(address: Address, incoming: Vec<AccessControl>, outgoing: Vec<AccessControl>) -> (mailbox:
        Mailbox)
        ensures
            mailbox@ == (MailboxView {
                address: address@,
                incoming: policy_view(incoming@),
                outgoing: policy_view(outgoing@),
            }),
    {
        Mailbox { address, incoming, outgoing }
    }

    /// A mailbox at `address` that nothing may deliver into and that may send
    /// to nobody.
    pub fn deny_all(address: Address) -> (mailbox: Mailbox)
        ensures
            mailbox@ == (MailboxView {
                address: address@,
                incoming: seq![AccessControlView::DenyAll],
                outgoing: seq![AccessControlView::DenyAll],
            }),
    {
        let mut incoming: Vec<AccessControl> = Vec::new();
        incoming.push(AccessControl::DenyAll);
        let mut outgoing: Vec<AccessControl> = Vec::new();
        outgoing.push(AccessControl::DenyAll);
        assert(policy_view(incoming@) =~= seq![AccessControlView::DenyAll]);
        assert(policy_view(outgoing@) =~= seq![AccessControlView::DenyAll]);
        Mailbox { address, incoming, outgoing }
    }

    /// A mailbox at `address` that lets every message in and out.
    pub fn allow_all(address: Address) -> (mailbox: Mailbox)
        ensures
            mailbox@ == (MailboxView {
                address: address@,
                incoming: seq![AccessControlView::AllowAll],
                outgoing: seq![AccessControlView::AllowAll],
            }),
    {
        let mut incoming: Vec<AccessControl> = Vec::new();
        incoming.push(AccessControl::AllowAll);
        let mut outgoing: Vec<AccessControl> = Vec::new();
        outgoing.push(AccessControl::AllowAll);
        assert(policy_view(incoming@) =~= seq![AccessControlView::AllowAll]);
        assert(policy_view(outgoing@) =~= seq![AccessControlView::AllowAll]);
        Mailbox { address, incoming, outgoing }
    }

    /// The address of the mailbox.
    pub fn address(&self) -> (address: &Address)
        ensures
            address@ == self@.address,
    {
        &self.address
    }

    /// The controls that a message must pass to be delivered here.
    pub fn incoming_access_control(&self) -> (policy: &Vec<AccessControl>)
        ensures
            policy_view(policy@) == self@.incoming,
    {
        &self.incoming
    }

    /// The controls that a message must pass to be sent from here.
    pub fn outgoing_access_control(&self) -> (policy: &Vec<AccessControl>)
        ensures
            policy_view(policy@) == self@.outgoing,
    {
        &self.outgoing
    }
}

/// Decides whether `message` may be delivered into `mailbox`: it may when
/// every control of the mailbox's incoming policy lets it pass.
pub fn authorize(mailbox: &Mailbox, message: &RelayMessage) -> (allowed: bool)
    ensures
        allowed == mailbox@.admits(message@),
{
    policy_allows(&mailbox.incoming, message)
}

/// Decides whether `mailbox` may send `message`: it may when every control of
/// the mailbox's outgoing policy lets it pass.
pub fn authorize_outgoing(mailbox: &Mailbox, message: &RelayMessage) -> (allowed: bool)
    ensures
        allowed == mailbox@.releases(message@),
{
    policy_allows(&mailbox.outgoing, message)
}

/// What the mailboxes of an actor are, as plain values.
pub struct MailboxesView {
    pub primary: MailboxView,
    pub additional: Seq<MailboxView>,
}

impl MailboxesView {
    /// All of the actor's mailboxes, the primary one first.
    pub open spec fn all(self) -> Seq<MailboxView> {
        seq![self.primary] + self.additional
    }

    /// The addresses of all the mailboxes, the primary one first.
    pub open spec fn addresses(self) -> Seq<Seq<u8>> {
        self.all().map_values(|m: MailboxView| m.address)
    }

    /// The first mailbox at the address `name`, if the actor has one.
    pub open spec fn find(self, name: Seq<u8>) -> Option<MailboxView> {
        first_at(self.all(), name)
    }

    /// Whether one of the mailboxes is at the address `name`.
    pub open spec fn contains(self, name: Seq<u8>) -> bool {
        self.find(name) is Some
    }

    /// Whether `message` may be delivered to this actor: it has a mailbox at
    /// the destination, and that mailbox admits the message.
    pub open spec fn admits(self, message: RelayMessageView) -> bool {
        match self.find(message.destination) {
            Some(mailbox) => mailbox.admits(message),
            None => false,
        }
    }

    /// Whether this actor may send `message`: it has a mailbox at the source,
    /// and that mailbox releases the message.
    pub open spec fn releases(self, message: RelayMessageView) -> bool {
        match self.find(message.source) {
            Some(mailbox) => mailbox.releases(message),
            None => false,
        }
    }
}

/// The mailboxes of one actor: a primary one and any number of additional
/// ones. The set is made once and never changes.
#[derive(Debug)]
pub struct Mailboxes {
    primary_mailbox: Mailbox,
    additional_mailboxes: Vec<Mailbox>,
}

impl View for Mailboxes {
    type V = MailboxesView;

    closed spec fn view(&self) -> MailboxesView {
        MailboxesView {
            primary: self.primary_mailbox@,
            additional: mailbox_views(self.additional_mailboxes@),
        }
    }
}

/// A copy of a sequence of mailboxes, mailbox for mailbox.
pub fn clone_mailboxes(list: &Vec<Mailbox>) -> (copy: Vec<Mailbox>)
    ensures
        mailbox_views(copy@) == mailbox_views(list@),
{
    let mut copy: Vec<Mailbox> = Vec::new();
    let mut i: usize = 0;
    while i < list.len()
        invariant
            i <= list.len(),
            copy@.len() == i,
            forall|k: int| 0 <= k < i ==> (#[trigger] copy@[k])@ == list@[k]@,
        decreases list.len() - i,
    {
        copy.push(list[i].clone());
        i += 1;
    }
    assert(mailbox_views(copy@) =~= mailbox_views(list@));
    copy
}

impl Clone for Mailboxes {
    fn clone(&self) -> (copy: Mailboxes)
        ensures
            copy@ == self@,
    {
        Mailboxes {
            primary_mailbox: self.primary_mailbox.clone(),
            additional_mailboxes: clone_mailboxes(&self.additional_mailboxes),
        }
    }
}

impl Mailboxes {
    /// The set made of a primary mailbox and the additional ones.
    pub fn new(primary_mailbox: Mailbox, additional_mailboxes: Vec<Mailbox>) -> (mailboxes:
        Mailboxes)
        ensures
            mailboxes@ == (MailboxesView {
                primary: primary_mailbox@,
                additional: mailbox_views(additional_mailboxes@),
            }),
    {
        Mailboxes { primary_mailbox, additional_mailboxes }
    }

    /// The set that holds one mailbox only.
    pub fn primary(primary_mailbox: Mailbox) -> (mailboxes: Mailboxes)
        ensures
            mailboxes@ == (MailboxesView {
                primary: primary_mailbox@,
                additional: Seq::<MailboxView>::empty(),
            }),
    {
        let additional_mailboxes: Vec<Mailbox> = Vec::new();
        assert(mailbox_views(additional_mailboxes@) =~= Seq::<MailboxView>::empty());
        Mailboxes { primary_mailbox, additional_mailboxes }
    }

    /// The primary mailbox.
    pub fn primary_mailbox(&self) -> (mailbox: &Mailbox)
        ensures
            mailbox@ == self@.primary,
    {
        &self.primary_mailbox
    }

    /// The address of the primary mailbox.
    pub fn primary_address(&self) -> (address: &Address)
        ensures
            address@ == self@.primary.address,
    {
        self.primary_mailbox.address()
    }

    /// The additional mailboxes.
    pub fn additional_mailboxes(&self) -> (list: &Vec<Mailbox>)
        ensures
            mailbox_views(list@) == self@.additional,
    {
        &self.additional_mailboxes
    }

    /// The addresses of all the mailboxes, the primary one first.
    pub fn addresses(&self) -> (list: Vec<Address>)
        ensures
            crate::address::names(list@) == self@.addresses(),
    {
        let mut list: Vec<Address> = Vec::new();
        list.push(self.primary_mailbox.address().clone());
        let mut i: usize = 0;
        while i < self.additional_mailboxes.len()
            invariant
                i <= self.additional_mailboxes.len(),
                list@.len() == i + 1,
                list@[0]@ == self.primary_mailbox@.address,
                forall|k: int|
                    0 <= k < i ==> (#[trigger] list@[k + 1])@
                        == self.additional_mailboxes@[k]@.address,
            decreases self.additional_mailboxes.len() - i,
        {
            list.push(self.additional_mailboxes[i].address().clone());
            i += 1;
        }
        proof {
            let got = crate::address::names(list@);
            let want = self@.addresses();
            assert(got.len() == want.len());
            assert forall|k: int| 0 <= k < got.len() implies got[k] == want[k] by {
                if k > 0 {
                    assert(list@[(k - 1) + 1]@ == self.additional_mailboxes@[k - 1]@.address);
                    assert(self@.all()[k] == self@.additional[k - 1]);
                }
            }
            assert(got =~= want);
        }
        list
    }

    /// The mailbox at `address`: the primary one if it is there, else the
    /// first additional one that is.
    pub fn find_mailbox(&self, address: &Address) -> (found: Option<&Mailbox>)
        ensures
            match found {
                Some(mailbox) => self@.find(address@) == Some(mailbox@),
                None => self@.find(address@) is None,
            },
    {
        proof {
            assert(self@.all().drop_first() =~= self@.additional);
            assert(self@.additional.skip(0) =~= self@.additional);
        }
        if self.primary_mailbox.address().equals(address) {
            return Some(&self.primary_mailbox);
        }
        let mut i: usize = 0;
        while i < self.additional_mailboxes.len()
            invariant
                i <= self.additional_mailboxes.len(),
                self@.additional == mailbox_views(self.additional_mailboxes@),
                self@.find(address@) == first_at(self@.additional.skip(i as int), address@),
            decreases self.additional_mailboxes.len() - i,
        {
            assert(self@.additional.skip(i as int)[0] == self.additional_mailboxes@[i as int]@);
            if self.additional_mailboxes[i].address().equals(address) {
                return Some(&self.additional_mailboxes[i]);
            }
            assert(self@.additional.skip(i as int).drop_first() =~= self@.additional.skip(i + 1));
            i += 1;
        }
        None
    }

    /// Whether one of the mailboxes is at `address`.
    pub fn contains(&self, address: &Address) -> (found: bool)
        ensures
            found == self@.contains(address@),
    {
        self.find_mailbox(address).is_some()
    }

    /// Whether `message` may be delivered to this actor.
    pub fn is_incoming_authorized(&self, message: &RelayMessage) -> (allowed: bool)
        ensures
            allowed == self@.admits(message@),
    {
        match self.find_mailbox(message.destination()) {
            Some(mailbox) => authorize(mailbox, message),
            None => false,
        }
    }

    /// Whether this actor may send `message`.
    pub fn is_outgoing_authorized(&self, message: &RelayMessage) -> (allowed: bool)
        ensures
            allowed == self@.releases(message@),
    {
        match self.find_mailbox(message.source()) {
            Some(mailbox) => authorize_outgoing(mailbox, message),
            None => false,
        }
    }
}

} // verus!
