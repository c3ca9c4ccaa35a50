use vstd::prelude::*;
use crate::address::{clone_addresses, contains_address, names, Address};
use crate::relay::{RelayMessage, RelayMessageView};

verus! {

/// What an access control is, as plain values.
pub enum AccessControlView {
    AllowAll,
    DenyAll,
    AllowSourceAddress(Seq<u8>),
    AllowSourceAddresses(Seq<Seq<u8>>),
    AllowDestinationAddress(Seq<u8>),
    AllowDestinationAddresses(Seq<Seq<u8>>),
}

impl AccessControlView {
    /// The predicate that the control stands for.
    pub open spec fn allows(self, message: RelayMessageView) -> bool {
        match self {
            AccessControlView::AllowAll => true,
            AccessControlView::DenyAll => false,
            AccessControlView::AllowSourceAddress(a) => message.source == a,
            AccessControlView::AllowSourceAddresses(list) => list.contains(message.source),
            AccessControlView::AllowDestinationAddress(a) => message.destination == a,
            AccessControlView::AllowDestinationAddresses(list) => list.contains(
                message.destination,
            ),
        }
    }
}

/// A policy lets a message pass when every one of its controls does. The
/// empty policy lets everything pass.
pub open spec fn all_allow(policy: Seq<AccessControlView>, message: RelayMessageView) -> bool {
    forall|i: int| 0 <= i < policy.len() ==> (#[trigger] policy[i]).allows(message)
}

/// One predicate on messages. It is fixed when it is made and keeps no
/// state.
#[derive(Debug)]
pub enum AccessControl {
    /// Lets every message pass.
    AllowAll,
    /// Lets no message pass.
    DenyAll,
    /// Lets pass what the given address sent.
    AllowSourceAddress(Address),
    /// Lets pass what one of the given addresses sent.
    AllowSourceAddresses(Vec<Address>),
    /// Lets pass what is for the given address.
    AllowDestinationAddress(Address),
    /// Lets pass what is for one of the given addresses.
    AllowDestinationAddresses(Vec<Address>),
}

impl View for AccessControl {
    type V = AccessControlView;

    open spec fn view(&self) -> AccessControlView {
        match self {
            AccessControl::AllowAll => AccessControlView::AllowAll,
            AccessControl::DenyAll => AccessControlView::DenyAll,
            AccessControl::AllowSourceAddress(a) => AccessControlView::AllowSourceAddress(a@),
            AccessControl::AllowSourceAddresses(list) => AccessControlView::AllowSourceAddresses(
                names(list@),
            ),
            AccessControl::AllowDestinationAddress(a) => AccessControlView::AllowDestinationAddress(
                a@,
            ),
            AccessControl::AllowDestinationAddresses(list) =>
                AccessControlView::AllowDestinationAddresses(names(list@)),
        }
    }
}

/// The views of a policy's controls, in the same order.
pub open spec fn policy_view(policy: Seq<AccessControl>) -> Seq<AccessControlView> {
    policy.map_values(|c: AccessControl| c@)
}

impl Clone for AccessControl {
    fn clone(&self) -> (copy: AccessControl)
        ensures
            copy@ == self@,
    {
        match self {
            AccessControl::AllowAll => AccessControl::AllowAll,
            AccessControl::DenyAll => AccessControl::DenyAll,
            AccessControl::AllowSourceAddress(a) => AccessControl::AllowSourceAddress(a.clone()),
            AccessControl::AllowSourceAddresses(list) => AccessControl::AllowSourceAddresses(
                clone_addresses(list),
            ),
            AccessControl::AllowDestinationAddress(a) => AccessControl::AllowDestinationAddress(
                a.clone(),
            ),
            AccessControl::AllowDestinationAddresses(list) =>
                AccessControl::AllowDestinationAddresses(clone_addresses(list)),
        }
    }
}

impl AccessControl {
    /// Whether this control lets `message` pass.
    pub fn is_authorized(&self, message: &RelayMessage) -> (allowed: bool)
        ensures
            allowed == self@.allows(message@),
    {
        match self {
            AccessControl::AllowAll => true,
            AccessControl::DenyAll => false,
            AccessControl::AllowSourceAddress(a) => a.equals(message.source()),
            AccessControl::AllowSourceAddresses(list) => contains_address(list, message.source()),
            AccessControl::AllowDestinationAddress(a) => a.equals(message.destination()),
            AccessControl::AllowDestinationAddresses(list) => contains_address(
                list,
                message.destination(),
            ),
        }
    }
}

/// A copy of a policy, control for control.
pub fn clone_policy(policy: &Vec<AccessControl>) -> (copy: Vec<AccessControl>)
    ensures
        policy_view(copy@) == policy_view(policy@),
{
    let mut copy: Vec<AccessControl> = Vec::new();
    let mut i: usize = 0;
    while i < policy.len()
        invariant
            i <= policy.len(),
            copy@.len() == i,
            forall|k: int| 0 <= k < i ==> (#[trigger] copy@[k])@ == policy@[k]@,
        decreases policy.len() - i,
    {
        copy.push(policy[i].clone());
        i += 1;
    }
    assert(policy_view(copy@) =~= policy_view(policy@));
    copy
}

/// Whether every control of `policy` lets `message` pass.
pub fn policy_allows(policy: &Vec<AccessControl>, message: &RelayMessage) -> (allowed: bool)
    ensures
        allowed == all_allow(policy_view(policy@), message@),
{
    let mut i: usize = 0;
    while i < policy.len()
        invariant
            i <= policy.len(),
            forall|k: int| 0 <= k < i ==> (#[trigger] policy_view(policy@)[k]).allows(message@),
        decreases policy.len() - i,
    {
        if !policy[i].is_authorized(message) {
            assert(!policy_view(policy@)[i as int].allows(message@));
            return false;
        }
        i += 1;
    }
    true
}

} // verus!
