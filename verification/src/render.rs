use vstd::prelude::*;
use vstd::string::StringSliceAdditionalSpecFns;
use crate::access_control::{policy_view, AccessControl, AccessControlView};
use crate::address::{names, Address};
use crate::mailbox::{mailbox_views, Mailbox, MailboxView, Mailboxes, MailboxesView};

verus! {

/// The identifier that a graph uses for a name: the name with every dot
/// replaced by an underscore.
pub open spec fn node_id(name: Seq<u8>) -> Seq<u8> {
    name.map_values(|b: u8| if b == 0x2e { 0x5f } else { b })
}

/// Names in a row, with a comma and a space between neighbours.
pub open spec fn joined_names(list: Seq<Seq<u8>>) -> Seq<u8>
    decreases list.len(),
{
    if list.len() == 0 {
        Seq::empty()
    } else if list.len() == 1 {
        list[0]
    } else {
        joined_names(list.drop_last()) + ", ".spec_bytes() + list.last()
    }
}

/// How a control is written: its kind, and in brackets the addresses it
/// names, if it names any.
pub open spec fn control_text(control: AccessControlView) -> Seq<u8> {
    match control {
        AccessControlView::AllowAll => "AllowAll".spec_bytes(),
        AccessControlView::DenyAll => "DenyAll".spec_bytes(),
        AccessControlView::AllowSourceAddress(a) => "AllowSourceAddress(".spec_bytes() + a
            + ")".spec_bytes(),
        AccessControlView::AllowSourceAddresses(list) => "AllowSourceAddresses(".spec_bytes()
            + joined_names(list) + ")".spec_bytes(),
        AccessControlView::AllowDestinationAddress(a) => "AllowDestinationAddress(".spec_bytes()
            + a + ")".spec_bytes(),
        AccessControlView::AllowDestinationAddresses(list) =>
            "AllowDestinationAddresses(".spec_bytes() + joined_names(list) + ")".spec_bytes(),
    }
}

/// The controls of a policy in a row, with a comma and a space between
/// neighbours.
pub open spec fn joined_controls(policy: Seq<AccessControlView>) -> Seq<u8>
    decreases policy.len(),
{
    if policy.len() == 0 {
        Seq::empty()
    } else if policy.len() == 1 {
        control_text(policy[0])
    } else {
        joined_controls(policy.drop_last()) + ", ".spec_bytes() + control_text(policy.last())
    }
}

/// How a policy is written: its controls in square brackets.
pub open spec fn policy_text(policy: Seq<AccessControlView>) -> Seq<u8> {
    "[".spec_bytes() + joined_controls(policy) + "]".spec_bytes()
}

/// How a mailbox is written: its address, then the two policies.
pub open spec fn mailbox_text(mailbox: MailboxView) -> Seq<u8> {
    mailbox.address + " in: ".spec_bytes() + policy_text(mailbox.incoming) + " out: ".spec_bytes()
        + policy_text(mailbox.outgoing)
}

/// Mailboxes in a row, each in braces, with a comma and a space between
/// neighbours.
pub open spec fn joined_mailboxes(list: Seq<MailboxView>) -> Seq<u8>
    decreases list.len(),
{
    if list.len() == 0 {
        Seq::empty()
    } else if list.len() == 1 {
        "{".spec_bytes() + mailbox_text(list[0]) + "}".spec_bytes()
    } else {
        joined_mailboxes(list.drop_last()) + ", ".spec_bytes() + "{".spec_bytes() + mailbox_text(
            list.last(),
        ) + "}".spec_bytes()
    }
}

/// How the mailboxes of an actor are written: all of them in a row, the
/// primary one first.
pub open spec fn mailboxes_text(mailboxes: MailboxesView) -> Seq<u8> {
    joined_mailboxes(mailboxes.all())
}

/// Appends the bytes of `piece` to `out`.
pub fn put(out: &mut Vec<u8>, piece: &str)
    ensures
        final(out)@ == old(out)@ + piece.spec_bytes(),
{
    put_bytes(out, piece.as_bytes());
}

/// Appends `bytes` to `out`.
pub fn put_bytes(out: &mut Vec<u8>, bytes: &[u8])
    ensures
        final(out)@ == old(out)@ + bytes@,
{
    let mut i: usize = 0;
    while i < bytes.len()
        invariant
            i <= bytes.len(),
            out@ == old(out)@ + bytes@.take(i as int),
        decreases bytes.len() - i,
    {
        out.push(bytes[i]);
        assert(out@ =~= old(out)@ + bytes@.take(i + 1));
        i += 1;
    }
    assert(bytes@.take(bytes.len() as int) =~= bytes@);
}

/// Appends the graph identifier of `address` to `out`.
pub fn put_node_id(out: &mut Vec<u8>, address: &Address)
    ensures
        final(out)@ == old(out)@ + node_id(address@),
{
    let bytes = address.as_bytes();
    let mut i: usize = 0;
    while i < bytes.len()
        invariant
            i <= bytes.len(),
            bytes@ == address@,
            out@ == old(out)@ + node_id(address@).take(i as int),
        decreases bytes.len() - i,
    {
        let b: u8 = bytes[i];
        if b == 0x2e {
            out.push(0x5f);
        } else {
            out.push(b);
        }
        assert(out@ =~= old(out)@ + node_id(address@).take(i + 1));
        i += 1;
    }
    assert(node_id(address@).take(bytes.len() as int) =~= node_id(address@));
}

/// Appends the names of `list` to `out`, separated by a comma and a space.
pub fn put_joined_names(out: &mut Vec<u8>, list: &Vec<Address>)
    ensures
        final(out)@ == old(out)@ + joined_names(names(list@)),
{
    let mut i: usize = 0;
    assert(names(list@).take(0) =~= Seq::<Seq<u8>>::empty());
    while i < list.len()
        invariant
            i <= list.len(),
            out@ == old(out)@ + joined_names(names(list@).take(i as int)),
        decreases list.len() - i,
    {
        let ghost before = out@;
        proof {
            let next = names(list@).take(i + 1);
            assert(next.drop_last() =~= names(list@).take(i as int));
            assert(next.last() == list@[i as int]@);
        }
        if i > 0 {
            put(out, ", ");
        }
        put_bytes(out, list[i].as_bytes());
        assert(out@ =~= old(out)@ + joined_names(names(list@).take(i + 1)));
        i += 1;
    }
    assert(names(list@).take(list.len() as int) =~= names(list@));
}

/// Appends the text of `control` to `out`.
pub fn put_control(out: &mut Vec<u8>, control: &AccessControl)
    ensures
        final(out)@ == old(out)@ + control_text(control@),
{
    match control {
        AccessControl::AllowAll => {
            put(out, "AllowAll");
        },
        AccessControl::DenyAll => {
            put(out, "DenyAll");
        },
        AccessControl::AllowSourceAddress(a) => {
            put(out, "AllowSourceAddress(");
            put_bytes(out, a.as_bytes());
            put(out, ")");
        },
        AccessControl::AllowSourceAddresses(list) => {
            put(out, "AllowSourceAddresses(");
            put_joined_names(out, list);
            put(out, ")");
        },
        AccessControl::AllowDestinationAddress(a) => {
            put(out, "AllowDestinationAddress(");
            put_bytes(out, a.as_bytes());
            put(out, ")");
        },
        AccessControl::AllowDestinationAddresses(list) => {
            put(out, "AllowDestinationAddresses(");
            put_joined_names(out, list);
            put(out, ")");
        },
    }
    assert(out@ =~= old(out)@ + control_text(control@));
}

/// Appends the text of `policy` to `out`.
pub fn put_policy(out: &mut Vec<u8>, policy: &Vec<AccessControl>)
    ensures
        final(out)@ == old(out)@ + policy_text(policy_view(policy@)),
{
    put(out, "[");
    let ghost start = out@;
    let mut i: usize = 0;
    assert(policy_view(policy@).take(0) =~= Seq::<AccessControlView>::empty());
    while i < policy.len()
        invariant
            i <= policy.len(),
            out@ == start + joined_controls(policy_view(policy@).take(i as int)),
        decreases policy.len() - i,
    {
        proof {
            let next = policy_view(policy@).take(i + 1);
            assert(next.drop_last() =~= policy_view(policy@).take(i as int));
            assert(next.last() == policy@[i as int]@);
        }
        if i > 0 {
            put(out, ", ");
        }
        put_control(out, &policy[i]);
        assert(out@ =~= start + joined_controls(policy_view(policy@).take(i + 1)));
        i += 1;
    }
    assert(policy_view(policy@).take(policy.len() as int) =~= policy_view(policy@));
    put(out, "]");
    assert(out@ =~= old(out)@ + policy_text(policy_view(policy@)));
}

/// Appends the text of `mailbox` to `out`.
pub fn put_mailbox(out: &mut Vec<u8>, mailbox: &Mailbox)
    ensures
        final(out)@ == old(out)@ + mailbox_text(mailbox@),
{
    put_bytes(out, mailbox.address().as_bytes());
    put(out, " in: ");
    put_policy(out, mailbox.incoming_access_control());
    put(out, " out: ");
    put_policy(out, mailbox.outgoing_access_control());
    assert(out@ =~= old(out)@ + mailbox_text(mailbox@));
}

/// Appends the text of the mailboxes of an actor to `out`.
pub fn put_mailboxes(out: &mut Vec<u8>, mailboxes: &Mailboxes)
    ensures
        final(out)@ == old(out)@ + mailboxes_text(mailboxes@),
{
    let ghost all = mailboxes@.all();
    put(out, "{");
    put_mailbox(out, mailboxes.primary_mailbox());
    put(out, "}");
    let rest = mailboxes.additional_mailboxes();
    assert(all.take(1) =~= seq![mailboxes@.primary]);
    assert(out@ =~= old(out)@ + joined_mailboxes(all.take(1)));
    let mut i: usize = 0;
    while i < rest.len()
        invariant
            i <= rest.len(),
            all == mailboxes@.all(),
            mailbox_views(rest@) == mailboxes@.additional,
            out@ == old(out)@ + joined_mailboxes(all.take(i + 1)),
        decreases rest.len() - i,
    {
        proof {
            let next = all.take(i + 2);
            assert(next.drop_last() =~= all.take(i + 1));
            assert(next.last() == mailbox_views(rest@)[i as int]);
        }
        put(out, ", ");
        put(out, "{");
        put_mailbox(out, &rest[i]);
        put(out, "}");
        assert(out@ =~= old(out)@ + joined_mailboxes(all.take(i + 2)));
        i += 1;
    }
    assert(all.take(rest.len() + 1) =~= all);
}

} // verus!
