use vstd::prelude::*;
use crate::address::{
    distinct,
    lemma_distinct_after_push,
    lemma_position,
    lemma_position_is_first,
    position,
    Address,
};
use crate::secure_channel::{
    lemma_step_keeps_wf,
    Action,
    ActionView,
    Event,
    EventView,
    ReplayPolicy,
    Session,
    SessionView,
};

verus! {

/// What an entry of a session table is, as plain values.
pub struct SessionEntryView {
    pub address: Seq<u8>,
    pub session: SessionView,
}

/// What a session table is, as plain values: its entries in the order in
/// which the sessions were opened.
pub struct SessionTableView {
    pub entries: Seq<SessionEntryView>,
}

impl SessionTableView {
    /// The addresses of the sessions.
    pub open spec fn keys(self) -> Seq<Seq<u8>> {
        self.entries.map_values(|e: SessionEntryView| e.address)
    }

    /// The place of the session at `name`, or the number of sessions if
    /// there is none.
    pub open spec fn place(self, name: Seq<u8>) -> int {
        position(self.keys(), name)
    }

    /// The session at `name`, if there is one.
    pub open spec fn session(self, name: Seq<u8>) -> Option<SessionView> {
        if self.place(name) < self.entries.len() {
            Some(self.entries[self.place(name)].session)
        } else {
            None
        }
    }

    /// The table after a session was opened at `name`: a session that has
    /// not begun comes last. Where there is a session at `name` already,
    /// nothing changes.
    pub open spec fn open(self, name: Seq<u8>, policy: ReplayPolicy) -> SessionTableView {
        if self.place(name) < self.entries.len() {
            self
        } else {
            SessionTableView {
                entries: self.entries.push(
                    SessionEntryView { address: name, session: SessionView::fresh(policy) },
                ),
            }
        }
    }

    /// What an event for the session at `name` does: that session takes its
    /// step, and every other session is left as it is. Where there is no
    /// session at `name`, nothing changes and there is no action.
    pub open spec fn step(self, name: Seq<u8>, event: EventView) -> (
        SessionTableView,
        Option<ActionView>,
    ) {
        let p = self.place(name);
        if p < self.entries.len() {
            (
                SessionTableView {
                    entries: self.entries.update(
                        p,
                        SessionEntryView {
                            address: self.entries[p].address,
                            session: self.entries[p].session.step(event).0,
                        },
                    ),
                },
                Some(self.entries[p].session.step(event).1),
            )
        } else {
            (self, None)
        }
    }

    /// The table without the session at `name`.
    pub open spec fn remove(self, name: Seq<u8>) -> SessionTableView {
        let p = self.place(name);
        if p < self.entries.len() {
            SessionTableView { entries: self.entries.remove(p) }
        } else {
            self
        }
    }

    /// No address has two sessions, and every session is well formed.
    pub open spec fn wf(self) -> bool {
        &&& distinct(self.keys())
        &&& forall|i: int|
            0 <= i < self.entries.len() ==> (#[trigger] self.entries[i]).session.wf()
    }
}

/// The place of a name is within the entries or just behind them, and the
/// entry there bears the name.
pub proof fn lemma_place(table: SessionTableView, name: Seq<u8>)
    ensures
        0 <= table.place(name) <= table.entries.len(),
        table.place(name) < table.entries.len() ==> table.entries[table.place(name)].address
            == name,
{
    lemma_position_is_first(table.keys(), name);
}

/// Sessions are isolated: an event for one session changes neither the
/// state, nor the keys, nor the nonces of a session at another address.
pub proof fn lemma_sessions_are_isolated(
    table: SessionTableView,
    name: Seq<u8>,
    event: EventView,
    other: Seq<u8>,
)
    requires
        name != other,
    ensures
        table.step(name, event).0.session(other) == table.session(other),
{
    lemma_place(table, name);
    lemma_place(table, other);
    let after = table.step(name, event).0;
    assert(after.keys() =~= table.keys());
}

/// Opening a session, handing an event to one and removing one keep a table
/// well formed.
pub proof fn lemma_table_stays_wf(
    table: SessionTableView,
    name: Seq<u8>,
    policy: ReplayPolicy,
    event: EventView,
)
    requires
        table.wf(),
    ensures
        table.open(name, policy).wf(),
        table.step(name, event).0.wf(),
        table.remove(name).wf(),
{
    lemma_place(table, name);
    let p = table.place(name);
    let opened = table.open(name, policy);
    if p >= table.entries.len() {
        lemma_distinct_after_push(table.keys(), name);
        assert(opened.keys() =~= table.keys().push(name));
        lemma_step_keeps_wf(SessionView::fresh(policy), event);
        assert forall|i: int| 0 <= i < opened.entries.len() implies (
        #[trigger] opened.entries[i]).session.wf() by {
            if i < table.entries.len() {
                assert(opened.entries[i] == table.entries[i]);
            }
        }
    } else {
        let stepped = table.step(name, event).0;
        assert(stepped.keys() =~= table.keys());
        lemma_step_keeps_wf(table.entries[p].session, event);
        assert forall|i: int| 0 <= i < stepped.entries.len() implies (
        #[trigger] stepped.entries[i]).session.wf() by {
            if i != p {
                assert(stepped.entries[i] == table.entries[i]);
            }
        }
        let removed = table.remove(name);
        assert forall|i: int, j: int| 0 <= i < j < removed.keys().len() implies removed.keys()[i]
            != removed.keys()[j] by {
            let i0 = if i < p {
                i
            } else {
                i + 1
            };
            let j0 = if j < p {
                j
            } else {
                j + 1
            };
            assert(removed.keys()[i] == table.keys()[i0]);
            assert(removed.keys()[j] == table.keys()[j0]);
        }
        assert forall|i: int| 0 <= i < removed.entries.len() implies (
        #[trigger] removed.entries[i]).session.wf() by {
            let i0 = if i < p {
                i
            } else {
                i + 1
            };
            assert(removed.entries[i] == table.entries[i0]);
        }
    }
}

/// An event for a session of the table does to it what it would do to the
/// session alone.
pub proof fn lemma_step_is_the_sessions_own(
    table: SessionTableView,
    name: Seq<u8>,
    event: EventView,
)
    requires
        table.session(name) is Some,
    ensures
        table.step(name, event).0.session(name) == Some(
            table.session(name)->Some_0.step(event).0,
        ),
        table.step(name, event).1 == Some(table.session(name)->Some_0.step(event).1),
{
    lemma_place(table, name);
    let after = table.step(name, event).0;
    assert(after.keys() =~= table.keys());
}

struct Entry {
    address: Address,
    session: Session,
}

/// The sessions of a node, each at the address of the mailbox that its
/// messages come to. Each session is its own: what happens to one leaves
/// the others untouched.
pub struct SessionTable {
    entries: Vec<Entry>,
}

impl View for SessionTable {
    type V = SessionTableView;

    closed spec fn view(&self) -> SessionTableView {
        SessionTableView {
            entries: self.entries@.map_values(
                |e: Entry| SessionEntryView { address: e.address@, session: e.session@ },
            ),
        }
    }
}

impl SessionTable {
    /// A table without sessions.
    pub fn new() -> (table: SessionTable)
        ensures
            table@.entries == Seq::<SessionEntryView>::empty(),
            table@.wf(),
    {
        let table = SessionTable { entries: Vec::new() };
        assert(table@.entries =~= Seq::<SessionEntryView>::empty());
        table
    }

    /// The number of sessions.
    pub fn len(&self) -> (count: usize)
        ensures
            count == self@.entries.len(),
    {
        self.entries.len()
    }

    fn place(&self, address: &Address) -> (p: usize)
        ensures
            p == self@.place(address@),
            p <= self.entries.len(),
    {
        let ghost keys = self@.keys();
        let mut p: usize = 0;
        while p < self.entries.len() && !self.entries[p].address.equals(address)
            invariant
                p <= self.entries.len(),
                keys == self@.keys(),
                forall|j: int| 0 <= j < p ==> keys[j] != address@,
            decreases self.entries.len() - p,
        {
            p += 1;
        }
        proof {
            lemma_position(keys, address@, p as int);
        }
        p
    }

    /// Opens a session at `address`. Says whether it did: it does not where
    /// there is a session at that address already.
    pub fn open(&mut self, address: Address, policy: ReplayPolicy) -> (opened: bool)
        ensures
            final(self)@ == old(self)@.open(address@, policy),
            opened == old(self)@.session(address@) is None,
            old(self)@.wf() ==> final(self)@.wf(),
    {
        proof {
            if self@.wf() {
                lemma_table_stays_wf(self@, address@, policy, EventView::Close);
            }
        }
        let p = self.place(&address);
        if p < self.entries.len() {
            return false;
        }
        self.entries.push(Entry { address, session: Session::with_policy(policy) });
        assert(self@.entries =~= old(self)@.entries.push(
            SessionEntryView { address: address@, session: SessionView::fresh(policy) },
        ));
        true
    }

    /// The session at `address`, if there is one.
    pub fn session(&self, address: &Address) -> (session: Option<&Session>)
        ensures
            match session {
                Some(s) => self@.session(address@) == Some(s@),
                None => self@.session(address@) is None,
            },
    {
        let p = self.place(address);
        if p < self.entries.len() {
            Some(&self.entries[p].session)
        } else {
            None
        }
    }

    /// Hands `event` to the session at `address` and says what its owner is
    /// to do; `None` if there is no session at that address. No other
    /// session is touched.
    pub fn step(&mut self, address: &Address, event: Event) -> (action: Option<Action>)
        ensures
            (
                final(self)@,
                match action {
                    Some(a) => Some(a@),
                    None => None,
                },
            ) == old(self)@.step(address@, event@),
            forall|other: Seq<u8>|
                other != address@ ==> (#[trigger] final(self)@.session(other)) == old(
                    self,
                )@.session(other),
            old(self)@.wf() ==> final(self)@.wf(),
    {
        proof {
            if self@.wf() {
                lemma_table_stays_wf(self@, address@, ReplayPolicy::CloseSession, event@);
            }
            assert forall|other: Seq<u8>| other != address@ implies (#[trigger] self@.step(
                address@,
                event@,
            ).0.session(other)) == self@.session(other) by {
                lemma_sessions_are_isolated(self@, address@, event@, other);
            }
        }
        let p = self.place(address);
        if p >= self.entries.len() {
            return None;
        }
        let ghost before = self@.entries[p as int];
        let action = self.entries[p].session.step(event);
        proof {
            assert(self@.entries =~= old(self)@.entries.update(
                p as int,
                SessionEntryView {
                    address: before.address,
                    session: before.session.step(event@).0,
                },
            ));
        }
        Some(action)
    }

    /// Takes the session at `address` out of the table. Says whether there
    /// was one.
    pub fn remove(&mut self, address: &Address) -> (removed: bool)
        ensures
            final(self)@ == old(self)@.remove(address@),
            removed == old(self)@.session(address@) is Some,
            old(self)@.wf() ==> final(self)@.wf(),
    {
        proof {
            if self@.wf() {
                lemma_table_stays_wf(self@, address@, ReplayPolicy::CloseSession, EventView::Close);
            }
        }
        let p = self.place(address);
        if p < self.entries.len() {
            let _ = self.entries.remove(p);
            assert(self@.entries =~= old(self)@.entries.remove(p as int));
            true
        } else {
            false
        }
    }
}

} // verus!
