//! The connection registry: the one map from identity ticket to live
//! connection that every session shares.
use vstd::prelude::*;
use std::collections::HashMap;
use crate::ticket::{Ticket, uuid_text};

verus! {

broadcast use vstd::std_specs::hash::group_hash_axioms;

/// The player that a connection stands for, as the game layer sees it.
/// Admission only ever creates anonymous players.
#[derive(Clone, Copy, Debug, PartialEq, Eq, Structural)]
pub enum Player {
    Anonymous,
}

impl Player {
    /// A fresh anonymous player.
    pub fn anonymous() -> (p: Player)
        ensures
            p == Player::Anonymous,
    {
        Player::Anonymous
    }
}

/// One admitted client: its ticket and its player.
#[derive(Clone, Copy, Debug, PartialEq, Eq, Structural)]
pub struct Connection {
    pub ticket: Ticket,
    pub player: Player,
}

impl Connection {
    pub fn new(ticket: Ticket, player: Player) -> (c: Connection)
        ensures
            c.ticket == ticket,
            c.player == player,
    {
        Connection { ticket, player }
    }

    /// A short label for the connection: `conn{<ticket>}`.
    pub fn label(&self) -> (r: String)
        ensures
            r@ == "conn{"@ + uuid_text(self.ticket.bits) + "}"@,
    {
        let mut r = String::from_str("conn{");
        r.append(self.ticket.to_text().as_str());
        r.append("}");
        r
    }
}

/// What admission did with a ticket.
#[derive(Clone, Copy, Debug, PartialEq, Eq, Structural)]
pub enum Admission {
    /// The ticket was already registered; nothing changed.
    Reconnected,
    /// The ticket was new and is now registered with a fresh player.
    Admitted,
}

/// The registry after admitting `t` into `m`: unchanged where `t` is known,
/// else with a new anonymous connection under `t`.
pub open spec fn spec_admit(m: Map<u128, Connection>, t: u128) -> Map<u128, Connection> {
    if m.contains_key(t) {
        m
    } else {
        m.insert(t, Connection { ticket: Ticket { bits: t }, player: Player::Anonymous })
    }
}

/// The registry after admitting each ticket of `ts` in turn.
pub open spec fn spec_admit_all(m: Map<u128, Connection>, ts: Seq<u128>) -> Map<u128, Connection>
    decreases ts.len(),
{
    if ts.len() == 0 {
        m
    } else {
        spec_admit(spec_admit_all(m, ts.drop_last()), ts.last())
    }
}

/// Every entry sits under its own connection's ticket.
pub open spec fn keyed_by_ticket(m: Map<u128, Connection>) -> bool {
    forall|k: u128| m.contains_key(k) ==> (#[trigger] m[k]).ticket.bits == k
}

/// The map from ticket to connection.  Admission checks and inserts in one
/// `&mut` call, so no two entries can ever stand for one ticket.
pub struct Registry {
    connections: HashMap<u128, Connection>,
}

impl View for Registry {
    type V = Map<u128, Connection>;

    closed spec fn view(&self) -> Map<u128, Connection> {
        self.connections@
    }
}

impl Registry {
    /// Each connection is filed under its own ticket, and there are finitely
    /// many.
    pub open spec fn wf(&self) -> bool {
        &&& keyed_by_ticket(self@)
        &&& self@.dom().finite()
    }

    /// An empty registry.
    pub fn new() -> (r: Registry)
        ensures
            r.wf(),
            r@ == Map::<u128, Connection>::empty(),
    {
        Registry { connections: HashMap::new() }
    }

    /// The number of registered connections.
    pub fn len(&self) -> (n: usize)
        ensures
            n == self@.len(),
    {
        self.connections.len()
    }

    /// Whether `ticket` is registered.
    pub fn contains(&self, ticket: Ticket) -> (b: bool)
        ensures
            b == self@.contains_key(ticket.bits),
    {
        self.connections.contains_key(&ticket.bits)
    }

    /// The connection registered under `ticket`, if any.
    pub fn get(&self, ticket: Ticket) -> (r: Option<Connection>)
        ensures
            r == (if self@.contains_key(ticket.bits) {
                Some(self@[ticket.bits])
            } else {
                None
            }),
    {
        match self.connections.get(&ticket.bits) {
            Some(c) => Some(*c),
            None => None,
        }
    }

    /// Admits `ticket`: a known ticket leaves the registry as it was (a
    /// reconnect); an unknown one gets a new connection with a fresh
    /// anonymous player.  Check and insert happen as one step.
    pub fn admit_ticket(&mut self, ticket: Ticket) -> (r: Admission)
        requires
            old(self).wf(),
        ensures
            final(self).wf(),
            final(self)@ == spec_admit(old(self)@, ticket.bits),
            r == (if old(self)@.contains_key(ticket.bits) {
                Admission::Reconnected
            } else {
                Admission::Admitted
            }),
    {
        if self.connections.contains_key(&ticket.bits) {
            Admission::Reconnected
        } else {
            self.connections.insert(ticket.bits, Connection::new(ticket, Player::anonymous()));
            Admission::Admitted
        }
    }
}

/// Admitting tickets one after another registers exactly the tickets
/// admitted besides those there before, and leaves every connection that
/// was there untouched.  When the tickets are pairwise distinct and none
/// was registered, the registry grows by exactly their number: no insert
/// is lost and no ticket gets two entries.
pub proof fn lemma_admit_all(m: Map<u128, Connection>, ts: Seq<u128>)
    requires
        m.dom().finite(),
    ensures
        spec_admit_all(m, ts).dom() == m.dom() + ts.to_set(),
        spec_admit_all(m, ts).dom().finite(),
        forall|k: u128| m.contains_key(k) ==> #[trigger] spec_admit_all(m, ts)[k] == m[k],
        (ts.no_duplicates() && forall|i: int| 0 <= i < ts.len() ==> !m.contains_key(#[trigger] ts[i]))
            ==> spec_admit_all(m, ts).len() == m.len() + ts.len(),
    decreases ts.len(),
{
    if ts.len() == 0 {
        assert(ts.to_set() =~= Set::empty());
        assert(m.dom() + ts.to_set() =~= m.dom());
    } else {
        let p = ts.drop_last();
        let t = ts.last();
        lemma_admit_all(m, p);
        let mp = spec_admit_all(m, p);
        assert(ts.to_set() =~= p.to_set().insert(t)) by {
            assert(ts =~= p.push(t));
            p.lemma_push_to_set_commute(t);
        }
        assert(spec_admit_all(m, ts).dom() =~= m.dom() + ts.to_set());
        if ts.no_duplicates() && forall|i: int| 0 <= i < ts.len() ==> !m.contains_key(#[trigger] ts[i]) {
            assert(p.no_duplicates());
            assert forall|i: int| 0 <= i < p.len() implies !m.contains_key(#[trigger] p[i]) by {
                assert(p[i] == ts[i]);
            }
            assert(!p.to_set().contains(t)) by {
                if p.to_set().contains(t) {
                    let i = choose|i: int| 0 <= i < p.len() && p[i] == t;
                    assert(ts[i] == ts[ts.len() - 1]);
                }
            }
            assert(!m.contains_key(t));
            assert(!mp.contains_key(t));
        }
    }
}

/// Admitting a ticket that is already registered, however often, changes
/// nothing: no second entry, and the existing connection's player stays.
pub proof fn lemma_readmit_known(m: Map<u128, Connection>, t: u128)
    requires
        m.contains_key(t),
    ensures
        spec_admit(m, t) == m,
        spec_admit(spec_admit(m, t), t) == m,
{
}

} // verus!
