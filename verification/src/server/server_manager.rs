//! The list of connected clients and the numbering of new connections.

use vstd::prelude::*;
use crate::server::io::Client;

verus! {

/// The connected clients and the last number given to a connection.
pub struct ServerManager<C> {
    pub clients: Vec<Client<C>>,
    pub(crate) next_id: usize,
}

/// A call on a manager, as far as the numbering of connections goes.
pub ghost enum ManagerCall {
    AddClient,
    RemoveClient,
    NextId,
}

/// The last number given out after `call`, when it was `issued` before.
pub open spec fn issued_after(issued: nat, call: ManagerCall) -> nat {
    match call {
        ManagerCall::NextId => issued + 1,
        _ => issued,
    }
}

/// The last number given out after the calls `calls`, one after the other.
pub open spec fn issued_after_all(issued: nat, calls: Seq<ManagerCall>) -> nat
    decreases calls.len(),
{
    if calls.len() == 0 {
        issued
    } else {
        issued_after_all(issued_after(issued, calls[0]), calls.drop_first())
    }
}

/// How many of `calls` hand out a number.
pub open spec fn next_id_calls(calls: Seq<ManagerCall>) -> nat
    decreases calls.len(),
{
    if calls.len() == 0 {
        0
    } else {
        (if calls[0] == ManagerCall::NextId {
            1nat
        } else {
            0nat
        }) + next_id_calls(calls.drop_first())
    }
}

/// Numbers of the clients in `clients`, in order.
pub open spec fn client_ids<C>(clients: Seq<Client<C>>) -> Seq<usize> {
    clients.map_values(|c: Client<C>| c.id.0)
}

/// `clients` without the first client numbered `id`; unchanged when there is none.
pub open spec fn without_client<C>(clients: Seq<Client<C>>, id: usize) -> Seq<Client<C>> {
    if exists|i: int| 0 <= i < clients.len() && clients[i].id.0 == id {
        let i = choose|i: int|
            0 <= i < clients.len() && clients[i].id.0 == id && forall|j: int|
                0 <= j < i ==> clients[j].id.0 != id;
        clients.remove(i)
    } else {
        clients
    }
}

/// Whether a client numbered `id` is in `clients`.
pub open spec fn has_client<C>(clients: Seq<Client<C>>, id: usize) -> bool {
    exists|i: int| 0 <= i < clients.len() && clients[i].id.0 == id
}

impl<C> ServerManager<C> {
    /// The connected clients, in the order they were added.
    pub open(crate) spec fn client_list(&self) -> Seq<Client<C>> {
        self.clients@
    }

    /// The last number given to a connection (0 before the first).
    pub open(crate) spec fn issued(&self) -> nat {
        self.next_id as nat
    }

    /// The last number given to a connection (0 before the first).
    pub fn last_id(&self) -> (n: usize)
        ensures
            n == self.issued(),
    {
        self.next_id
    }

    /// A manager with no clients that has numbered no connection.
    pub fn new() -> (m: Self)
        ensures
            m.client_list() == Seq::<Client<C>>::empty(),
            m.issued() == 0,
    {
        ServerManager { clients: Vec::new(), next_id: 0 }
    }

    /// Adds `io_client` at the end of the list.
    pub fn add_client(&mut self, io_client: Client<C>)
        ensures
            final(self).client_list() == old(self).client_list().push(io_client),
            final(self).issued() == issued_after(old(self).issued(), ManagerCall::AddClient),
    {
        self.clients.push(io_client);
    }

    /// Removes the first client that carries the number of `io_client`, if any.
    pub fn remove_client(&mut self, io_client: &Client<C>)
        ensures
            final(self).client_list() == without_client(old(self).client_list(), io_client.id.0),
            final(self).issued() == issued_after(old(self).issued(), ManagerCall::RemoveClient),
    {
        let id = io_client.id.0;
        let mut i: usize = 0;
        while i < self.clients.len()
            invariant
                i <= self.clients@.len(),
                id == io_client.id.0,
                self.clients@ == old(self).clients@,
                self.next_id == old(self).next_id,
                forall|j: int| 0 <= j < i ==> self.clients@[j].id.0 != id,
            decreases self.clients@.len() - i,
        {
            if self.clients[i].id.0 == id {
                proof {
                    let s = old(self).clients@;
                    let ii = i as int;
                    assert(0 <= ii < s.len() && s[ii].id.0 == id);
                    assert(exists|k: int| 0 <= k < s.len() && s[k].id.0 == id);
                    assert(0 <= ii < s.len() && s[ii].id.0 == id && forall|j: int|
                        0 <= j < ii ==> s[j].id.0 != id);
                    let k = choose|k: int|
                        0 <= k < s.len() && s[k].id.0 == id && forall|j: int|
                            0 <= j < k ==> s[j].id.0 != id;
                    if k < ii {
                        assert(s[k].id.0 != id);
                    }
                    if k > ii {
                        assert(s[ii].id.0 != id);
                    }
                    assert(k == ii);
                    assert(without_client(s, id) == s.remove(ii));
                }
                self.clients.remove(i);
                return;
            }
            i = i + 1;
        }
    }

    /// Gives the next connection a number one above the last.
    pub fn next_id(&mut self) -> (id: usize)
        requires
            old(self).issued() < usize::MAX,
        ensures
            id == old(self).issued() + 1,
            final(self).issued() == issued_after(old(self).issued(), ManagerCall::NextId),
            final(self).issued() == id,
            final(self).client_list() == old(self).client_list(),
    {
        self.next_id = self.next_id + 1;
        self.next_id
    }
}

impl<C> Default for ServerManager<C> {
    fn default() -> (m: Self)
        ensures
            m.client_list() == Seq::<Client<C>>::empty(),
            m.issued() == 0,
    {
        Self::new()
    }
}

/// Removing drops the first client that carries the number, wherever it
/// stands, and keeps every other client in order: one client fewer.
pub proof fn remove_drops_first_match<C>(clients: Seq<Client<C>>, id: usize, i: int)
    requires
        0 <= i < clients.len(),
        clients[i].id.0 == id,
        forall|j: int| 0 <= j < i ==> clients[j].id.0 != id,
    ensures
        without_client(clients, id) == clients.remove(i),
        without_client(clients, id).len() == clients.len() - 1,
{
    assert(exists|k: int| 0 <= k < clients.len() && clients[k].id.0 == id);
    let k = choose|k: int|
        0 <= k < clients.len() && clients[k].id.0 == id && forall|j: int|
            0 <= j < k ==> clients[j].id.0 != id;
    if k < i {
        assert(clients[k].id.0 != id);
    }
    if k > i {
        assert(clients[i].id.0 != id);
    }
}

/// Removing a number that no client carries leaves the list as it was.
pub proof fn remove_absent_keeps<C>(clients: Seq<Client<C>>, id: usize)
    requires
        forall|j: int| 0 <= j < clients.len() ==> clients[j].id.0 != id,
    ensures
        without_client(clients, id) == clients,
{
}

/// Adding a client whose number no listed client carries, then removing it,
/// leaves the list as it was.
pub proof fn add_then_remove<C>(clients: Seq<Client<C>>, c: Client<C>)
    requires
        !has_client(clients, c.id.0),
    ensures
        without_client(clients.push(c), c.id.0) == clients,
{
    let s = clients.push(c);
    assert(0 <= clients.len() < s.len() && s[clients.len() as int].id.0 == c.id.0);
    let k = choose|k: int|
        0 <= k < s.len() && s[k].id.0 == c.id.0 && forall|j: int| 0 <= j < k ==> s[j].id.0 != c.id.0;
    if k < clients.len() {
        assert(clients[k].id.0 == c.id.0);
    }
    assert(k == clients.len());
    assert(s.remove(k) =~= clients);
}

/// Each call that hands out a number raises the last number by one, and no
/// other call changes it: after `calls`, the last number is the one before
/// plus the number of those calls.
pub proof fn issued_counts_calls(issued: nat, calls: Seq<ManagerCall>)
    ensures
        issued_after_all(issued, calls) == issued + next_id_calls(calls),
    decreases calls.len(),
{
    if calls.len() > 0 {
        issued_counts_calls(issued_after(issued, calls[0]), calls.drop_first());
    }
}

/// When `next_id` returned `a` and then `calls` ran, `k` of them handing out
/// numbers, the next `next_id` returns `a + k + 1`: a manager never hands
/// out the same number twice.
pub proof fn next_ids_count_up(a: nat, calls: Seq<ManagerCall>)
    ensures
        issued_after_all(a, calls) + 1 == a + next_id_calls(calls) + 1,
        issued_after_all(a, calls) + 1 > a,
{
    issued_counts_calls(a, calls);
}

} // verus!
