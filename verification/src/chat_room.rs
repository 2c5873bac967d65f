//! The decisions of a chat room: which side a process plays, and who receives
//! a message.
use crate::text::same_text;
use vstd::prelude::*;

verus! {

/// The side a process plays.
#[derive(PartialEq, Eq, Structural)]
pub enum Role {
    Server,
    Client,
}

/// The role a word names: `server` or `client`, in lower, capitalised or
/// upper case.
pub open spec fn role_named(s: Seq<char>) -> Option<Role> {
    if s == "server"@ || s == "Server"@ || s == "SERVER"@ {
        Some(Role::Server)
    } else if s == "client"@ || s == "Client"@ || s == "CLIENT"@ {
        Some(Role::Client)
    } else {
        None
    }
}

/// The message for a word that names no role.
pub open spec fn invalid_role_message() -> Seq<char> {
    "pass the valid argument"@
}

/// The role words: `server` and `client` in lower, capitalised and upper
/// case name their roles, and a word in any other case names none.
pub proof fn lemma_role_spellings()
    ensures
        role_named("server"@) == Some(Role::Server),
        role_named("Server"@) == Some(Role::Server),
        role_named("SERVER"@) == Some(Role::Server),
        role_named("client"@) == Some(Role::Client),
        role_named("Client"@) == Some(Role::Client),
        role_named("CLIENT"@) == Some(Role::Client),
        role_named("sErver"@) is None,
        role_named("peer"@) is None,
{
    reveal_strlit("server");
    reveal_strlit("Server");
    reveal_strlit("SERVER");
    reveal_strlit("client");
    reveal_strlit("Client");
    reveal_strlit("CLIENT");
    reveal_strlit("sErver");
    reveal_strlit("peer");
    assert("client"@[0] != "server"@[0] && "client"@[0] != "Server"@[0] && "client"@[0]
        != "SERVER"@[0]);
    assert("Client"@[0] != "server"@[0] && "Client"@[0] != "Server"@[0] && "Client"@[0]
        != "SERVER"@[0]);
    assert("CLIENT"@[0] != "server"@[0] && "CLIENT"@[0] != "Server"@[0] && "CLIENT"@[0]
        != "SERVER"@[0]);
    assert("sErver"@[1] != "server"@[1] && "sErver"@[0] != "Server"@[0] && "sErver"@[0]
        != "SERVER"@[0]);
    assert("sErver"@[0] != "client"@[0] && "sErver"@[0] != "Client"@[0] && "sErver"@[0]
        != "CLIENT"@[0]);
}

/// Reads a role name.
pub fn parse_role(s: &str) -> (r: Result<Role, &'static str>)
    ensures
        match role_named(s@) {
            Some(role) => r == Ok::<Role, &'static str>(role),
            None => r matches Err(e) && e@ == invalid_role_message(),
        },
{
    if same_text(s, "server") || same_text(s, "Server") || same_text(s, "SERVER") {
        Ok(Role::Server)
    } else if same_text(s, "client") || same_text(s, "Client") || same_text(s, "CLIENT") {
        Ok(Role::Client)
    } else {
        Err("pass the valid argument")
    }
}

impl std::str::FromStr for Role {
    type Err = &'static str;

    fn from_str(s: &str) -> (r: Result<Self, Self::Err>)
        ensures
            match role_named(s@) {
                Some(role) => r == Ok::<Role, &'static str>(role),
                None => r matches Err(e) && e@ == invalid_role_message(),
            },
    {
        parse_role(s)
    }
}

/// The id counter of the chat server: each connecting client gets the next
/// number, so no id is handed out twice.
pub struct ClientIds {
    next: usize,
}

impl ClientIds {
    /// The id the next client will get.
    pub closed spec fn next_id(&self) -> nat {
        self.next as nat
    }

    /// A counter whose first id is 0.
    pub fn new() -> (r: Self)
        ensures
            r.next_id() == 0,
    {
        ClientIds { next: 0 }
    }

    /// Whether another id can be handed out without overflow.
    pub fn can_assign(&self) -> (r: bool)
        ensures
            r == (self.next_id() < usize::MAX),
    {
        self.next < usize::MAX
    }

    /// Hands out the next id. Every later id is larger, so ids are never
    /// reused.
    pub fn assign(&mut self) -> (r: usize)
        requires
            old(self).next_id() < usize::MAX,
        ensures
            r == old(self).next_id(),
            final(self).next_id() == old(self).next_id() + 1,
    {
        let id = self.next;
        self.next = self.next + 1;
        id
    }
}

/// The clients other than `from`, in the order given.
pub open spec fn others<S>(clients: Seq<(usize, S)>, from: usize) -> Seq<(usize, S)> {
    clients.filter(|c: (usize, S)| c.0 != from)
}

/// The mailboxes that a message from client `from` goes to: those of every
/// other client, in the order given.
pub fn recipients<S>(clients: Vec<(usize, S)>, from: usize) -> (r: Vec<S>)
    ensures
        r@ == others(clients@, from).map_values(|c: (usize, S)| c.1),
{
    let ghost all = clients@;
    assert(all.len() == clients.len());
    let mut out: Vec<S> = Vec::new();
    let mut rest = clients;
    let mut done: usize = 0;
    while rest.len() > 0
        invariant
            done + rest@.len() == all.len(),
            all.len() <= usize::MAX,
            rest@ == all.subrange(done as int, all.len() as int),
            out@ == others(all.take(done as int), from).map_values(|c: (usize, S)| c.1),
        decreases rest@.len(),
    {
        let ghost before = all.take(done as int);
        let ghost after = all.take(done + 1);
        let (id, mailbox) = rest.remove(0);
        proof {
            assert(after.drop_last() =~= before);
            assert(after.last() == all[done as int]);
            reveal(Seq::filter);
        }
        if id != from {
            let ghost prev = out@;
            out.push(mailbox);
            assert(out@ =~= prev.push(all[done as int].1));
            assert(others(after, from) == others(before, from).push(after.last()));
            assert(out@ =~= others(after, from).map_values(|c: (usize, S)| c.1));
        } else {
            assert(others(after, from) == others(before, from));
        }
        done = done + 1;
        assert(rest@ =~= all.subrange(done as int, all.len() as int));
    }
    assert(all.take(done as int) =~= all);
    out
}

/// A message never goes back to its sender, and reaches every other client.
pub proof fn lemma_broadcast_reaches_others_only<S>(clients: Seq<(usize, S)>, from: usize)
    ensures
        forall|i: int|
            0 <= i < others(clients, from).len() ==> (#[trigger] others(clients, from)[i]).0 != from,
        forall|i: int|
            0 <= i < clients.len() && (#[trigger] clients[i]).0 != from ==> others(
                clients,
                from,
            ).contains(clients[i]),
{
    broadcast use vstd::seq_lib::group_filter_ensures;

}

} // verus!
