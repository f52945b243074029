//! The session registry: which network address each session speaks from,
//! when it was last heard from, and which sessions have gone quiet for too
//! long. The socket itself stays with the caller.

use vstd::prelude::*;
use crate::json::same_text;

verus! {

/// How long a session may stay silent before it is evicted, in milliseconds.
pub const DEFAULT_TIMEOUT_MS: u64 = 5000;

pub struct Client {
    pub id: u64,
    pub addr: String,
    /// When the session was last heard from, in milliseconds.
    pub last_packet_time: u64,
    pub player_id: Option<u64>,
}

pub struct ClientView {
    pub id: u64,
    pub addr: Seq<char>,
    pub last_packet_time: u64,
    pub player_id: Option<u64>,
}

impl View for Client {
    type V = ClientView;

    open spec fn view(&self) -> ClientView {
        ClientView {
            id: self.id,
            addr: self.addr@,
            last_packet_time: self.last_packet_time,
            player_id: self.player_id,
        }
    }
}

impl Client {
    /// A session first heard from at `now`, bound to no player.
    pub fn new(id: u64, addr: String, now: u64) -> (r: Client)
        ensures
            r@ == (ClientView { id, addr: addr@, last_packet_time: now, player_id: None }),
    {
        Client { id, addr, last_packet_time: now, player_id: None }
    }

    /// A copy of the session, to hand out of the registry.
    pub fn snapshot(&self) -> (r: Client)
        ensures
            r@ == self@,
    {
        Client {
            id: self.id,
            addr: self.addr.clone(),
            last_packet_time: self.last_packet_time,
            player_id: self.player_id,
        }
    }
}

pub struct ServerView {
    pub clients: Seq<ClientView>,
    pub client_id_counter: u64,
    pub timeout_duration_ms: u64,
}

/// The registry's invariant: session ids are handed out in increasing order
/// and never above the counter, and one address has at most one session.
pub open spec fn server_wf(s: ServerView) -> bool {
    &&& forall|i: int| 0 <= i < s.clients.len() ==> 0 < #[trigger] s.clients[i].id <= s.client_id_counter
    &&& forall|i: int, j: int|
        0 <= i < j < s.clients.len() ==> #[trigger] s.clients[i].id < #[trigger] s.clients[j].id
    &&& forall|i: int, j: int|
        0 <= i < s.clients.len() && 0 <= j < s.clients.len() && i != j
            ==> #[trigger] s.clients[i].addr != #[trigger] s.clients[j].addr
}

/// Whether a session was last heard from more than `timeout` milliseconds
/// before `now`.
pub open spec fn is_stale(c: ClientView, now: u64, timeout: u64) -> bool {
    now > c.last_packet_time && now - c.last_packet_time > timeout
}

/// The sessions of `cs` that are not stale, in order.
pub open spec fn kept(cs: Seq<ClientView>, now: u64, timeout: u64) -> Seq<ClientView>
    decreases cs.len(),
{
    if cs.len() == 0 {
        Seq::empty()
    } else {
        let rest = kept(cs.drop_last(), now, timeout);
        if is_stale(cs.last(), now, timeout) {
            rest
        } else {
            rest.push(cs.last())
        }
    }
}

/// The ids of the sessions of `cs` that are stale, in order.
pub open spec fn evicted_ids(cs: Seq<ClientView>, now: u64, timeout: u64) -> Seq<u64>
    decreases cs.len(),
{
    if cs.len() == 0 {
        Seq::empty()
    } else {
        let rest = evicted_ids(cs.drop_last(), now, timeout);
        if is_stale(cs.last(), now, timeout) {
            rest.push(cs.last().id)
        } else {
            rest
        }
    }
}

pub open spec fn addr_known(cs: Seq<ClientView>, addr: Seq<char>) -> bool {
    exists|i: int| 0 <= i < cs.len() && #[trigger] cs[i].addr == addr
}

pub open spec fn addr_index(cs: Seq<ClientView>, addr: Seq<char>) -> int {
    choose|i: int| 0 <= i < cs.len() && #[trigger] cs[i].addr == addr
}

pub open spec fn id_known(cs: Seq<ClientView>, id: u64) -> bool {
    exists|i: int| 0 <= i < cs.len() && #[trigger] cs[i].id == id
}

pub open spec fn id_index(cs: Seq<ClientView>, id: u64) -> int {
    choose|i: int| 0 <= i < cs.len() && #[trigger] cs[i].id == id
}

/// The player bound to session `c` by the first pair for it in `bs`.
pub open spec fn bound_player(bs: Seq<(u64, u64)>, c: u64) -> Option<u64>
    decreases bs.len(),
{
    if bs.len() == 0 {
        None
    } else if bs[0].0 == c {
        Some(bs[0].1)
    } else {
        bound_player(bs.drop_first(), c)
    }
}

fn find_binding(bs: &Vec<(u64, u64)>, c: u64) -> (r: Option<u64>)
    ensures
        r == bound_player(bs@, c),
{
    let mut i: usize = 0;
    assert(bs@.subrange(0, bs@.len() as int) =~= bs@);
    while i < bs.len()
        invariant
            0 <= i <= bs.len(),
            bound_player(bs@, c) == bound_player(bs@.subrange(i as int, bs@.len() as int), c),
        decreases bs.len() - i,
    {
        assert(bs@.subrange(i as int, bs@.len() as int).drop_first() =~= bs@.subrange(i + 1, bs@.len() as int));
        if bs[i].0 == c {
            return Some(bs[i].1);
        }
        i = i + 1;
    }
    None
}

pub struct Server {
    pub clients: Vec<Client>,
    pub server_addr: String,
    pub client_id_counter: u64,
    pub timeout_duration_ms: u64,
}

impl View for Server {
    type V = ServerView;

    open spec fn view(&self) -> ServerView {
        ServerView {
            clients: self.clients@.map_values(|c: Client| c@),
            client_id_counter: self.client_id_counter,
            timeout_duration_ms: self.timeout_duration_ms,
        }
    }
}

impl Server {
    pub open spec fn wf(&self) -> bool {
        server_wf(self@)
    }

    /// A registry with no sessions, for the server listening on `server_addr`.
    pub fn new(server_addr: &str) -> (r: Server)
        ensures
            r.wf(),
            r@.clients.len() == 0,
            r@.client_id_counter == 0,
            r@.timeout_duration_ms == DEFAULT_TIMEOUT_MS,
            r.server_addr@ == server_addr@,
    {
        Server {
            clients: Vec::new(),
            server_addr: server_addr.to_owned(),
            client_id_counter: 0,
            timeout_duration_ms: DEFAULT_TIMEOUT_MS,
        }
    }

    /// Hands out the next session id.
    pub fn generate_client_id(&mut self) -> (r: u64)
        requires
            old(self).client_id_counter < u64::MAX,
        ensures
            r == old(self).client_id_counter + 1,
            final(self).client_id_counter == r,
            final(self).clients@ == old(self).clients@,
            final(self).timeout_duration_ms == old(self).timeout_duration_ms,
            final(self).server_addr == old(self).server_addr,
    {
        self.client_id_counter = self.client_id_counter + 1;
        self.client_id_counter
    }

    pub fn get_client_count(&self) -> (r: usize)
        ensures
            r == self@.clients.len(),
    {
        self.clients.len()
    }

    fn find_by_id(&self, client_id: u64) -> (r: Option<usize>)
        ensures
            match r {
                Some(i) => i < self.clients.len() && self@.clients[i as int].id == client_id,
                None => !id_known(self@.clients, client_id),
            },
    {
        let mut i: usize = 0;
        while i < self.clients.len()
            invariant
                0 <= i <= self.clients.len(),
                forall|j: int| 0 <= j < i ==> #[trigger] self@.clients[j].id != client_id,
            decreases self.clients.len() - i,
        {
            if self.clients[i].id == client_id {
                return Some(i);
            }
            i = i + 1;
        }
        None
    }

    fn find_by_addr(&self, addr: &str) -> (r: Option<usize>)
        ensures
            match r {
                Some(i) => i < self.clients.len() && self@.clients[i as int].addr == addr@,
                None => !addr_known(self@.clients, addr@),
            },
    {
        let mut i: usize = 0;
        while i < self.clients.len()
            invariant
                0 <= i <= self.clients.len(),
                forall|j: int| 0 <= j < i ==> #[trigger] self@.clients[j].addr != addr@,
            decreases self.clients.len() - i,
        {
            if same_text(&self.clients[i].addr, addr) {
                return Some(i);
            }
            i = i + 1;
        }
        None
    }

    /// Whether the session with this id is known to be bound to a player;
    /// `false` for an unknown session.
    pub fn client_logged_in(&self, client_id: u64) -> (r: bool)
        requires
            self.wf(),
        ensures
            r == (id_known(self@.clients, client_id)
                && self@.clients[id_index(self@.clients, client_id)].player_id is Some),
    {
        match self.find_by_id(client_id) {
            Some(i) => {
                proof {
                    let j = id_index(self@.clients, client_id);
                    assert(id_known(self@.clients, client_id));
                    assert(self@.clients[j].id == self@.clients[i as int].id);
                    assert(j == i as int);
                }
                self.clients[i].player_id.is_some()
            },
            None => false,
        }
    }

    /// The session with this id and its index, if there is one.
    pub fn get_client(&self, client_id: u64) -> (r: Option<(Client, usize)>)
        ensures
            match r {
                Some((c, i)) => i < self@.clients.len() && self@.clients[i as int].id == client_id
                    && c@ == self@.clients[i as int],
                None => !id_known(self@.clients, client_id),
            },
    {
        match self.find_by_id(client_id) {
            Some(i) => Some((self.clients[i].snapshot(), i)),
            None => None,
        }
    }

    /// The session that speaks from this address, if there is one.
    pub fn check_for_addr(&self, addr: &str) -> (r: Option<Client>)
        requires
            self.wf(),
        ensures
            match r {
                Some(c) => addr_known(self@.clients, addr@) && c@ == self@.clients[addr_index(self@.clients, addr@)],
                None => !addr_known(self@.clients, addr@),
            },
    {
        match self.find_by_addr(addr) {
            Some(i) => {
                proof {
                    let j = addr_index(self@.clients, addr@);
                    assert(addr_known(self@.clients, addr@));
                    assert(self@.clients[j].addr == self@.clients[i as int].addr);
                    assert(j == i as int);
                }
                Some(self.clients[i].snapshot())
            },
            None => None,
        }
    }

    /// Registers a session for an address that has none, with a new id.
    pub fn create_client(&mut self, addr: String, now: u64) -> (r: Client)
        requires
            old(self).wf(),
            old(self).client_id_counter < u64::MAX,
            !addr_known(old(self)@.clients, addr@),
        ensures
            final(self).wf(),
            r@ == (ClientView {
                id: (old(self).client_id_counter + 1) as u64,
                addr: addr@,
                last_packet_time: now,
                player_id: None,
            }),
            final(self)@ == (ServerView {
                clients: old(self)@.clients.push(r@),
                client_id_counter: (old(self).client_id_counter + 1) as u64,
                ..old(self)@
            }),
    {
        let ghost s0 = self@;
        let id = self.generate_client_id();
        let c = Client::new(id, addr, now);
        let r = c.snapshot();
        self.clients.push(c);
        assert(self@.clients =~= s0.clients.push(r@));
        r
    }

    /// Forgets the session with this id; `false` where there is none.
    pub fn remove_client(&mut self, client_id: u64) -> (r: bool)
        requires
            old(self).wf(),
        ensures
            final(self).wf(),
            r == id_known(old(self)@.clients, client_id),
            final(self)@ == if r {
                ServerView {
                    clients: old(self)@.clients.remove(id_index(old(self)@.clients, client_id)),
                    ..old(self)@
                }
            } else {
                old(self)@
            },
    {
        match self.find_by_id(client_id) {
            Some(i) => {
                let ghost s0 = self@;
                proof {
                    let j = id_index(s0.clients, client_id);
                    assert(id_known(s0.clients, client_id));
                    assert(s0.clients[j].id == s0.clients[i as int].id);
                }
                self.clients.remove(i);
                assert(self@.clients =~= s0.clients.remove(i as int));
                assert forall|a: int, b: int| 0 <= a < b < self@.clients.len() implies
                    #[trigger] self@.clients[a].id < #[trigger] self@.clients[b].id by {
                    let a0 = if a < i { a } else { a + 1 };
                    let b0 = if b < i { b } else { b + 1 };
                    assert(s0.clients[a0].id < s0.clients[b0].id);
                }
                assert forall|a: int, b: int|
                    0 <= a < self@.clients.len() && 0 <= b < self@.clients.len() && a != b implies
                    #[trigger] self@.clients[a].addr != #[trigger] self@.clients[b].addr by {
                    let a0 = if a < i { a } else { a + 1 };
                    let b0 = if b < i { b } else { b + 1 };
                    assert(s0.clients[a0].addr != s0.clients[b0].addr);
                }
                true
            },
            None => false,
        }
    }

    /// Records that the session with this id was heard from at `now`;
    /// `false` where there is no such session.
    pub fn reset_client_timeout(&mut self, client_id: u64, now: u64) -> (r: bool)
        requires
            old(self).wf(),
        ensures
            final(self).wf(),
            r == id_known(old(self)@.clients, client_id),
            final(self)@ == if r {
                let i = id_index(old(self)@.clients, client_id);
                ServerView {
                    clients: old(self)@.clients.update(
                        i,
                        ClientView { last_packet_time: now, ..old(self)@.clients[i] },
                    ),
                    ..old(self)@
                }
            } else {
                old(self)@
            },
    {
        match self.find_by_id(client_id) {
            Some(i) => {
                let ghost s0 = self@;
                proof {
                    let j = id_index(s0.clients, client_id);
                    assert(id_known(s0.clients, client_id));
                    assert(s0.clients[j].id == s0.clients[i as int].id);
                }
                self.clients[i].last_packet_time = now;
                assert(self@.clients =~= s0.clients.update(
                    i as int,
                    ClientView { last_packet_time: now, ..s0.clients[i as int] },
                ));
                true
            },
            None => false,
        }
    }

    /// Evicts every session that has been silent for longer than the timeout
    /// at `now`, and returns their ids, in order, so that each one's player
    /// can be logged out.
    pub fn check_clients_for_timeout(&mut self, now: u64) -> (r: Vec<u64>)
        requires
            old(self).wf(),
        ensures
            final(self).wf(),
            final(self)@ == (ServerView {
                clients: kept(old(self)@.clients, now, old(self).timeout_duration_ms),
                ..old(self)@
            }),
            r@ == evicted_ids(old(self)@.clients, now, old(self).timeout_duration_ms),
    {
        let ghost s0 = self@;
        let t = self.timeout_duration_ms;
        let mut old_clients: Vec<Client> = Vec::new();
        std::mem::swap(&mut old_clients, &mut self.clients);
        assert(old_clients@.map_values(|c: Client| c@) =~= s0.clients);
        let mut evicted: Vec<u64> = Vec::new();
        let n = old_clients.len();
        let mut i: usize = 0;
        assert(s0.clients.subrange(0, 0) =~= Seq::<ClientView>::empty());
        while i < n
            invariant
                0 <= i <= n,
                n == old_clients.len(),
                s0.clients.len() == n,
                forall|j: int| 0 <= j < n ==> #[trigger] old_clients@[j]@ == s0.clients[j],
                server_wf(s0),
                self.client_id_counter == s0.client_id_counter,
                self.timeout_duration_ms == t,
                t == s0.timeout_duration_ms,
                self@.clients == kept(s0.clients.subrange(0, i as int), now, t),
                evicted@ == evicted_ids(s0.clients.subrange(0, i as int), now, t),
                forall|a: int| 0 <= a < self@.clients.len() ==> 0 < #[trigger] self@.clients[a].id <= s0.client_id_counter,
                forall|a: int, b: int|
                    0 <= a < b < self@.clients.len() ==> #[trigger] self@.clients[a].id < #[trigger] self@.clients[b].id,
                forall|a: int, b: int|
                    0 <= a < self@.clients.len() && 0 <= b < self@.clients.len() && a != b
                        ==> #[trigger] self@.clients[a].addr != #[trigger] self@.clients[b].addr,
                forall|a: int, k: int| 0 <= a < self@.clients.len() && i <= k < n ==>
                    #[trigger] self@.clients[a].id < #[trigger] s0.clients[k].id,
                forall|a: int, k: int| 0 <= a < self@.clients.len() && i <= k < n ==>
                    #[trigger] self@.clients[a].addr != #[trigger] s0.clients[k].addr,
            decreases n - i,
        {
            let ghost before = self@.clients;
            assert(s0.clients.subrange(0, i + 1).drop_last() =~= s0.clients.subrange(0, i as int));
            assert(s0.clients.subrange(0, i + 1).last() == s0.clients[i as int]);
            assert(old_clients@[i as int]@ == s0.clients[i as int]);
            let c = &old_clients[i];
            let stale = now > c.last_packet_time && now - c.last_packet_time > t;
            if stale {
                evicted.push(c.id);
            } else {
                let copy = c.snapshot();
                self.clients.push(copy);
                assert(self@.clients =~= before.push(s0.clients[i as int]));
            }
            i = i + 1;
        }
        assert(s0.clients.subrange(0, n as int) =~= s0.clients);
        evicted
    }

    /// The address of the session with this id, where a reply to it goes.
    pub fn client_address(&self, client_id: u64) -> (r: Option<String>)
        requires
            self.wf(),
        ensures
            match r {
                Some(a) => id_known(self@.clients, client_id)
                    && a@ == self@.clients[id_index(self@.clients, client_id)].addr,
                None => !id_known(self@.clients, client_id),
            },
    {
        match self.find_by_id(client_id) {
            Some(i) => {
                proof {
                    let j = id_index(self@.clients, client_id);
                    assert(id_known(self@.clients, client_id));
                    assert(self@.clients[j].id == self@.clients[i as int].id);
                }
                Some(self.clients[i].addr.clone())
            },
            None => None,
        }
    }

    /// The addresses of all sessions, in order, where a broadcast goes.
    pub fn broadcast_addresses(&self) -> (r: Vec<String>)
        ensures
            r@.len() == self@.clients.len(),
            forall|i: int| 0 <= i < r@.len() ==> #[trigger] r@[i]@ == self@.clients[i].addr,
    {
        let mut r: Vec<String> = Vec::new();
        let mut i: usize = 0;
        while i < self.clients.len()
            invariant
                0 <= i <= self.clients.len(),
                r@.len() == i,
                forall|j: int| 0 <= j < i ==> #[trigger] r@[j]@ == self@.clients[j].addr,
            decreases self.clients.len() - i,
        {
            r.push(self.clients[i].addr.clone());
            i = i + 1;
        }
        r
    }
    /// Records, for every session, the player that the world has bound it
    /// to according to `bindings`, or none.
    pub fn record_bindings(&mut self, bindings: &Vec<(u64, u64)>)
        requires
            old(self).wf(),
        ensures
            final(self).wf(),
            final(self)@.clients.len() == old(self)@.clients.len(),
            final(self)@.client_id_counter == old(self)@.client_id_counter,
            final(self)@.timeout_duration_ms == old(self)@.timeout_duration_ms,
            forall|i: int| 0 <= i < old(self)@.clients.len() ==> #[trigger] final(self)@.clients[i] == (ClientView {
                player_id: bound_player(bindings@, old(self)@.clients[i].id),
                ..old(self)@.clients[i]
            }),
    {
        let ghost s0 = self@;
        let n = self.clients.len();
        let mut i: usize = 0;
        while i < n
            invariant
                0 <= i <= n,
                n == self.clients.len(),
                s0.clients.len() == n,
                self.client_id_counter == s0.client_id_counter,
                self.timeout_duration_ms == s0.timeout_duration_ms,
                forall|j: int| 0 <= j < i ==> #[trigger] self@.clients[j] == (ClientView {
                    player_id: bound_player(bindings@, s0.clients[j].id),
                    ..s0.clients[j]
                }),
                forall|j: int| i <= j < n ==> #[trigger] self@.clients[j] == s0.clients[j],
            decreases n - i,
        {
            let p = find_binding(bindings, self.clients[i].id);
            assert(self@.clients[i as int] == s0.clients[i as int]);
            let ghost before = self@.clients;
            self.clients[i].player_id = p;
            assert(self@.clients =~= before.update(
                i as int,
                ClientView { player_id: bound_player(bindings@, s0.clients[i as int].id), ..s0.clients[i as int] },
            ));
            i = i + 1;
        }
        assert forall|a: int| 0 <= a < n implies #[trigger] self@.clients[a].id == s0.clients[a].id
            && self@.clients[a].addr == s0.clients[a].addr by {
            assert(self@.clients[a] == (ClientView { player_id: bound_player(bindings@, s0.clients[a].id), ..s0.clients[a] }));
        }
    }
}

} // verus!
