//! The decisions of the network loop: which datagrams to accept, which
//! session each belongs to, and whether it asks for a snapshot or carries a
//! command for the world. The loop itself, with its socket and channels,
//! belongs to the caller.

use vstd::prelude::*;
use crate::game::PlayerCommand;
use crate::json::same_text;
use crate::network::{addr_index, addr_known, ClientView, Server, ServerView};
use crate::packet::{command_of, envelope_of, PlayerCommandPacket};
use crate::packets;

verus! {

/// The size of the receive buffer: a longer datagram is dropped.
pub const MAX_DATAGRAM_LEN: usize = 4096;

/// What the network loop does with a datagram.
pub enum NetworkAction {
    /// Nothing: the datagram is dropped.
    Ignore,
    /// Reply to this session with the latest snapshot.
    SendState(u64),
    /// Hand this command to the world.
    Forward(PlayerCommand),
}

pub enum ActionView {
    Ignore,
    SendState(u64),
    Forward(u64, Seq<char>, Seq<char>),
}

pub open spec fn action_view(a: NetworkAction) -> ActionView {
    match a {
        NetworkAction::Ignore => ActionView::Ignore,
        NetworkAction::SendState(id) => ActionView::SendState(id),
        NetworkAction::Forward(c) => ActionView::Forward(c.client_id, c.command_type@, c.command_data@),
    }
}

/// The envelope of a datagram of `len` bytes with text `text` from `addr`,
/// as (kind, address, payload); `None` for a datagram that is too long or
/// holds no envelope.
pub open spec fn accept_spec(addr: Seq<char>, len: nat, text: Seq<char>) -> Option<(Seq<char>, Seq<char>, Seq<char>)> {
    if len > MAX_DATAGRAM_LEN {
        None
    } else {
        match envelope_of(text) {
            Some((kind, data)) => Some((kind, addr, data)),
            None => None,
        }
    }
}

/// The registry after hearing from `addr` at `now`: its session is
/// refreshed, or a new session is registered for it.
pub open spec fn touch_spec(s: ServerView, addr: Seq<char>, now: u64) -> ServerView {
    if addr_known(s.clients, addr) {
        let i = addr_index(s.clients, addr);
        ServerView { clients: s.clients.update(i, ClientView { last_packet_time: now, ..s.clients[i] }), ..s }
    } else {
        ServerView {
            clients: s.clients.push(ClientView {
                id: (s.client_id_counter + 1) as u64,
                addr,
                last_packet_time: now,
                player_id: None,
            }),
            client_id_counter: (s.client_id_counter + 1) as u64,
            ..s
        }
    }
}

/// The id of the session that speaks from `addr`.
pub open spec fn session_of(s: ServerView, addr: Seq<char>) -> u64 {
    s.clients[addr_index(s.clients, addr)].id
}

/// An accepted envelope of the given kind from `addr`: the registry after
/// it, and the action. A new address when every session id is taken is
/// dropped.
pub open spec fn route_spec(s: ServerView, kind: Seq<char>, addr: Seq<char>, data: Seq<char>, now: u64) -> (ServerView, ActionView) {
    if !addr_known(s.clients, addr) && s.client_id_counter == u64::MAX {
        (s, ActionView::Ignore)
    } else {
        let s1 = touch_spec(s, addr, now);
        let id = session_of(s1, addr);
        if kind == "state"@ {
            (s1, ActionView::SendState(id))
        } else if kind == "command"@ {
            match command_of(data) {
                Some((k, d)) => (s1, ActionView::Forward(id, k, d)),
                None => (s1, ActionView::Ignore),
            }
        } else {
            (s1, ActionView::Ignore)
        }
    }
}

/// Reads the envelope of a datagram of `datagram_len` bytes from `addr`.
pub fn accept_datagram(addr: &str, datagram_len: usize, text: &str) -> (r: Option<packets::BasePacket>)
    ensures
        match r {
            Some(p) => accept_spec(addr@, datagram_len as nat, text@) == Some(p.view_triple()),
            None => accept_spec(addr@, datagram_len as nat, text@) is None,
        },
{
    if datagram_len > MAX_DATAGRAM_LEN {
        return None;
    }
    match crate::packet::BasePacket::from_string(text) {
        Some(e) => Some(packets::BasePacket::new(e.packet_type, addr.to_owned(), e.packet_data)),
        None => None,
    }
}

/// Finds or registers the session of `addr` and records that it was heard
/// from at `now`; returns its id, or `None` for a new address when every
/// session id is taken.
pub fn touch_session(server: &mut Server, addr: &str, now: u64) -> (r: Option<u64>)
    requires
        old(server).wf(),
    ensures
        final(server).wf(),
        if !addr_known(old(server)@.clients, addr@) && old(server)@.client_id_counter == u64::MAX {
            r is None && final(server)@ == old(server)@
        } else {
            final(server)@ == touch_spec(old(server)@, addr@, now)
                && r == Some(session_of(final(server)@, addr@))
                && addr_known(final(server)@.clients, addr@)
        },
{
    let ghost s0 = server@;
    match server.check_for_addr(addr) {
        Some(c) => {
            let ghost i = addr_index(s0.clients, addr@);
            proof {
                assert(s0.clients[i].id == c.id);
                assert(crate::network::id_known(s0.clients, c.id));
                let j = crate::network::id_index(s0.clients, c.id);
                assert(s0.clients[j].id == s0.clients[i].id);
                assert(j == i);
            }
            server.reset_client_timeout(c.id, now);
            proof {
                let s1 = server@;
                assert(s1.clients[i].addr == addr@);
                let k = addr_index(s1.clients, addr@);
                assert(s1.clients[k].addr == s1.clients[i].addr);
                assert(k == i);
            }
            Some(c.id)
        },
        None => {
            if server.client_id_counter == u64::MAX {
                return None;
            }
            let c = server.create_client(addr.to_owned(), now);
            let ghost s1 = server@;
            let ghost n = s1.clients.len() - 1;
            proof {
                assert(s1.clients[n].id == c.id);
                assert(crate::network::id_known(s1.clients, c.id));
                let j = crate::network::id_index(s1.clients, c.id);
                assert(s1.clients[j].id == s1.clients[n].id);
                assert(j == n);
            }
            server.reset_client_timeout(c.id, now);
            proof {
                let s2 = server@;
                assert(s2.clients =~= s1.clients);
                assert(s2.clients[n].addr == addr@);
                let k = addr_index(s2.clients, addr@);
                assert(s2.clients[k].addr == s2.clients[n].addr);
                assert(k == n);
            }
            Some(c.id)
        },
    }
}

/// Decides what an accepted envelope asks for: a `state` envelope asks for
/// a snapshot, a `command` envelope carries a command for the world, and
/// anything else is dropped.
pub fn route_packet(server: &mut Server, packet: &packets::BasePacket, now: u64) -> (r: NetworkAction)
    requires
        old(server).wf(),
    ensures
        final(server).wf(),
        (final(server)@, action_view(r)) == route_spec(
            old(server)@,
            packet.packet_type@,
            packet.packet_addr@,
            packet.packet_data@,
            now,
        ),
{
    let id = match touch_session(server, packet.packet_addr.as_str(), now) {
        Some(id) => id,
        None => {
            return NetworkAction::Ignore;
        },
    };
    if same_text(&packet.packet_type, "state") {
        NetworkAction::SendState(id)
    } else if same_text(&packet.packet_type, "command") {
        match PlayerCommandPacket::from_string(packet.packet_data.as_str()) {
            Some(cp) => NetworkAction::Forward(PlayerCommand::new(id, cp.command_type, cp.command_data)),
            None => NetworkAction::Ignore,
        }
    } else {
        NetworkAction::Ignore
    }
}

/// Handles one datagram of `datagram_len` bytes from `addr` heard at `now`:
/// a datagram that is too long or holds no envelope is dropped and changes
/// nothing; any other is routed.
pub fn route_datagram(server: &mut Server, addr: &str, datagram_len: usize, text: &str, now: u64) -> (r: NetworkAction)
    requires
        old(server).wf(),
    ensures
        final(server).wf(),
        match accept_spec(addr@, datagram_len as nat, text@) {
            None => r is Ignore && final(server)@ == old(server)@,
            Some((kind, a, data)) => (final(server)@, action_view(r)) == route_spec(old(server)@, kind, a, data, now),
        },
{
    match accept_datagram(addr, datagram_len, text) {
        Some(p) => route_packet(server, &p, now),
        None => NetworkAction::Ignore,
    }
}

/// How many commands the network loop holds for the world between two
/// snapshots; commands beyond that are refused.
pub const COMMAND_QUEUE_CAPACITY: usize = 256;

/// Commands waiting to be handed to the world, first in first out, never
/// more than the capacity it was made with.
pub struct CommandQueue {
    items: Vec<PlayerCommand>,
    capacity: usize,
}

impl CommandQueue {
    pub closed spec fn items(&self) -> Seq<PlayerCommand> {
        self.items@
    }

    pub closed spec fn capacity(&self) -> nat {
        self.capacity as nat
    }

    pub closed spec fn wf(&self) -> bool {
        self.items@.len() <= self.capacity
    }

    pub fn new(capacity: usize) -> (r: CommandQueue)
        ensures
            r.wf(),
            r.items().len() == 0,
            r.capacity() == capacity,
    {
        CommandQueue { items: Vec::new(), capacity }
    }

    pub fn len(&self) -> (r: usize)
        ensures
            r == self.items().len(),
    {
        self.items.len()
    }

    /// Queues the command unless the queue is full; says whether it did.
    pub fn offer(&mut self, command: PlayerCommand) -> (r: bool)
        requires
            old(self).wf(),
        ensures
            final(self).wf(),
            final(self).capacity() == old(self).capacity(),
            r == (old(self).items().len() < old(self).capacity()),
            final(self).items() == if r { old(self).items().push(command) } else { old(self).items() },
    {
        if self.items.len() < self.capacity {
            self.items.push(command);
            true
        } else {
            false
        }
    }

    /// Takes every queued command out, oldest first.
    pub fn drain(&mut self) -> (r: Vec<PlayerCommand>)
        requires
            old(self).wf(),
        ensures
            final(self).wf(),
            final(self).capacity() == old(self).capacity(),
            final(self).items().len() == 0,
            r@ == old(self).items(),
    {
        let mut r: Vec<PlayerCommand> = Vec::new();
        std::mem::swap(&mut r, &mut self.items);
        r
    }
}

} // verus!
