//! Properties that relate several operations of the world and the registry,
//! stated over their models and proved.

use vstd::prelude::*;
use crate::game::{
    client_bound, client_index, command_spec, game_wf, has_username, login_spec, logout_spec,
    tick_spec, ticks, username_index, GameView, LoginError, PlayerView, Vector2,
};
use crate::network::{addr_index, addr_known, evicted_ids, is_stale, kept, server_wf, ClientView, ServerView};
use crate::orchestrator::{session_of, touch_spec};
use crate::json::member;
use crate::packet::{directional_of, directional_pair, login_of, string_pair, DirectionalPacket};

verus! {

/// The world after the logins `ls`, each (session, username, credential),
/// in order, and the result of each.
pub open spec fn login_all(g: GameView, ls: Seq<(u64, Seq<char>, Seq<char>)>) -> (GameView, Seq<Result<PlayerView, LoginError>>)
    decreases ls.len(),
{
    if ls.len() == 0 {
        (g, Seq::empty())
    } else {
        let (g1, rs) = login_all(g, ls.drop_last());
        let l = ls.last();
        let (g2, r) = login_spec(g1, l.0, l.1, l.2);
        (g2, rs.push(r))
    }
}

pub open spec fn fresh_logins(g: GameView, ls: Seq<(u64, Seq<char>, Seq<char>)>) -> bool {
    &&& g.id_counter + ls.len() <= u64::MAX
    &&& forall|k: int| 0 <= k < ls.len() ==> !has_username(g.players, #[trigger] ls[k].1)
    &&& forall|k: int| 0 <= k < ls.len() ==> !client_bound(g.players, #[trigger] ls[k].0)
    &&& forall|a: int, b: int| 0 <= a < b < ls.len() ==> #[trigger] ls[a].1 != #[trigger] ls[b].1
    &&& forall|a: int, b: int| 0 <= a < b < ls.len() ==> #[trigger] ls[a].0 != #[trigger] ls[b].0
}

proof fn lemma_fresh_logins_state(g: GameView, ls: Seq<(u64, Seq<char>, Seq<char>)>)
    requires
        fresh_logins(g, ls),
    ensures
        ({
            let (g2, rs) = login_all(g, ls);
            &&& g2.id_counter == g.id_counter + ls.len()
            &&& g2.players.len() == g.players.len() + ls.len()
            &&& rs.len() == ls.len()
            &&& forall|i: int| 0 <= i < g.players.len() ==> #[trigger] g2.players[i] == g.players[i]
            &&& forall|k: int| 0 <= k < ls.len() ==> {
                &&& (#[trigger] g2.players[g.players.len() + k]).username == ls[k].1
                &&& g2.players[g.players.len() + k].client_id == Some(ls[k].0)
            }
            &&& forall|k: int| 0 <= k < ls.len() ==> {
                &&& (#[trigger] rs[k]) is Ok
                &&& rs[k]->Ok_0.id == g.id_counter + k + 1
            }
        }),
    decreases ls.len(),
{
    if ls.len() > 0 {
        let pre = ls.drop_last();
        assert(fresh_logins(g, pre)) by {
            assert forall|k: int| 0 <= k < pre.len() implies !has_username(g.players, #[trigger] pre[k].1) by {
                assert(pre[k] == ls[k]);
            }
            assert forall|k: int| 0 <= k < pre.len() implies !client_bound(g.players, #[trigger] pre[k].0) by {
                assert(pre[k] == ls[k]);
            }
            assert forall|a: int, b: int| 0 <= a < b < pre.len() implies #[trigger] pre[a].1 != #[trigger] pre[b].1 by {
                assert(pre[a] == ls[a] && pre[b] == ls[b]);
            }
            assert forall|a: int, b: int| 0 <= a < b < pre.len() implies #[trigger] pre[a].0 != #[trigger] pre[b].0 by {
                assert(pre[a] == ls[a] && pre[b] == ls[b]);
            }
        }
        lemma_fresh_logins_state(g, pre);
        let (g1, rs1) = login_all(g, pre);
        let n = ls.len() - 1;
        let l = ls.last();
        assert(l == ls[n]);
        let base = g.players.len();
        assert(!client_bound(g1.players, l.0)) by {
            if client_bound(g1.players, l.0) {
                let i = choose|i: int| 0 <= i < g1.players.len() && #[trigger] g1.players[i].client_id == Some(l.0);
                if i < base {
                    assert(g1.players[i] == g.players[i]);
                    assert(client_bound(g.players, ls[n].0));
                } else {
                    let k = i - base;
                    assert(g1.players[base + k].client_id == Some(pre[k].0));
                    assert(pre[k] == ls[k]);
                }
            }
        }
        assert(!has_username(g1.players, l.1)) by {
            if has_username(g1.players, l.1) {
                let i = choose|i: int| 0 <= i < g1.players.len() && #[trigger] g1.players[i].username == l.1;
                if i < base {
                    assert(g1.players[i] == g.players[i]);
                    assert(has_username(g.players, ls[n].1));
                } else {
                    let k = i - base;
                    assert(g1.players[base + k].username == pre[k].1);
                    assert(pre[k] == ls[k]);
                }
            }
        }
        let (g2, rs) = login_all(g, ls);
        assert forall|k: int| 0 <= k < ls.len() implies {
            &&& (#[trigger] g2.players[g.players.len() + k]).username == ls[k].1
            &&& g2.players[g.players.len() + k].client_id == Some(ls[k].0)
        } by {
            if k < n {
                assert(pre[k] == ls[k]);
                assert(g2.players[base + k] == g1.players[base + k]);
            }
        }
        assert forall|k: int| 0 <= k < ls.len() implies {
            &&& (#[trigger] rs[k]) is Ok
            &&& rs[k]->Ok_0.id == g.id_counter + k + 1
        } by {
            if k < n {
                assert(rs[k] == rs1[k]);
            }
        }
    }
}

/// Logins of distinct sessions, none of them bound, with distinct usernames
/// that no player has yet, each create a new player; the ids they get count
/// up from the world's counter, so each is above every id given before and
/// above the one before it.
pub proof fn lemma_fresh_logins_get_increasing_ids(g: GameView, ls: Seq<(u64, Seq<char>, Seq<char>)>)
    requires
        game_wf(g),
        fresh_logins(g, ls),
    ensures
        login_all(g, ls).1.len() == ls.len(),
        forall|k: int| 0 <= k < ls.len() ==> {
            &&& (#[trigger] login_all(g, ls).1[k]) is Ok
            &&& login_all(g, ls).1[k]->Ok_0.id == g.id_counter + k + 1
        },
        forall|a: int, b: int| 0 <= a < b < ls.len() ==>
            (#[trigger] login_all(g, ls).1[a])->Ok_0.id < (#[trigger] login_all(g, ls).1[b])->Ok_0.id,
        forall|i: int, k: int| 0 <= i < g.players.len() && 0 <= k < ls.len() ==>
            (#[trigger] g.players[i]).id < (#[trigger] login_all(g, ls).1[k])->Ok_0.id,
{
    lemma_fresh_logins_state(g, ls);
}

/// A login with the username and credential of an offline player binds the
/// session to that player: the same id, position, velocity and stats, and
/// no new player.
pub proof fn lemma_login_reattaches_offline_player(g: GameView, i: int, c: u64)
    requires
        game_wf(g),
        0 <= i < g.players.len(),
        g.players[i].client_id is None,
        !client_bound(g.players, c),
    ensures
        ({
            let (g2, r) = login_spec(g, c, g.players[i].username, g.players[i].password);
            &&& r is Ok
            &&& r->Ok_0.id == g.players[i].id
            &&& r->Ok_0.position == g.players[i].position
            &&& r->Ok_0.direction == g.players[i].direction
            &&& r->Ok_0.stats == g.players[i].stats
            &&& r->Ok_0.client_id == Some(c)
            &&& g2.id_counter == g.id_counter
            &&& g2.players.len() == g.players.len()
            &&& g2.players[i] == r->Ok_0
        }),
{
    let u = g.players[i].username;
    assert(has_username(g.players, u));
    let j = username_index(g.players, u);
    assert(g.players[j].username == g.players[i].username);
    assert(j == i);
}

/// A player at rest stays where it is, however many steps pass.
pub proof fn lemma_player_at_rest_stays(g: GameView, i: int, n: nat)
    requires
        0 <= i < g.players.len(),
        g.players[i].direction == (Vector2 { x: 0, y: 0 }),
    ensures
        ticks(g, n).players.len() == g.players.len(),
        ticks(g, n).players[i].position == g.players[i].position,
        ticks(g, n).players[i].direction == g.players[i].direction,
    decreases n,
{
    if n > 0 {
        lemma_player_at_rest_stays(g, i, (n - 1) as nat);
        let p = ticks(g, (n - 1) as nat).players[i];
        assert(p.direction.x * p.stats.speed == 0);
        assert(p.direction.y * p.stats.speed == 0);
    }
}

/// One step moves a player by exactly its velocity times its speed, while
/// the result stays on the grid, whatever the other players do.
pub proof fn lemma_step_moves_by_velocity_times_speed(g: GameView, i: int)
    requires
        0 <= i < g.players.len(),
        i64::MIN <= g.players[i].position.x + g.players[i].direction.x * g.players[i].stats.speed <= i64::MAX,
        i64::MIN <= g.players[i].position.y + g.players[i].direction.y * g.players[i].stats.speed <= i64::MAX,
    ensures
        tick_spec(g).players.len() == g.players.len(),
        tick_spec(g).players[i].position.x == g.players[i].position.x + g.players[i].direction.x * g.players[i].stats.speed,
        tick_spec(g).players[i].position.y == g.players[i].position.y + g.players[i].direction.y * g.players[i].stats.speed,
{
}

proof fn lemma_stale_addr_not_kept(cs: Seq<ClientView>, now: u64, t: u64, a: Seq<char>)
    requires
        forall|k: int| 0 <= k < cs.len() && #[trigger] cs[k].addr == a ==> is_stale(cs[k], now, t),
    ensures
        !addr_known(kept(cs, now, t), a),
    decreases cs.len(),
{
    if cs.len() > 0 {
        let pre = cs.drop_last();
        assert forall|k: int| 0 <= k < pre.len() && #[trigger] pre[k].addr == a implies is_stale(pre[k], now, t) by {
            assert(pre[k] == cs[k]);
        }
        lemma_stale_addr_not_kept(pre, now, t, a);
        let rest = kept(pre, now, t);
        if !is_stale(cs.last(), now, t) {
            assert(cs.last() == cs[cs.len() - 1]);
            assert forall|k: int| 0 <= k < rest.len() + 1 implies #[trigger] rest.push(cs.last())[k].addr != a by {
                if k < rest.len() {
                    assert(rest.push(cs.last())[k] == rest[k]);
                }
            }
        }
    }
}

proof fn lemma_stale_id_evicted(cs: Seq<ClientView>, now: u64, t: u64, i: int)
    requires
        0 <= i < cs.len(),
        is_stale(cs[i], now, t),
    ensures
        evicted_ids(cs, now, t).contains(cs[i].id),
    decreases cs.len(),
{
    let pre = cs.drop_last();
    if i == cs.len() - 1 {
        assert(evicted_ids(cs, now, t) == evicted_ids(pre, now, t).push(cs[i].id));
        assert(evicted_ids(cs, now, t)[evicted_ids(pre, now, t).len() as int] == cs[i].id);
    } else {
        assert(pre[i] == cs[i]);
        lemma_stale_id_evicted(pre, now, t, i);
        let e = evicted_ids(pre, now, t);
        let w = choose|w: int| 0 <= w < e.len() && e[w] == cs[i].id;
        if is_stale(cs.last(), now, t) {
            assert(e.push(cs.last().id)[w] == cs[i].id);
        }
    }
}

/// A session silent for longer than the timeout is evicted and its id
/// reported; once that session is logged out of the world, no player is
/// bound to it and every player is kept; and the next datagram from its
/// address registers a new session with a new id.
pub proof fn lemma_stale_session_evicted(s: ServerView, g: GameView, i: int, now: u64, later: u64)
    requires
        server_wf(s),
        game_wf(g),
        0 <= i < s.clients.len(),
        is_stale(s.clients[i], now, s.timeout_duration_ms),
    ensures
        evicted_ids(s.clients, now, s.timeout_duration_ms).contains(s.clients[i].id),
        !addr_known(kept(s.clients, now, s.timeout_duration_ms), s.clients[i].addr),
        logout_spec(g, s.clients[i].id).players.len() == g.players.len(),
        !client_bound(logout_spec(g, s.clients[i].id).players, s.clients[i].id),
        s.client_id_counter < u64::MAX ==> {
            let s2 = ServerView { clients: kept(s.clients, now, s.timeout_duration_ms), ..s };
            let id = session_of(touch_spec(s2, s.clients[i].addr, later), s.clients[i].addr);
            id == s.client_id_counter + 1 && id != s.clients[i].id
        },
{
    let t = s.timeout_duration_ms;
    let a = s.clients[i].addr;
    let c = s.clients[i].id;
    lemma_stale_id_evicted(s.clients, now, t, i);
    assert forall|k: int| 0 <= k < s.clients.len() && #[trigger] s.clients[k].addr == a implies is_stale(s.clients[k], now, t) by {
        if k != i {
            assert(s.clients[k].addr != s.clients[i].addr);
        }
    }
    lemma_stale_addr_not_kept(s.clients, now, t, a);
    let g2 = logout_spec(g, c);
    if client_bound(g.players, c) {
        let j = client_index(g.players, c);
        assert forall|k: int| 0 <= k < g2.players.len() implies #[trigger] g2.players[k].client_id != Some(c) by {
            if k != j {
                assert(g.players[j].client_id is Some);
                assert(g.players[j].client_id != g.players[k].client_id);
            }
        }
    }
    if s.client_id_counter < u64::MAX {
        let s2 = ServerView { clients: kept(s.clients, now, t), ..s };
        let s3 = touch_spec(s2, a, later);
        let n = s2.clients.len() as int;
        assert(s3.clients[n].addr == a);
        let k = addr_index(s3.clients, a);
        assert(addr_known(s3.clients, a));
        if k != n {
            assert(s3.clients[k] == s2.clients[k]);
            assert(addr_known(s2.clients, a));
        }
    }
}

/// A login or directional command whose payload cannot be read, or a
/// command of a kind the world does not know, leaves the world as it was.
pub proof fn lemma_malformed_command_changes_nothing(g: GameView, c: u64, kind: Seq<char>, data: Seq<char>)
    requires
        (kind == "login"@ && login_of(data) is None)
            || (kind == "directional"@ && directional_of(data) is None)
            || (kind != "login"@ && kind != "logout"@ && kind != "directional"@),
    ensures
        command_spec(g, c, kind, data).0 == g,
{
    reveal_strlit("login");
    reveal_strlit("logout");
    reveal_strlit("directional");
    if kind == "directional"@ {
        assert(kind.len() != "login"@.len());
        assert(kind.len() != "logout"@.len());
    }
}

/// Reading back an object of two string members, in either order, gives
/// the two values that were written under two distinct names: the part of
/// every two-member codec of the protocol that follows the JSON reader.
pub proof fn lemma_two_members_read_back(k1: Seq<char>, v1: Seq<char>, k2: Seq<char>, v2: Seq<char>)
    requires
        k1 != k2,
    ensures
        string_pair(seq![(k1, Some(v1)), (k2, Some(v2))], k1, k2) == Some((v1, v2)),
        string_pair(seq![(k2, Some(v2)), (k1, Some(v1))], k1, k2) == Some((v1, v2)),
{
    let a = seq![(k1, Some(v1)), (k2, Some(v2))];
    let b = seq![(k2, Some(v2)), (k1, Some(v1))];
    assert(a.drop_first() =~= seq![(k2, Some(v2))]);
    assert(b.drop_first() =~= seq![(k1, Some(v1))]);
    assert(member(seq![(k2, Some(v2))], k2) == Some(Some(v2)));
    assert(member(seq![(k1, Some(v1))], k1) == Some(Some(v1)));
    assert(member(a, k1) == Some(Some(v1)));
    assert(member(a, k2) == Some(Some(v2)));
    assert(member(b, k1) == Some(Some(v1)));
    assert(member(b, k2) == Some(Some(v2)));
}

/// Reading back the members `x` and `y` of a directional payload, in key
/// order, gives the payload that was written.
pub proof fn lemma_directional_members_read_back(d: DirectionalPacket)
    ensures
        directional_pair(seq![("x"@, d.x), ("y"@, d.y)]) == Some(d),
{
    reveal_strlit("x");
    reveal_strlit("y");
    let a = seq![("x"@, d.x), ("y"@, d.y)];
    assert("x"@ != "y"@) by {
        assert("x"@[0] != "y"@[0]);
    }
    assert(a.drop_first() =~= seq![("y"@, d.y)]);
    assert(member(seq![("y"@, d.y)], "y"@) == Some(d.y));
    assert(member(a, "x"@) == Some(d.x));
    assert(member(a, "y"@) == Some(d.y));
}

} // verus!
