//! The world engine: the authoritative set of players, the commands that
//! change it, and the simulation step that moves every player.

use vstd::prelude::*;
use vstd::string::*;
use crate::json::same_text;
use crate::packet::{directional_of, login_of, DirectionalPacket, LoginCommand};

verus! {

/// A point or a velocity on the integer grid of the world.
#[derive(Clone, Copy, Debug, PartialEq, Eq, Structural)]
pub struct Vector2 {
    pub x: i64,
    pub y: i64,
}

impl Vector2 {
    /// The origin, and the velocity of a player at rest.
    pub fn new() -> (r: Vector2)
        ensures
            r == (Vector2 { x: 0, y: 0 }),
    {
        Vector2 { x: 0, y: 0 }
    }
}

#[derive(Clone, Copy, Debug, PartialEq, Eq, Structural)]
pub struct PlayerStats {
    pub health: i32,
    pub speed: i64,
}

pub const DEFAULT_HEALTH: i32 = 10;

pub const DEFAULT_SPEED: i64 = 1;

/// Why a login was refused.
#[derive(Clone, Copy, Debug, PartialEq, Eq, Structural)]
pub enum LoginError {
    /// The session is already bound to a player.
    DuplicateLogin,
    /// The username exists and the credential does not match it.
    CredentialMismatch,
    /// Every player id has been handed out.
    IdsExhausted,
    /// The payload is not a login payload.
    MalformedPayload,
}

/// What applying one command did.
#[derive(Clone, Copy, Debug, PartialEq, Eq, Structural)]
pub enum CommandOutcome {
    /// The session is now bound to the player with this id.
    LoggedIn(u64),
    LoginRejected(LoginError),
    /// The player with this id was unbound from the session.
    LoggedOut(u64),
    DirectionSet,
    /// The command needs a bound player and the session has none.
    NotLoggedIn,
    /// The payload could not be read.
    Malformed,
    /// The command kind is not one the world knows.
    Unknown,
}

pub struct Player {
    pub id: u64,
    pub client_id: Option<u64>,
    pub username: String,
    pub password: String,
    pub position: Vector2,
    pub direction: Vector2,
    pub stats: PlayerStats,
    pub active: bool,
}

pub struct PlayerView {
    pub id: u64,
    pub client_id: Option<u64>,
    pub username: Seq<char>,
    pub password: Seq<char>,
    pub position: Vector2,
    pub direction: Vector2,
    pub stats: PlayerStats,
    pub active: bool,
}

impl View for Player {
    type V = PlayerView;

    open spec fn view(&self) -> PlayerView {
        PlayerView {
            id: self.id,
            client_id: self.client_id,
            username: self.username@,
            password: self.password@,
            position: self.position,
            direction: self.direction,
            stats: self.stats,
            active: self.active,
        }
    }
}

/// A player as first created: at the origin, at rest, with default stats,
/// bound to no session.
pub open spec fn fresh_player(id: u64, username: Seq<char>, password: Seq<char>) -> PlayerView {
    PlayerView {
        id,
        client_id: None,
        username,
        password,
        position: Vector2 { x: 0, y: 0 },
        direction: Vector2 { x: 0, y: 0 },
        stats: PlayerStats { health: DEFAULT_HEALTH, speed: DEFAULT_SPEED },
        active: false,
    }
}

pub open spec fn bind(p: PlayerView, c: u64) -> PlayerView {
    PlayerView { client_id: Some(c), active: true, ..p }
}

pub open spec fn unbind(p: PlayerView) -> PlayerView {
    PlayerView { client_id: None, active: false, ..p }
}

impl Player {
    pub fn new(id: u64, username: String, password: String) -> (r: Player)
        ensures
            r@ == fresh_player(id, username@, password@),
    {
        Player {
            id,
            client_id: None,
            username,
            password,
            position: Vector2::new(),
            direction: Vector2::new(),
            stats: PlayerStats { health: DEFAULT_HEALTH, speed: DEFAULT_SPEED },
            active: false,
        }
    }

    /// A copy of the player, to hand out of the world.
    pub fn snapshot(&self) -> (r: Player)
        ensures
            r@ == self@,
    {
        Player {
            id: self.id,
            client_id: self.client_id,
            username: self.username.clone(),
            password: self.password.clone(),
            position: self.position,
            direction: self.direction,
            stats: self.stats,
            active: self.active,
        }
    }
}

/// `v` held within the range of an `i64`.
pub open spec fn clamp(v: int) -> i64 {
    if v > i64::MAX {
        i64::MAX
    } else if v < i64::MIN {
        i64::MIN
    } else {
        v as i64
    }
}

/// One coordinate after one step: moved by velocity times speed, held at the
/// edge of the grid.
pub open spec fn step_axis(p: i64, d: i64, s: i64) -> i64 {
    clamp(p + d * s)
}

/// A player after one simulation step.
pub open spec fn moved(p: PlayerView) -> PlayerView {
    PlayerView {
        position: Vector2 {
            x: step_axis(p.position.x, p.direction.x, p.stats.speed),
            y: step_axis(p.position.y, p.direction.y, p.stats.speed),
        },
        ..p
    }
}

pub struct GameView {
    pub id_counter: u64,
    pub players: Seq<PlayerView>,
}

/// The world's invariant: ids are handed out in increasing order and never
/// above the counter, usernames are unique, a session is bound to at most
/// one player, and a player is online exactly when it is bound.
pub open spec fn game_wf(g: GameView) -> bool {
    &&& forall|i: int| 0 <= i < g.players.len() ==> 0 < #[trigger] g.players[i].id <= g.id_counter
    &&& forall|i: int, j: int|
        0 <= i < j < g.players.len() ==> #[trigger] g.players[i].id < #[trigger] g.players[j].id
    &&& forall|i: int, j: int|
        0 <= i < g.players.len() && 0 <= j < g.players.len() && i != j
            ==> #[trigger] g.players[i].username != #[trigger] g.players[j].username
    &&& forall|i: int, j: int|
        0 <= i < g.players.len() && 0 <= j < g.players.len() && i != j
            && #[trigger] g.players[i].client_id is Some
            ==> g.players[i].client_id != #[trigger] g.players[j].client_id
    &&& forall|i: int| 0 <= i < g.players.len() ==> #[trigger] g.players[i].active == g.players[i].client_id is Some
}

pub open spec fn tick_spec(g: GameView) -> GameView {
    GameView { players: g.players.map_values(|p: PlayerView| moved(p)), ..g }
}

/// The world after `n` simulation steps.
pub open spec fn ticks(g: GameView, n: nat) -> GameView
    decreases n,
{
    if n == 0 {
        g
    } else {
        tick_spec(ticks(g, (n - 1) as nat))
    }
}

pub open spec fn has_username(ps: Seq<PlayerView>, u: Seq<char>) -> bool {
    exists|i: int| 0 <= i < ps.len() && #[trigger] ps[i].username == u
}

pub open spec fn username_index(ps: Seq<PlayerView>, u: Seq<char>) -> int {
    choose|i: int| 0 <= i < ps.len() && #[trigger] ps[i].username == u
}

pub open spec fn client_bound(ps: Seq<PlayerView>, c: u64) -> bool {
    exists|i: int| 0 <= i < ps.len() && #[trigger] ps[i].client_id == Some(c)
}

pub open spec fn client_index(ps: Seq<PlayerView>, c: u64) -> int {
    choose|i: int| 0 <= i < ps.len() && #[trigger] ps[i].client_id == Some(c)
}

/// Login of session `c` as `u` with credential `pw`: the world after it and
/// the player it bound, or why it was refused.
pub open spec fn login_spec(g: GameView, c: u64, u: Seq<char>, pw: Seq<char>) -> (GameView, Result<PlayerView, LoginError>) {
    if client_bound(g.players, c) {
        (g, Err(LoginError::DuplicateLogin))
    } else if has_username(g.players, u) {
        let i = username_index(g.players, u);
        if g.players[i].password != pw {
            (g, Err(LoginError::CredentialMismatch))
        } else {
            let p = bind(g.players[i], c);
            (GameView { players: g.players.update(i, p), ..g }, Ok(p))
        }
    } else if g.id_counter == u64::MAX {
        (g, Err(LoginError::IdsExhausted))
    } else {
        let p = bind(fresh_player((g.id_counter + 1) as u64, u, pw), c);
        (GameView { id_counter: (g.id_counter + 1) as u64, players: g.players.push(p) }, Ok(p))
    }
}

/// Logout of session `c`: its player, if any, is kept but unbound.
pub open spec fn logout_spec(g: GameView, c: u64) -> GameView {
    if client_bound(g.players, c) {
        let i = client_index(g.players, c);
        GameView { players: g.players.update(i, unbind(g.players[i])), ..g }
    } else {
        g
    }
}

/// The velocity of the player bound to session `c`, if any, set to `d`.
pub open spec fn directional_spec(g: GameView, c: u64, d: Vector2) -> GameView {
    if client_bound(g.players, c) {
        let i = client_index(g.players, c);
        GameView { players: g.players.update(i, PlayerView { direction: d, ..g.players[i] }), ..g }
    } else {
        g
    }
}

/// A login command of session `c` with payload `data`.
pub open spec fn login_command_spec(g: GameView, c: u64, data: Seq<char>) -> (GameView, CommandOutcome) {
    match login_of(data) {
        None => (g, CommandOutcome::Malformed),
        Some((u, pw)) => {
            let (g2, r) = login_spec(g, c, u, pw);
            match r {
                Ok(p) => (g2, CommandOutcome::LoggedIn(p.id)),
                Err(e) => (g2, CommandOutcome::LoginRejected(e)),
            }
        },
    }
}

/// A logout command of session `c`.
pub open spec fn logout_command_spec(g: GameView, c: u64) -> (GameView, CommandOutcome) {
    if client_bound(g.players, c) {
        (logout_spec(g, c), CommandOutcome::LoggedOut(g.players[client_index(g.players, c)].id))
    } else {
        (g, CommandOutcome::NotLoggedIn)
    }
}

/// A directional command of session `c` with payload `data`.
pub open spec fn directional_command_spec(g: GameView, c: u64, data: Seq<char>) -> (GameView, CommandOutcome) {
    match directional_of(data) {
        None => (g, CommandOutcome::Malformed),
        Some(d) => if client_bound(g.players, c) {
            (directional_spec(g, c, Vector2 { x: d.x, y: d.y }), CommandOutcome::DirectionSet)
        } else {
            (g, CommandOutcome::NotLoggedIn)
        },
    }
}

/// A command of session `c`, of the given kind and payload: the world after
/// it, and the outcome. A kind the world does not know changes nothing.
pub open spec fn command_spec(g: GameView, c: u64, kind: Seq<char>, data: Seq<char>) -> (GameView, CommandOutcome) {
    if kind == "login"@ {
        login_command_spec(g, c, data)
    } else if kind == "logout"@ {
        logout_command_spec(g, c)
    } else if kind == "directional"@ {
        directional_command_spec(g, c, data)
    } else {
        (g, CommandOutcome::Unknown)
    }
}

/// A command from a session, on its way to the world.
pub struct PlayerCommand {
    pub client_id: u64,
    pub command_type: String,
    pub command_data: String,
}

impl PlayerCommand {
    pub fn new(client_id: u64, command_type: String, command_data: String) -> (r: PlayerCommand)
        ensures
            r.client_id == client_id,
            r.command_type@ == command_type@,
            r.command_data@ == command_data@,
    {
        PlayerCommand { client_id, command_type, command_data }
    }
}

/// The world after the commands `cs`, in order.
pub open spec fn apply_commands(g: GameView, cs: Seq<PlayerCommand>) -> GameView
    decreases cs.len(),
{
    if cs.len() == 0 {
        g
    } else {
        let c = cs.last();
        command_spec(apply_commands(g, cs.drop_last()), c.client_id, c.command_type@, c.command_data@).0
    }
}

pub struct Game {
    pub id_counter: u64,
    pub players: Vec<Player>,
}

impl View for Game {
    type V = GameView;

    open spec fn view(&self) -> GameView {
        GameView { id_counter: self.id_counter, players: self.players@.map_values(|p: Player| p@) }
    }
}


pub open spec fn login_result_view(r: Result<Player, LoginError>) -> Result<PlayerView, LoginError> {
    match r {
        Ok(p) => Ok(p@),
        Err(e) => Err(e),
    }
}

/// How many players are bound to a session.
pub open spec fn online_count(ps: Seq<PlayerView>) -> nat
    decreases ps.len(),
{
    if ps.len() == 0 {
        0
    } else {
        online_count(ps.drop_last()) + if ps.last().active { 1nat } else { 0nat }
    }
}

/// The (session, player id) pair of every bound player, in player order.
pub open spec fn bindings_of(ps: Seq<PlayerView>) -> Seq<(u64, u64)>
    decreases ps.len(),
{
    if ps.len() == 0 {
        Seq::empty()
    } else {
        let rest = bindings_of(ps.drop_last());
        match ps.last().client_id {
            Some(c) => rest.push((c, ps.last().id)),
            None => rest,
        }
    }
}

fn step_coord(p: i64, d: i64, s: i64) -> (r: i64)
    ensures
        r == step_axis(p, d, s),
{
    let di = d as i128;
    let si = s as i128;
    assert(-0x4000_0000_0000_0000_0000_0000_0000_0000 <= di * si <= 0x4000_0000_0000_0000_0000_0000_0000_0000) by (nonlinear_arith)
        requires
            -0x8000_0000_0000_0000 <= di <= 0x7fff_ffff_ffff_ffff,
            -0x8000_0000_0000_0000 <= si <= 0x7fff_ffff_ffff_ffff,
    ;
    let v: i128 = p as i128 + di * si;
    if v > i64::MAX as i128 {
        i64::MAX
    } else if v < i64::MIN as i128 {
        i64::MIN
    } else {
        v as i64
    }
}

impl Game {
    pub open spec fn wf(&self) -> bool {
        game_wf(self@)
    }

    /// An empty world whose first player will get id 1.
    pub fn new() -> (r: Game)
        ensures
            r@.id_counter == 0,
            r@.players.len() == 0,
            r.wf(),
    {
        Game { id_counter: 0, players: Vec::new() }
    }

    /// One simulation step.
    pub fn game_tick(&mut self)
        requires
            old(self).wf(),
        ensures
            final(self)@ == tick_spec(old(self)@),
            final(self).wf(),
    {
        self.move_players();
    }

    /// Moves every player by its velocity times its speed; each player is
    /// moved on its own, whatever the others do.
    pub fn move_players(&mut self)
        requires
            old(self).wf(),
        ensures
            final(self)@ == tick_spec(old(self)@),
            final(self).wf(),
    {
        let ghost g0 = self@;
        let n = self.players.len();
        let mut i: usize = 0;
        while i < n
            invariant
                0 <= i <= n,
                n == self.players.len(),
                g0.players.len() == n,
                self.id_counter == g0.id_counter,
                forall|j: int| 0 <= j < i ==> #[trigger] self.players@[j]@ == moved(g0.players[j]),
                forall|j: int| i <= j < n ==> #[trigger] self.players@[j]@ == g0.players[j],
            decreases n - i,
        {
            let d = self.players[i].direction;
            let s = self.players[i].stats.speed;
            assert(self.players@[i as int]@ == g0.players[i as int]);
            if d.x == 0 && d.y == 0 {
                assert(d.x * s == 0 && d.y * s == 0);
                assert(self.players@[i as int]@ =~= moved(g0.players[i as int]));
            } else {
                let nx = step_coord(self.players[i].position.x, d.x, s);
                let ny = step_coord(self.players[i].position.y, d.y, s);
                self.players[i].position = Vector2 { x: nx, y: ny };
                assert(self.players@[i as int]@ =~= moved(g0.players[i as int]));
            }
            i = i + 1;
        }
        assert(self@.players =~= tick_spec(g0).players);
    }

    fn find_by_username(&self, username: &str) -> (r: Option<usize>)
        ensures
            match r {
                Some(i) => i < self.players.len() && self@.players[i as int].username == username@,
                None => !has_username(self@.players, username@),
            },
    {
        let mut i: usize = 0;
        while i < self.players.len()
            invariant
                0 <= i <= self.players.len(),
                forall|j: int| 0 <= j < i ==> #[trigger] self@.players[j].username != username@,
            decreases self.players.len() - i,
        {
            if same_text(&self.players[i].username, username) {
                return Some(i);
            }
            i = i + 1;
        }
        None
    }

    fn find_by_client(&self, client_id: u64) -> (r: Option<usize>)
        ensures
            match r {
                Some(i) => i < self.players.len() && self@.players[i as int].client_id == Some(client_id),
                None => !client_bound(self@.players, client_id),
            },
    {
        let mut i: usize = 0;
        while i < self.players.len()
            invariant
                0 <= i <= self.players.len(),
                forall|j: int| 0 <= j < i ==> #[trigger] self@.players[j].client_id != Some(client_id),
            decreases self.players.len() - i,
        {
            if self.players[i].client_id == Some(client_id) {
                return Some(i);
            }
            i = i + 1;
        }
        None
    }

    fn find_by_id(&self, player_id: u64) -> (r: Option<usize>)
        ensures
            match r {
                Some(i) => i < self.players.len() && self@.players[i as int].id == player_id,
                None => forall|j: int| 0 <= j < self@.players.len() ==> #[trigger] self@.players[j].id != player_id,
            },
    {
        let mut i: usize = 0;
        while i < self.players.len()
            invariant
                0 <= i <= self.players.len(),
                forall|j: int| 0 <= j < i ==> #[trigger] self@.players[j].id != player_id,
            decreases self.players.len() - i,
        {
            if self.players[i].id == player_id {
                return Some(i);
            }
            i = i + 1;
        }
        None
    }

    /// The player with this id and its index, if there is one.
    pub fn get_player(&self, player_id: u64) -> (r: Option<(Player, usize)>)
        ensures
            match r {
                Some((p, i)) => i < self@.players.len() && self@.players[i as int].id == player_id
                    && p@ == self@.players[i as int],
                None => forall|j: int| 0 <= j < self@.players.len() ==> #[trigger] self@.players[j].id != player_id,
            },
    {
        match self.find_by_id(player_id) {
            Some(i) => Some((self.players[i].snapshot(), i)),
            None => None,
        }
    }

    /// The player bound to this session and its index, if there is one.
    pub fn get_player_by_client(&self, client_id: u64) -> (r: Option<(Player, usize)>)
        ensures
            match r {
                Some((p, i)) => i < self@.players.len() && self@.players[i as int].client_id == Some(client_id)
                    && p@ == self@.players[i as int],
                None => !client_bound(self@.players, client_id),
            },
    {
        match self.find_by_client(client_id) {
            Some(i) => Some((self.players[i].snapshot(), i)),
            None => None,
        }
    }

    /// The player with this username and its index, if there is one.
    pub fn get_player_by_username(&self, username: &str) -> (r: Option<(Player, usize)>)
        ensures
            match r {
                Some((p, i)) => i < self@.players.len() && self@.players[i as int].username == username@
                    && p@ == self@.players[i as int],
                None => !has_username(self@.players, username@),
            },
    {
        match self.find_by_username(username) {
            Some(i) => Some((self.players[i].snapshot(), i)),
            None => None,
        }
    }

    /// How many players are bound to a session.
    pub fn get_players_online(&self) -> (r: usize)
        ensures
            r == online_count(self@.players),
    {
        let mut count: usize = 0;
        let mut i: usize = 0;
        while i < self.players.len()
            invariant
                0 <= i <= self.players.len(),
                count == online_count(self@.players.subrange(0, i as int)),
                count <= i,
            decreases self.players.len() - i,
        {
            assert(self@.players.subrange(0, i + 1).drop_last() =~= self@.players.subrange(0, i as int));
            if self.players[i].active {
                count = count + 1;
            }
            i = i + 1;
        }
        assert(self@.players.subrange(0, i as int) =~= self@.players);
        count
    }

    /// Whether a player is bound to this session.
    pub fn already_logged_in(&self, client_id: u64) -> (r: bool)
        ensures
            r == client_bound(self@.players, client_id),
    {
        self.find_by_client(client_id).is_some()
    }

    /// Hands out the next player id.
    pub fn generate_player_id(&mut self) -> (r: u64)
        requires
            old(self).id_counter < u64::MAX,
        ensures
            r == old(self).id_counter + 1,
            final(self).id_counter == r,
            final(self).players@ == old(self).players@,
    {
        self.id_counter = self.id_counter + 1;
        self.id_counter
    }

    /// Creates a player with a new id, bound to no session yet: the caller
    /// binds it with `attach_client_to_player`.
    pub fn create_player(&mut self, _client_id: u64, username: String, password: String) -> (r: Player)
        requires
            old(self).wf(),
            old(self).id_counter < u64::MAX,
            !has_username(old(self)@.players, username@),
        ensures
            final(self).wf(),
            r@ == fresh_player((old(self).id_counter + 1) as u64, username@, password@),
            final(self)@ == (GameView {
                id_counter: (old(self).id_counter + 1) as u64,
                players: old(self)@.players.push(r@),
            }),
    {
        let ghost g0 = self@;
        let id = self.generate_player_id();
        let p = Player::new(id, username, password);
        let r = p.snapshot();
        self.players.push(p);
        assert(self@.players =~= g0.players.push(r@));
        r
    }

    /// Binds the player at this index to the session.
    pub fn attach_client_to_player(&mut self, player_index: usize, client_id: u64)
        requires
            old(self).wf(),
            player_index < old(self).players.len(),
            !client_bound(old(self)@.players, client_id),
        ensures
            final(self).wf(),
            final(self)@ == (GameView {
                players: old(self)@.players.update(player_index as int, bind(old(self)@.players[player_index as int], client_id)),
                ..old(self)@
            }),
    {
        let ghost g0 = self@;
        self.players[player_index].client_id = Some(client_id);
        self.players[player_index].active = true;
        assert(self@.players =~= g0.players.update(player_index as int, bind(g0.players[player_index as int], client_id)));
    }

    /// Logs the session in: binds it to the player with that username when
    /// the credential matches, or to a new player when the username is new.
    pub fn login(&mut self, client_id: u64, login: &LoginCommand) -> (r: Result<Player, LoginError>)
        requires
            old(self).wf(),
        ensures
            final(self).wf(),
            (final(self)@, login_result_view(r)) == login_spec(old(self)@, client_id, login.username@, login.password@),
    {
        if self.already_logged_in(client_id) {
            return Err(LoginError::DuplicateLogin);
        }
        match self.find_by_username(login.username.as_str()) {
            Some(i) => {
                proof {
                    let j = username_index(self@.players, login.username@);
                    assert(has_username(self@.players, login.username@));
                    assert(self@.players[j].username == self@.players[i as int].username);
                    assert(j == i as int);
                }
                if !same_text(&self.players[i].password, login.password.as_str()) {
                    return Err(LoginError::CredentialMismatch);
                }
                self.attach_client_to_player(i, client_id);
                assert(self.players@.len() == self@.players.len());
                let p = self.players[i].snapshot();
                assert(p@ == self@.players[i as int]);
                Ok(p)
            },
            None => {
                if self.id_counter == u64::MAX {
                    return Err(LoginError::IdsExhausted);
                }
                let ghost g0 = self@;
                let index = self.players.len();
                let created = self.create_player(client_id, login.username.clone(), login.password.clone());
                assert(self.players@.len() == self@.players.len());
                proof {
                    let g1 = self@;
                    assert(index as int == g0.players.len());
                    assert(g1.players[index as int] == created@);
                    assert(!client_bound(g1.players, client_id)) by {
                        if client_bound(g1.players, client_id) {
                            let k = choose|k: int| 0 <= k < g1.players.len() && #[trigger] g1.players[k].client_id == Some(client_id);
                            if k < g0.players.len() {
                                assert(g1.players[k] == g0.players[k]);
                            }
                        }
                    }
                }
                self.attach_client_to_player(index, client_id);
                assert(self@.players =~= g0.players.push(bind(created@, client_id)));
                assert(self.players@.len() == self@.players.len());
                let p = self.players[index].snapshot();
                assert(p@ == self@.players[index as int]);
                Ok(p)
            },
        }
    }
    /// Logs the session in with the login payload `command_data`; a payload
    /// that cannot be read changes nothing.
    pub fn login_player(&mut self, client_id: u64, command_data: &str) -> (r: Result<Player, LoginError>)
        requires
            old(self).wf(),
        ensures
            final(self).wf(),
            match login_of(command_data@) {
                None => r == Err::<Player, LoginError>(LoginError::MalformedPayload) && final(self)@ == old(self)@,
                Some((u, pw)) => (final(self)@, login_result_view(r)) == login_spec(old(self)@, client_id, u, pw),
            },
    {
        match LoginCommand::from_string(command_data) {
            Some(login) => self.login(client_id, &login),
            None => Err(LoginError::MalformedPayload),
        }
    }

    /// Unbinds the session from its player, which is kept, offline, for a
    /// later login; returns that player's id, or `None` where the session had
    /// no player.
    pub fn logout_player(&mut self, client_id: u64) -> (r: Option<u64>)
        requires
            old(self).wf(),
        ensures
            final(self).wf(),
            final(self)@ == logout_spec(old(self)@, client_id),
            r == if client_bound(old(self)@.players, client_id) {
                Some(old(self)@.players[client_index(old(self)@.players, client_id)].id)
            } else {
                None::<u64>
            },
    {
        match self.find_by_client(client_id) {
            Some(i) => {
                let ghost g0 = self@;
                proof {
                    let j = client_index(g0.players, client_id);
                    assert(client_bound(g0.players, client_id));
                    assert(g0.players[j].client_id == g0.players[i as int].client_id);
                    assert(j == i as int);
                }
                self.players[i].client_id = None;
                self.players[i].active = false;
                assert(self@.players =~= g0.players.update(i as int, unbind(g0.players[i as int])));
                Some(self.players[i].id)
            },
            None => None,
        }
    }

    /// Sets the velocity of the session's player from the directional
    /// payload `command_data`.
    pub fn set_player_directional(&mut self, client_id: u64, command_data: &str) -> (r: CommandOutcome)
        requires
            old(self).wf(),
        ensures
            final(self).wf(),
            (final(self)@, r) == directional_command_spec(old(self)@, client_id, command_data@),
    {
        let d = match DirectionalPacket::from_string(command_data) {
            Some(d) => d,
            None => {
                return CommandOutcome::Malformed;
            },
        };
        match self.find_by_client(client_id) {
            Some(i) => {
                let ghost g0 = self@;
                proof {
                    let j = client_index(g0.players, client_id);
                    assert(client_bound(g0.players, client_id));
                    assert(g0.players[j].client_id == g0.players[i as int].client_id);
                    assert(j == i as int);
                }
                self.players[i].direction = Vector2 { x: d.x, y: d.y };
                assert(self@.players =~= g0.players.update(
                    i as int,
                    PlayerView { direction: Vector2 { x: d.x, y: d.y }, ..g0.players[i as int] },
                ));
                CommandOutcome::DirectionSet
            },
            None => CommandOutcome::NotLoggedIn,
        }
    }

    /// Applies one command; a kind that is not login, logout or directional
    /// is ignored.
    pub fn handle_command(&mut self, player_command: &PlayerCommand) -> (r: CommandOutcome)
        requires
            old(self).wf(),
        ensures
            final(self).wf(),
            (final(self)@, r) == command_spec(
                old(self)@,
                player_command.client_id,
                player_command.command_type@,
                player_command.command_data@,
            ),
    {
        let c = player_command.client_id;
        if same_text(&player_command.command_type, "login") {
            match self.login_player(c, player_command.command_data.as_str()) {
                Ok(p) => CommandOutcome::LoggedIn(p.id),
                Err(LoginError::MalformedPayload) => CommandOutcome::Malformed,
                Err(e) => CommandOutcome::LoginRejected(e),
            }
        } else if same_text(&player_command.command_type, "logout") {
            match self.logout_player(c) {
                Some(id) => CommandOutcome::LoggedOut(id),
                None => CommandOutcome::NotLoggedIn,
            }
        } else if same_text(&player_command.command_type, "directional") {
            self.set_player_directional(c, player_command.command_data.as_str())
        } else {
            CommandOutcome::Unknown
        }
    }

    /// One turn of the simulation: a step of movement, then every command
    /// that has arrived since the last turn, in order.
    pub fn run_step(&mut self, commands: &Vec<PlayerCommand>)
        requires
            old(self).wf(),
        ensures
            final(self).wf(),
            final(self)@ == apply_commands(tick_spec(old(self)@), commands@),
    {
        self.game_tick();
        let ghost g1 = self@;
        let mut i: usize = 0;
        assert(commands@.subrange(0, 0) =~= Seq::<PlayerCommand>::empty());
        while i < commands.len()
            invariant
                0 <= i <= commands.len(),
                self.wf(),
                self@ == apply_commands(g1, commands@.subrange(0, i as int)),
            decreases commands.len() - i,
        {
            assert(commands@.subrange(0, i + 1).drop_last() =~= commands@.subrange(0, i as int));
            self.handle_command(&commands[i]);
            i = i + 1;
        }
        assert(commands@.subrange(0, i as int) =~= commands@);
    }
    /// Which session each bound player is bound to, for the registry.
    pub fn session_bindings(&self) -> (r: Vec<(u64, u64)>)
        ensures
            r@ == bindings_of(self@.players),
    {
        let mut r: Vec<(u64, u64)> = Vec::new();
        let mut i: usize = 0;
        assert(self@.players.subrange(0, 0) =~= Seq::<PlayerView>::empty());
        while i < self.players.len()
            invariant
                0 <= i <= self.players.len(),
                r@ == bindings_of(self@.players.subrange(0, i as int)),
            decreases self.players.len() - i,
        {
            assert(self@.players.subrange(0, i + 1).drop_last() =~= self@.players.subrange(0, i as int));
            assert(self@.players.subrange(0, i + 1).last() == self@.players[i as int]);
            match self.players[i].client_id {
                Some(c) => r.push((c, self.players[i].id)),
                None => {},
            }
            i = i + 1;
        }
        assert(self@.players.subrange(0, i as int) =~= self@.players);
        r
    }
}

} // verus!
