//! The wire protocol: the envelope that every datagram carries, the command
//! that a client sends inside it, and the payloads of each command kind.
//! Each is written as a flat JSON object and read back from one.

use vstd::prelude::*;
use vstd::string::*;
use crate::json::{
    decimal_text, integer_member, integer_members, integer_members_view, integer_text,
    json_integer_members, json_quoted, json_string_members, member, quote, string_member,
    string_members, string_members_view, text_member,
};

verus! {

/// The text of a JSON object with two members, whose values are already JSON text.
pub open spec fn object_text(k1: Seq<char>, v1: Seq<char>, k2: Seq<char>, v2: Seq<char>) -> Seq<char> {
    "{"@ + json_quoted(k1) + ":"@ + v1 + ","@ + json_quoted(k2) + ":"@ + v2 + "}"@
}

/// The two string members `k1` and `k2` of a decoded object, if both are
/// there and strings.
pub open spec fn string_pair(ms: Seq<(Seq<char>, Option<Seq<char>>)>, k1: Seq<char>, k2: Seq<char>) -> Option<(Seq<char>, Seq<char>)> {
    match (text_member(ms, k1), text_member(ms, k2)) {
        (Some(a), Some(b)) => Some((a, b)),
        _ => None,
    }
}

/// The two string members `k1` and `k2` of the object that `text` holds.
pub open spec fn string_pair_of_text(text: Seq<char>, k1: Seq<char>, k2: Seq<char>) -> Option<(Seq<char>, Seq<char>)> {
    match json_string_members(text) {
        Some(ms) => string_pair(ms, k1, k2),
        None => None,
    }
}

fn object_of_two(k1: &str, v1: &str, k2: &str, v2: &str) -> (r: String)
    ensures
        r@ == object_text(k1@, v1@, k2@, v2@),
{
    let mut r = String::from_str("{");
    let q1 = quote(k1);
    r.append(q1.as_str());
    r.append(":");
    r.append(v1);
    r.append(",");
    let q2 = quote(k2);
    r.append(q2.as_str());
    r.append(":");
    r.append(v2);
    r.append("}");
    r
}

fn string_pair_of(ms: &Vec<(String, Option<String>)>, k1: &str, k2: &str) -> (r: Option<(String, String)>)
    ensures
        match r {
            Some(p) => string_pair(string_members_view(ms@), k1@, k2@) == Some((p.0@, p.1@)),
            None => string_pair(string_members_view(ms@), k1@, k2@) is None,
        },
{
    match string_member(ms, k1) {
        Some(a) => match string_member(ms, k2) {
            Some(b) => Some((a, b)),
            None => None,
        },
        None => None,
    }
}

/// The envelope of a datagram: what kind of message it is and its payload,
/// itself JSON text.
pub struct BasePacket {
    pub packet_type: String,
    pub packet_data: String,
}

pub open spec fn envelope_text(kind: Seq<char>, data: Seq<char>) -> Seq<char> {
    object_text("kind"@, json_quoted(kind), "data"@, json_quoted(data))
}

pub open spec fn envelope_of(text: Seq<char>) -> Option<(Seq<char>, Seq<char>)> {
    string_pair_of_text(text, "kind"@, "data"@)
}

impl BasePacket {
    pub open spec fn view_pair(&self) -> (Seq<char>, Seq<char>) {
        (self.packet_type@, self.packet_data@)
    }

    pub fn new(packet_type: String, packet_data: String) -> (r: BasePacket)
        ensures
            r.packet_type@ == packet_type@,
            r.packet_data@ == packet_data@,
    {
        BasePacket { packet_type, packet_data }
    }

    /// The envelope as a JSON object `{"kind": .., "data": ..}`.
    pub fn to_string(&self) -> (r: String)
        ensures
            r@ == envelope_text(self.packet_type@, self.packet_data@),
    {
        let k = quote(self.packet_type.as_str());
        let d = quote(self.packet_data.as_str());
        object_of_two("kind", k.as_str(), "data", d.as_str())
    }

    /// The envelope held by the members of a decoded object: both `kind` and
    /// `data` must be there.
    pub fn from_members(ms: &Vec<(String, Option<String>)>) -> (r: Option<BasePacket>)
        ensures
            match r {
                Some(p) => string_pair(string_members_view(ms@), "kind"@, "data"@) == Some(p.view_pair()),
                None => string_pair(string_members_view(ms@), "kind"@, "data"@) is None,
            },
    {
        match string_pair_of(ms, "kind", "data") {
            Some((k, d)) => Some(BasePacket { packet_type: k, packet_data: d }),
            None => None,
        }
    }

    /// Reads an envelope from JSON text; `None` where the text is not an
    /// object of strings with both members.
    pub fn from_string(packet_string: &str) -> (r: Option<BasePacket>)
        ensures
            match r {
                Some(p) => envelope_of(packet_string@) == Some(p.view_pair()),
                None => envelope_of(packet_string@) is None,
            },
    {
        match string_members(packet_string) {
            Some(ms) => BasePacket::from_members(&ms),
            None => None,
        }
    }
}

/// A command as a client sends it in the payload of a `command` envelope.
pub struct PlayerCommandPacket {
    pub command_type: String,
    pub command_data: String,
}

pub open spec fn command_text(kind: Seq<char>, data: Seq<char>) -> Seq<char> {
    object_text("command_kind"@, json_quoted(kind), "command_data"@, json_quoted(data))
}

pub open spec fn command_of(text: Seq<char>) -> Option<(Seq<char>, Seq<char>)> {
    string_pair_of_text(text, "command_kind"@, "command_data"@)
}

impl PlayerCommandPacket {
    pub open spec fn view_pair(&self) -> (Seq<char>, Seq<char>) {
        (self.command_type@, self.command_data@)
    }

    pub fn new(command_type: String, command_data: String) -> (r: PlayerCommandPacket)
        ensures
            r.command_type@ == command_type@,
            r.command_data@ == command_data@,
    {
        PlayerCommandPacket { command_type, command_data }
    }

    /// The command as a JSON object `{"command_kind": .., "command_data": ..}`.
    pub fn to_string(&self) -> (r: String)
        ensures
            r@ == command_text(self.command_type@, self.command_data@),
    {
        let k = quote(self.command_type.as_str());
        let d = quote(self.command_data.as_str());
        object_of_two("command_kind", k.as_str(), "command_data", d.as_str())
    }

    pub fn from_members(ms: &Vec<(String, Option<String>)>) -> (r: Option<PlayerCommandPacket>)
        ensures
            match r {
                Some(p) => string_pair(string_members_view(ms@), "command_kind"@, "command_data"@) == Some(p.view_pair()),
                None => string_pair(string_members_view(ms@), "command_kind"@, "command_data"@) is None,
            },
    {
        match string_pair_of(ms, "command_kind", "command_data") {
            Some((k, d)) => Some(PlayerCommandPacket { command_type: k, command_data: d }),
            None => None,
        }
    }

    pub fn from_string(packet_string: &str) -> (r: Option<PlayerCommandPacket>)
        ensures
            match r {
                Some(p) => command_of(packet_string@) == Some(p.view_pair()),
                None => command_of(packet_string@) is None,
            },
    {
        match string_members(packet_string) {
            Some(ms) => PlayerCommandPacket::from_members(&ms),
            None => None,
        }
    }
}

/// The payload of a login command: the account's name and its credential.
pub struct LoginCommand {
    pub username: String,
    pub password: String,
}

/// The login payload under the name the protocol gives it.
pub type LoginPacket = LoginCommand;

/// The account named in a request to log out.
pub struct LogoutPacket {
    pub username: String,
    pub password: String,
}

pub open spec fn login_text(username: Seq<char>, password: Seq<char>) -> Seq<char> {
    object_text("username"@, json_quoted(username), "credential"@, json_quoted(password))
}

pub open spec fn login_of(text: Seq<char>) -> Option<(Seq<char>, Seq<char>)> {
    string_pair_of_text(text, "username"@, "credential"@)
}

impl LoginCommand {
    pub open spec fn view_pair(&self) -> (Seq<char>, Seq<char>) {
        (self.username@, self.password@)
    }

    /// The payload as a JSON object `{"username": .., "credential": ..}`.
    pub fn to_string(&self) -> (r: String)
        ensures
            r@ == login_text(self.username@, self.password@),
    {
        let u = quote(self.username.as_str());
        let p = quote(self.password.as_str());
        object_of_two("username", u.as_str(), "credential", p.as_str())
    }

    pub fn from_members(ms: &Vec<(String, Option<String>)>) -> (r: Option<LoginCommand>)
        ensures
            match r {
                Some(p) => string_pair(string_members_view(ms@), "username"@, "credential"@) == Some(p.view_pair()),
                None => string_pair(string_members_view(ms@), "username"@, "credential"@) is None,
            },
    {
        match string_pair_of(ms, "username", "credential") {
            Some((u, p)) => Some(LoginCommand { username: u, password: p }),
            None => None,
        }
    }

    pub fn from_string(packet_string: &str) -> (r: Option<LoginCommand>)
        ensures
            match r {
                Some(p) => login_of(packet_string@) == Some(p.view_pair()),
                None => login_of(packet_string@) is None,
            },
    {
        match string_members(packet_string) {
            Some(ms) => LoginCommand::from_members(&ms),
            None => None,
        }
    }
}

/// The payload of a directional command: the velocity the player asks for.
#[derive(Clone, Copy, Debug, PartialEq, Eq, Structural)]
pub struct DirectionalPacket {
    pub x: i64,
    pub y: i64,
}

pub open spec fn directional_text(x: i64, y: i64) -> Seq<char> {
    object_text("x"@, decimal_text(x as int), "y"@, decimal_text(y as int))
}

pub open spec fn directional_pair(ms: Seq<(Seq<char>, i64)>) -> Option<DirectionalPacket> {
    match (member(ms, "x"@), member(ms, "y"@)) {
        (Some(x), Some(y)) => Some(DirectionalPacket { x, y }),
        _ => None,
    }
}

pub open spec fn directional_of(text: Seq<char>) -> Option<DirectionalPacket> {
    match json_integer_members(text) {
        Some(ms) => directional_pair(ms),
        None => None,
    }
}

impl DirectionalPacket {
    /// The payload as a JSON object `{"x": .., "y": ..}`.
    pub fn to_string(&self) -> (r: String)
        ensures
            r@ == directional_text(self.x, self.y),
    {
        let x = integer_text(self.x);
        let y = integer_text(self.y);
        object_of_two("x", x.as_str(), "y", y.as_str())
    }

    pub fn from_members(ms: &Vec<(String, i64)>) -> (r: Option<DirectionalPacket>)
        ensures
            r == directional_pair(integer_members_view(ms@)),
    {
        match integer_member(ms, "x") {
            Some(x) => match integer_member(ms, "y") {
                Some(y) => Some(DirectionalPacket { x, y }),
                None => None,
            },
            None => None,
        }
    }

    pub fn from_string(packet_string: &str) -> (r: Option<DirectionalPacket>)
        ensures
            r == directional_of(packet_string@),
    {
        match integer_members(packet_string) {
            Some(ms) => DirectionalPacket::from_members(&ms),
            None => None,
        }
    }
}

} // verus!
