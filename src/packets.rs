//! An envelope together with the network address it came from.

use vstd::prelude::*;

verus! {

pub struct BasePacket {
    pub packet_type: String,
    pub packet_addr: String,
    pub packet_data: String,
}

impl BasePacket {
    pub open spec fn view_triple(&self) -> (Seq<char>, Seq<char>, Seq<char>) {
        (self.packet_type@, self.packet_addr@, self.packet_data@)
    }

    pub fn new(packet_type: String, packet_addr: String, packet_data: String) -> (r: BasePacket)
        ensures
            r.view_triple() == (packet_type@, packet_addr@, packet_data@),
    {
        BasePacket { packet_type, packet_addr, packet_data }
    }
}

/// The account named in a request to log in.
pub struct LoginPacket {
    pub username: String,
    pub password: String,
}

/// The account named in a request to log out.
pub struct LogoutPacket {
    pub username: String,
    pub password: String,
}

} // verus!
