//! An authoritative world server over datagrams: a world engine that owns the
//! players, a session registry that owns the connections, the decisions of
//! the network loop, and the JSON wire protocol between clients and server.

pub mod json;
pub mod packet;
pub mod game;
pub mod network;
pub mod packets;
pub mod orchestrator;
pub mod laws;
