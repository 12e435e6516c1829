use crate::model::{Channel, Member, Message, Server, User};
use vstd::prelude::*;

verus! {

/// An inbound realtime protocol event, in the order the transport
/// delivered it.  Kinds the reducer does not handle arrive as `Unknown`
/// and are ignored, never fatal.
pub enum Event {
    /// A batch: its contents apply in order, as if they had been queued
    /// one by one in its place.
    Bulk { v: Vec<Event> },
    /// The session was accepted; the connection counts as established.
    Authenticated,
    /// A placeholder: explicitly a no-op, the model is not cleared.
    Logout,
    /// A full hydration snapshot, sent at connect and reconnect.
    Ready { users: Vec<User>, servers: Vec<Server>, channels: Vec<Channel>, members: Vec<Member> },
    /// A newly created message, possibly carrying its author's user and
    /// member records.
    Message(Message),
    /// Any other application-defined kind, kept only by name.
    Unknown { kind: String },
}

/// The payload a ping carries and gets echoed back.
pub enum PingData {
    Binary(Vec<u8>),
    Number(usize),
}

/// An outbound realtime control message, sent as a text frame.
pub enum ClientMessage {
    Authenticate { token: String },
    BeginTyping { channel: String },
    EndTyping { channel: String },
    Subscribe { server_id: String },
    Ping { data: PingData, responded: Option<()> },
}

} // verus!
