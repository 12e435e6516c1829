//! A verified core for a desktop chat client: a normalized model of
//! servers, channels, members and messages, an event reducer that merges
//! an ordered stream of realtime protocol events into that model, and a
//! hook-style context registry that gives re-executed-every-frame UI
//! routines call-order-stable local state.

use vstd::prelude::*;

pub mod components;
pub mod config;
pub mod events;
pub mod hooks;
pub mod laws;
pub mod model;
pub mod reducer;
pub mod strutil;
pub mod table;
pub mod timefmt;

verus! {

/// Connection status of the realtime link; mutated only by the reducer.
#[derive(PartialEq, Eq, Structural, Clone, Copy, Debug)]
pub enum ConnectionState {
    Disconnected,
    Connected,
}

} // verus!
