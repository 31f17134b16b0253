//! The netcode core of a small real-time multiplayer game.
//!
//! The crate is written without any I/O of its own: a host loop reads datagrams from a
//! socket, hands each outcome to the functions found here, and afterwards sends whatever
//! the outbound queue holds.  Every function carries a contract that Verus proves.
//!
//! * [`message`]: the protocol messages and their wire encoding.
//! * [`socket`]: the socket as the crate sees it, and a socket that lives in memory.
//! * [`transport`]: the outbound queue.
//! * [`liveness`]: who was heard of and when, and the timer of the heartbeat.
//! * [`packet_systems`]: the steps of a tick: reading, sending, sweeping, keeping alive.
//! * [`handshake`]: assigning a player identity before any gameplay traffic.
//! * [`server`]: the authoritative registry of players and networked objects.
//! * [`client`]: reconciling the local replicas with what the server reports.
//!
//! Positions are carried as bit patterns and time as a count of nanoseconds, so that
//! the crate holds nothing but integers; sets and maps are small tables that keep the
//! order in which their keys arrived, modelled in [`assoc`].  What is taken for granted
//! of code outside the crate stands in [`trusted`].
pub mod assoc;
pub mod counting;
pub mod address;
pub mod position;
pub mod player;
pub mod components;
pub mod trusted;
pub mod message;
pub mod raw_message;
pub mod transport;
pub mod socket;
pub mod events;
pub mod liveness;
pub mod packet_systems;
pub mod handshake;
pub mod server;
pub mod entities;
pub mod client;
pub mod send_input;
pub mod send_player_position;
