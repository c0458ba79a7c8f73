//! The settings of a server.

use crate::time::{TimeSpan, NANOS_PER_SEC};
use vstd::prelude::*;

verus! {

/// The settings that a server reads. The address to listen on is left to
/// the program that opens the socket.
#[derive(Debug, Clone, Copy, PartialEq, Eq, Structural)]
pub struct ServerConfig {
    /// How long a session may stay idle before it is dropped.
    pub session_idle_ttl: TimeSpan,
    /// How long a session is meant to last.
    pub session_max_duration: TimeSpan,
    /// How many committed edits may wait for a slow client.
    pub broadcast_capacity: usize,
    /// How long the sweeper rests between two rounds.
    pub sweeper_interval: TimeSpan,
}

impl ServerConfig {
    /// The settings of a server that was given none: sessions are dropped
    /// after a day without activity and are meant to last an hour, a hundred
    /// edits may wait for a slow client, and the sweeper comes once an hour.
    pub open spec fn standard() -> ServerConfig {
        ServerConfig {
            session_idle_ttl: TimeSpan { nanos: (86_400 * NANOS_PER_SEC) as u128 },
            session_max_duration: TimeSpan { nanos: (3_600 * NANOS_PER_SEC) as u128 },
            broadcast_capacity: 100,
            sweeper_interval: TimeSpan { nanos: (3_600 * NANOS_PER_SEC) as u128 },
        }
    }
}

impl Default for ServerConfig {
    fn default() -> (r: ServerConfig)
        ensures
            r == ServerConfig::standard(),
    {
        ServerConfig {
            session_idle_ttl: TimeSpan::from_secs(86_400),
            session_max_duration: TimeSpan::from_secs(3_600),
            broadcast_capacity: 100,
            sweeper_interval: TimeSpan::from_secs(3_600),
        }
    }
}

} // verus!
