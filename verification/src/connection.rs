//! The decisions of a live room connection: what to do with each thing that
//! happens on it, and when a silent client is given up on.
use vstd::prelude::*;

verus! {

/// How often the server pings a connection, in nanoseconds (20 seconds).
pub const HEARTBEAT_NANOS: u64 = 20_000_000_000;

/// How long a client may stay silent before it is dropped, in nanoseconds
/// (45 seconds).
pub const SILENCE_NANOS: u64 = 45_000_000_000;

/// Something that happened on a connection.
#[derive(Debug, Clone, Copy, PartialEq, Eq)]
pub enum SocketInput {
    /// The client answered a ping.
    Pong,
    /// The client sent a text frame.
    Text,
    /// The client sent some other frame.
    OtherFrame,
    /// The client closed the connection, or it broke.
    Closed,
    /// A room event arrived for this connection.
    RoomEvent,
    /// The room's event feed skipped or ended.
    FeedGap,
    /// The heartbeat timer fired.
    Tick,
}

/// What to do next.
#[derive(Debug, Clone, Copy, PartialEq, Eq)]
pub enum SocketAction {
    /// Keep waiting.
    Wait,
    /// Send the room event to the client.
    Forward,
    /// Send a ping to the client.
    Ping,
    /// Stop serving the connection.
    Stop,
}

/// A live connection: when the client was last heard from, in nanoseconds
/// on a monotonic clock.
#[derive(Debug, Clone, Copy)]
pub struct Connection {
    pub last_seen: u64,
}

/// Time from `t` to `now`, or zero when `t` is later.
pub open spec fn since(now: u64, t: u64) -> nat {
    if now >= t {
        (now - t) as nat
    } else {
        0
    }
}

/// The action for `input` at `now` on a connection last heard from at `last_seen`.
pub open spec fn action_for(last_seen: u64, input: SocketInput, now: u64) -> SocketAction {
    match input {
        SocketInput::Pong | SocketInput::Text | SocketInput::OtherFrame | SocketInput::FeedGap => SocketAction::Wait,
        SocketInput::Closed => SocketAction::Stop,
        SocketInput::RoomEvent => SocketAction::Forward,
        SocketInput::Tick => if since(now, last_seen) > SILENCE_NANOS {
            SocketAction::Stop
        } else {
            SocketAction::Ping
        },
    }
}

impl Connection {
    /// A connection opened at `now`.
    pub fn open(now: u64) -> (c: Connection)
        ensures
            c.last_seen == now,
    {
        Connection { last_seen: now }
    }

    /// Takes `input` at `now`: a pong or text frame counts as hearing from the
    /// client; a closed connection stops; a room event is forwarded; at each
    /// heartbeat the client is pinged, or dropped once silent for more than
    /// 45 seconds.
    pub fn step(&mut self, input: SocketInput, now: u64) -> (a: SocketAction)
        ensures
            a == action_for(old(self).last_seen, input, now),
            (input == SocketInput::Pong || input == SocketInput::Text) ==> final(self).last_seen
                == now,
            !(input == SocketInput::Pong || input == SocketInput::Text) ==> final(self).last_seen
                == old(self).last_seen,
    {
        match input {
            SocketInput::Pong | SocketInput::Text => {
                self.last_seen = now;
                SocketAction::Wait
            },
            SocketInput::OtherFrame | SocketInput::FeedGap => SocketAction::Wait,
            SocketInput::Closed => SocketAction::Stop,
            SocketInput::RoomEvent => SocketAction::Forward,
            SocketInput::Tick => if now.saturating_sub(self.last_seen) > SILENCE_NANOS {
                SocketAction::Stop
            } else {
                SocketAction::Ping
            },
        }
    }
}

/// A client that keeps answering is never dropped: if it was heard from at
/// most 45 seconds before a heartbeat, the heartbeat pings it.
pub proof fn law_live_client_is_kept(last_seen: u64, now: u64)
    requires
        last_seen <= now,
        now - last_seen <= SILENCE_NANOS,
    ensures
        action_for(last_seen, SocketInput::Tick, now) == SocketAction::Ping,
{
}

/// A client silent for more than 45 seconds is dropped at the next
/// heartbeat; a closed connection always stops; a room event is always
/// passed on; nothing the client sends ends the connection unless it closes.
pub proof fn law_connection_decisions(last_seen: u64, now: u64, input: SocketInput)
    ensures
        last_seen <= now && now - last_seen > SILENCE_NANOS ==> action_for(
            last_seen,
            SocketInput::Tick,
            now,
        ) == SocketAction::Stop,
        action_for(last_seen, SocketInput::Closed, now) == SocketAction::Stop,
        action_for(last_seen, SocketInput::RoomEvent, now) == SocketAction::Forward,
        (input == SocketInput::Pong || input == SocketInput::Text || input
            == SocketInput::OtherFrame || input == SocketInput::FeedGap) ==> action_for(
            last_seen,
            input,
            now,
        ) == SocketAction::Wait,
{
}

} // verus!
