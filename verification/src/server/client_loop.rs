//! Decisions of the loop that serves a connected client and of the loop
//! that accepts connections; the loops themselves, which read, sleep and
//! spawn, run outside the library and ask these functions what to do.
use crate::server::packet_processing::PacketType;
use vstd::prelude::*;

verus! {

/// Longest wait, in milliseconds, between a connection and its CONNECT.
pub const CONNECTION_WAIT_TIMEOUT: u64 = 180000;
/// Milliseconds that the server sleeps after finding no connection.
pub const ACCEPT_SLEEP_DUR: u64 = 100;
/// Least time, in milliseconds, since an unacknowledged message was sent
/// before it is sent again.
pub const MIN_ELAPSED_TIME: u64 = 100;

/// What the loop that serves a client knows of its activity: when it last
/// sent a packet and how long it may stay silent (milliseconds).
#[derive(Debug, Clone, Copy, PartialEq, Eq, Structural)]
pub struct Activity {
    pub last_activity: u64,
    pub keep_alive: Option<u64>,
}

/// What happened since the last step of the loop that serves a client.
#[derive(Debug, Clone, Copy, PartialEq, Eq, Structural)]
pub enum LoopEvent {
    /// A packet of this type was read and processed.
    Packet(PacketType),
    /// No packet came before the read timed out.
    ReadTimeout,
    /// Reading failed otherwise (the client left, or the packet was bad).
    ReadFailed,
    /// The unacknowledged messages were sent again after a timeout.
    UnacknowledgedSent,
}

/// What the loop that serves a client does next.
#[derive(Debug, Clone, Copy, PartialEq, Eq, Structural)]
pub enum LoopStep {
    /// Read the next packet.
    ReadNext,
    /// Send the unacknowledged messages again, then report it.
    SendUnacknowledged,
    /// Stop serving the client, and disconnect it gracefully or not.
    Finish(bool),
}

/// Whether a client whose activity is `a` stayed silent longer than its
/// keep alive allows at time `now`.
pub open spec fn keep_alive_expired(a: Activity, now: u64) -> bool {
    match a.keep_alive {
        Some(k) => now - a.last_activity > k,
        None => false,
    }
}

/// The next step of the loop that serves a client, after `event` at time
/// `now`, with the activity it leaves.
///
/// A packet refreshes the activity; a DISCONNECT ends the loop gracefully.
/// A timeout asks for the unacknowledged messages to be sent again; once
/// they are, the loop ends ungracefully when the keep alive expired. Any
/// other failed read ends the loop ungracefully.
pub fn client_loop_step(activity: Activity, event: LoopEvent, now: u64) -> (r: (Activity, LoopStep))
    requires
        event == LoopEvent::UnacknowledgedSent ==> activity.last_activity <= now,
    ensures
        match event {
            LoopEvent::Packet(t) => {
                &&& r.0 == Activity { last_activity: now, ..activity }
                &&& r.1 == if t == PacketType::Disconnect {
                    LoopStep::Finish(true)
                } else {
                    LoopStep::ReadNext
                }
            },
            LoopEvent::ReadTimeout => r == (activity, LoopStep::SendUnacknowledged),
            LoopEvent::ReadFailed => r == (activity, LoopStep::Finish(false)),
            LoopEvent::UnacknowledgedSent => r == (activity, if keep_alive_expired(activity, now) {
                LoopStep::Finish(false)
            } else {
                LoopStep::ReadNext
            }),
        },
{
    match event {
        LoopEvent::Packet(t) => {
            let next = Activity { last_activity: now, keep_alive: activity.keep_alive };
            if t == PacketType::Disconnect {
                (next, LoopStep::Finish(true))
            } else {
                (next, LoopStep::ReadNext)
            }
        },
        LoopEvent::ReadTimeout => (activity, LoopStep::SendUnacknowledged),
        LoopEvent::ReadFailed => (activity, LoopStep::Finish(false)),
        LoopEvent::UnacknowledgedSent => {
            let expired = match activity.keep_alive {
                Some(k) => now - activity.last_activity > k,
                None => false,
            };
            if expired {
                (activity, LoopStep::Finish(false))
            } else {
                (activity, LoopStep::ReadNext)
            }
        },
    }
}

/// A client that is never silent longer than its keep alive is never
/// disconnected for inactivity, and a client without keep alive never is.
pub proof fn lemma_active_client_kept(activity: Activity, now: u64)
    requires
        activity.last_activity <= now,
        activity.keep_alive matches Some(k) ==> now - activity.last_activity <= k,
    ensures
        !keep_alive_expired(activity, now),
{
}

/// What accepting a connection gave.
#[derive(Debug, Clone, Copy, PartialEq, Eq, Structural)]
pub enum AcceptOutcome {
    /// A client connected.
    Accepted,
    /// No client was waiting.
    Idle,
    /// Accepting failed.
    Failed,
}

/// What the loop that accepts connections does next.
#[derive(Debug, Clone, Copy, PartialEq, Eq, Structural)]
pub enum ServerStep {
    /// Serve the new client.
    RunClient,
    /// Sleep [`ACCEPT_SLEEP_DUR`] milliseconds.
    Sleep,
    /// Stop accepting connections and shut the sessions down.
    Stop,
}

/// The next step of the loop that accepts connections.
pub fn server_loop_step(outcome: AcceptOutcome) -> (s: ServerStep)
    ensures
        s == match outcome {
            AcceptOutcome::Accepted => ServerStep::RunClient,
            AcceptOutcome::Idle => ServerStep::Sleep,
            AcceptOutcome::Failed => ServerStep::Stop,
        },
{
    match outcome {
        AcceptOutcome::Accepted => ServerStep::RunClient,
        AcceptOutcome::Idle => ServerStep::Sleep,
        AcceptOutcome::Failed => ServerStep::Stop,
    }
}

/// Whether a dump is due at time `now`, when dumps are asked for every
/// `period` milliseconds and the last one was at `last_dump`.
pub fn dump_due(period: Option<u64>, last_dump: u64, now: u64) -> (b: bool)
    requires
        last_dump <= now,
    ensures
        b == match period {
            Some(p) => now - last_dump >= p,
            None => false,
        },
{
    match period {
        Some(p) => now - last_dump >= p,
        None => false,
    }
}

} // verus!
