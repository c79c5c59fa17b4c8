//! One broadcast session: its data record, the relay it owns, the
//! participants connected over signaling, and the watchdog rule that
//! reclaims a session whose host never activates it.

use vstd::prelude::*;
use crate::audio_server::AudioServer;

verus! {

/// Grace period, in seconds, for the host to announce its address after
/// session creation; the watchdog removes the session once this is exceeded.
pub const GRACE_PERIOD_SECS: u64 = 60;

/// Fixed backoff, in seconds, between two watchdog polls.
pub const POLL_INTERVAL_SECS: u64 = 2;

/// The session record handed out to participants and over the listing
/// interface. Immutable after creation except for the single
/// `active_since` transition at host activation.
#[derive(Clone, Copy, PartialEq, Eq, Structural, Debug)]
pub struct PodcastData {
    /// Session id, unique among live sessions.
    pub id: u32,
    /// Unix timestamp in milliseconds of host activation; `None` until the
    /// host announces its address, then set exactly once.
    pub active_since: Option<u128>,
    /// Participant id of the host, fixed at creation.
    pub host: u32,
}

/// Query selecting one session by id.
#[derive(Clone, Copy, PartialEq, Eq, Structural, Debug)]
pub struct PodcastQuery {
    pub id: u32,
}

/// A live session: its record, its relay, and the participants currently
/// registered on its signaling channel.
pub struct Podcast {
    pub data: PodcastData,
    pub audio_server: AudioServer,
    /// Participant ids with an open signaling connection for this session.
    pub ws_clients: Vec<u32>,
}

impl Podcast {
    /// The relay is well formed and each participant is registered once.
    pub open spec fn wf(self) -> bool {
        &&& self.audio_server.wf()
        &&& forall|a: int, b: int|
            0 <= a < b < self.ws_clients@.len() ==> self.ws_clients@[a] != self.ws_clients@[b]
    }

    /// This participant has an open signaling connection for the session.
    pub open spec fn has_participant(self, client: u32) -> bool {
        self.ws_clients@.contains(client)
    }

    /// Record that a participant opened the session's signaling channel;
    /// one that is already registered stays registered once.
    pub fn register_participant(&mut self, client: u32)
        requires
            old(self).wf(),
        ensures
            final(self).wf(),
            final(self).data == old(self).data,
            final(self).audio_server == old(self).audio_server,
            final(self).ws_clients@ == if old(self).has_participant(client) {
                old(self).ws_clients@
            } else {
                old(self).ws_clients@.push(client)
            },
            final(self).has_participant(client),
    {
        let mut t: usize = 0;
        let n = self.ws_clients.len();
        while t < n
            invariant
                *self == *old(self),
                self.wf(),
                n == self.ws_clients@.len(),
                0 <= t <= n,
                forall|m: int| 0 <= m < t ==> self.ws_clients@[m] != client,
            decreases n - t,
        {
            if self.ws_clients[t] == client {
                assert(self.ws_clients@.contains(client));
                return ;
            }
            t = t + 1;
        }
        assert(!self.ws_clients@.contains(client));
        self.ws_clients.push(client);
        assert(self.ws_clients@.last() == client);
        assert(self.has_participant(client));
    }
}

/// What the watchdog does after one poll of the session's state.
pub enum WatchdogStep {
    /// The session is gone or the host arrived: the watchdog ends.
    Stop,
    /// The grace period ran out without activation: remove the session,
    /// then end.
    Remove,
    /// Still waiting within the grace period: poll again after the backoff.
    Sleep,
}

/// One watchdog decision. `active` is the session's state as the registry
/// reports it (`None`: the session no longer exists; `Some(b)`: it exists
/// and `b` says whether the host has activated it); `elapsed_secs` is the
/// time since the watchdog started. The session is never removed at or
/// before the grace period, and always removed by the first poll after it.
pub fn await_host_step(active: Option<bool>, elapsed_secs: u64) -> (r: WatchdogStep)
    ensures
        r is Stop <==> (active is None || active == Some(true)),
        r is Remove <==> active == Some(false) && elapsed_secs > GRACE_PERIOD_SECS,
        r is Sleep <==> active == Some(false) && elapsed_secs <= GRACE_PERIOD_SECS,
{
    match active {
        None => WatchdogStep::Stop,
        Some(true) => WatchdogStep::Stop,
        Some(false) => {
            if elapsed_secs > GRACE_PERIOD_SECS {
                WatchdogStep::Remove
            } else {
                WatchdogStep::Sleep
            }
        },
    }
}

} // verus!
