//! The signaling protocol handler: one value per open connection, holding
//! which participant it belongs to and which session it is scoped to. The
//! transport decodes inbound wire envelopes into [`MessageWrapper`] and
//! drives these handlers on open, on message, and on close; the handlers
//! make every protocol decision and apply it to the registry.

use vstd::prelude::*;
use crate::addr::{ipv4_addr_of, is_ipv4, parse_socket_addr, NetAddr};
use crate::application::Application;
use crate::events::{CloseConnectionEvent, HelloEvent, HOST_DISCONNECT};

verus! {

/// An inbound signaling envelope, already decoded from the wire:
/// `message_type` is the numeric tag; `data` holds the announcement
/// payload when the tag's payload decoded as one, and `None` otherwise.
pub struct MessageWrapper {
    pub message_type: u32,
    pub data: Option<ClientConnect>,
}

/// An address announcement: where the sending participant receives
/// (listener) or sends (host) audio. The address arrives as text and is
/// validated here.
pub struct ClientConnect {
    pub ip: String,
    pub port: u32,
}

impl ClientConnect {
    /// Wire tag of the address announcement message.
    pub fn request_type() -> (t: u32)
        ensures
            t == 1,
    {
        1
    }
}

/// The message is a well-formed address announcement: the right tag, a
/// payload, a dotted-quad address and a port that fits UDP.
pub open spec fn announces(msg: MessageWrapper) -> bool {
    &&& msg.message_type == 1
    &&& msg.data matches Some(c) && is_ipv4(c.ip@) && c.port <= u16::MAX
}

/// The address a well-formed announcement names.
pub open spec fn announced_addr(msg: MessageWrapper) -> NetAddr
    recommends
        announces(msg),
{
    ipv4_addr_of(msg.data->Some_0.ip@, msg.data->Some_0.port as u16)
}

/// Per-connection signaling state: which session the connection is scoped
/// to, which participant opened it, and who hosts the session.
pub struct PodcastWsSession {
    pub podcast_id: u32,
    pub client_id: u32,
    pub host_client_id: u32,
}

/// How one inbound message takes the registry from `pre` to `post`, with
/// `r` the address the relay must start listening for. A message that is
/// not a well-formed announcement, or names a session that is not live,
/// changes nothing. The host's announcement activates a still-pending
/// session — stamps `active_since`, registers the host address, yields
/// `r` — and is a no-op on an active one; a listener's announcement only
/// adds its address to the relay's listener set.
pub open spec fn message_transition(
    session: PodcastWsSession,
    pre: Application,
    post: Application,
    msg: MessageWrapper,
    now_millis: u128,
    r: Option<NetAddr>,
) -> bool {
    &&& (!announces(msg) ==> post == pre && r is None)
    &&& (announces(msg) && !pre.contains_id(session.podcast_id) ==> post == pre && r is None)
    &&& (announces(msg) && pre.contains_id(session.podcast_id) && session.spec_is_host()
        ==> ({
        let t = pre.index_of(session.podcast_id);
        let prev = pre.session(session.podcast_id);
        let next = post.sessions@[t];
        if prev.data.active_since is None {
            &&& r == Some(announced_addr(msg))
            &&& post.sessions@ == pre.sessions@.update(t, next)
            &&& next.data.id == prev.data.id
            &&& next.data.host == prev.data.host
            &&& next.data.active_since == Some(now_millis)
            &&& next.audio_server.port == prev.audio_server.port
            &&& next.audio_server.host_address == Some(announced_addr(msg))
            &&& next.audio_server.clients == prev.audio_server.clients
            &&& next.ws_clients == prev.ws_clients
        } else {
            r is None && post == pre
        }
    }))
    &&& (announces(msg) && pre.contains_id(session.podcast_id) && !session.spec_is_host()
        ==> ({
        let t = pre.index_of(session.podcast_id);
        let prev = pre.session(session.podcast_id);
        let next = post.sessions@[t];
        &&& r is None
        &&& post.sessions@ == pre.sessions@.update(t, next)
        &&& next.data == prev.data
        &&& next.ws_clients == prev.ws_clients
        &&& next.audio_server.port == prev.audio_server.port
        &&& next.audio_server.host_address == prev.audio_server.host_address
        &&& next.audio_server.clients@ == (if prev.audio_server.has_client(announced_addr(msg)) {
            prev.audio_server.clients@
        } else {
            prev.audio_server.clients@.push(announced_addr(msg))
        })
        &&& next.audio_server.has_client(announced_addr(msg))
    }))
}

/// Single activation, kept promise: once a session's `active_since` is
/// set, no further inbound message changes it. With
/// [`lemma_listener_never_activates`] this pins the transition from
/// `None` to a timestamp to exactly one host announcement per session
/// lifetime.
pub proof fn lemma_single_activation(
    session: PodcastWsSession,
    pre: Application,
    post: Application,
    msg: MessageWrapper,
    now_millis: u128,
    r: Option<NetAddr>,
    id: u32,
)
    requires
        pre.wf(),
        post.wf(),
        message_transition(session, pre, post, msg, now_millis, r),
        pre.contains_id(id),
        pre.session(id).data.active_since is Some,
    ensures
        post.contains_id(id),
        post.session(id).data.active_since == pre.session(id).data.active_since,
{
    lemma_transition_keeps_active_since(session, pre, post, msg, now_millis, r, id);
}

/// Single activation, other direction: a listener's announcement never
/// sets `active_since`; activation comes from the host alone.
pub proof fn lemma_listener_never_activates(
    session: PodcastWsSession,
    pre: Application,
    post: Application,
    msg: MessageWrapper,
    now_millis: u128,
    r: Option<NetAddr>,
    id: u32,
)
    requires
        pre.wf(),
        post.wf(),
        message_transition(session, pre, post, msg, now_millis, r),
        !session.spec_is_host(),
        pre.contains_id(id),
    ensures
        post.contains_id(id),
        post.session(id).data.active_since == pre.session(id).data.active_since,
{
    lemma_transition_keeps_active_since(session, pre, post, msg, now_millis, r, id);
}

/// Every message transition leaves `active_since` alone, except the
/// host's announcement to its own still-pending session.
proof fn lemma_transition_keeps_active_since(
    session: PodcastWsSession,
    pre: Application,
    post: Application,
    msg: MessageWrapper,
    now_millis: u128,
    r: Option<NetAddr>,
    id: u32,
)
    requires
        pre.wf(),
        post.wf(),
        message_transition(session, pre, post, msg, now_millis, r),
        pre.contains_id(id),
        pre.session(id).data.active_since is Some || !session.spec_is_host(),
    ensures
        post.contains_id(id),
        post.session(id).data.active_since == pre.session(id).data.active_since,
{
    let w = pre.index_of(id);
    if !announces(msg) || !pre.contains_id(session.podcast_id) {
        assert(post == pre);
        assert(post.sessions@[w].data.id == id);
        post.lemma_index_unique(id, w);
    } else {
        let t = pre.index_of(session.podcast_id);
        if session.spec_is_host() && id == session.podcast_id {
            assert(w == t);
            assert(pre.session(session.podcast_id).data.active_since is Some);
            assert(post == pre);
            post.lemma_index_unique(id, w);
        } else if session.spec_is_host() {
            assert(pre.sessions@[t].data.id == session.podcast_id);
            assert(pre.sessions@[w].data.id == id);
            assert(w != t);
            if pre.session(session.podcast_id).data.active_since is None {
                assert(post.sessions@ == pre.sessions@.update(t, post.sessions@[t]));
                assert(post.sessions@[w] == pre.sessions@[w]);
            } else {
                assert(post == pre);
            }
            post.lemma_index_unique(id, w);
        } else {
            assert(post.sessions@ == pre.sessions@.update(t, post.sessions@[t]));
            if id == session.podcast_id {
                assert(w == t);
                assert(post.sessions@[t].data == pre.sessions@[t].data);
            } else {
                assert(pre.sessions@[t].data.id == session.podcast_id);
                assert(w != t);
                assert(post.sessions@[w] == pre.sessions@[w]);
            }
            post.lemma_index_unique(id, w);
        }
    }
}

impl PodcastWsSession {
    /// This connection belongs to the session's host.
    pub open spec fn spec_is_host(self) -> bool {
        self.client_id == self.host_client_id
    }

    /// This connection belongs to the session's host.
    pub fn is_host(&self) -> (b: bool)
        ensures
            b == self.spec_is_host(),
    {
        self.client_id == self.host_client_id
    }

    /// On connection open: register this participant with the session and
    /// hand back the ready event carrying the relay's port, to be pushed
    /// to the participant. `None` when the session is gone, in which case
    /// nothing changes.
    pub fn started(&self, app: &mut Application) -> (r: Option<HelloEvent>)
        requires
            old(app).wf(),
        ensures
            final(app).wf(),
            r is Some <==> old(app).contains_id(self.podcast_id),
            r is None ==> *final(app) == *old(app),
            r matches Some(e) ==> e.port
                == old(app).session(self.podcast_id).audio_server.port,
            r is Some ==> ({
                let t = old(app).index_of(self.podcast_id);
                let pre = old(app).session(self.podcast_id);
                let post = final(app).sessions@[t];
                &&& final(app).sessions@ == old(app).sessions@.update(t, post)
                &&& post.data == pre.data
                &&& post.audio_server == pre.audio_server
                &&& post.ws_clients@ == (if pre.has_participant(self.client_id) {
                    pre.ws_clients@
                } else {
                    pre.ws_clients@.push(self.client_id)
                })
                &&& post.has_participant(self.client_id)
            }),
    {
        let ghost pre_app = *app;
        let found = app.register_participant(self.podcast_id, self.client_id);
        if !found {
            return None;
        }
        proof {
            let t = pre_app.index_of(self.podcast_id);
            app.lemma_index_unique(self.podcast_id, t);
        }
        match app.session_port(self.podcast_id) {
            Some(port) => Some(HelloEvent { port }),
            None => None,
        }
    }

    /// Handle one inbound message. Anything but a well-formed address
    /// announcement for a live session is dropped silently, the protocol
    /// having no error channel. A host announcement activates the session
    /// the first time and is a no-op afterwards; a listener announcement
    /// adds the address to the relay's listener set. The result is the
    /// address the relay must start listening for, returned exactly on
    /// the activating transition.
    pub fn on_message_receive(
        &self,
        app: &mut Application,
        msg: &MessageWrapper,
        now_millis: u128,
    ) -> (r: Option<NetAddr>)
        requires
            old(app).wf(),
        ensures
            final(app).wf(),
            message_transition(*self, *old(app), *final(app), *msg, now_millis, r),
    {
        if msg.message_type != 1 {
            return None;
        }
        let c = match &msg.data {
            Some(c) => c,
            None => {
                return None;
            },
        };
        let address = match parse_socket_addr(c.ip.as_str(), c.port) {
            Some(a) => a,
            None => {
                return None;
            },
        };
        proof {
            assert(announces(*msg));
            assert(address == announced_addr(*msg));
        }
        if self.is_host() {
            match app.activate_session(self.podcast_id, address, now_millis) {
                Some(true) => Some(address),
                _ => None,
            }
        } else {
            app.add_listener(self.podcast_id, address);
            None
        }
    }

    /// On connection close. A listener's departure has no effect on the
    /// session. The host's departure tears the session down: every other
    /// participant registered on the session's signaling channel is owed
    /// exactly one close event with the host-disconnect reason, and the
    /// session leaves the registry. The caller delivers the returned
    /// events.
    pub fn on_disconnect(&self, app: &mut Application) -> (events: Vec<(u32, CloseConnectionEvent)>)
        requires
            old(app).wf(),
        ensures
            final(app).wf(),
            !self.spec_is_host() ==> *final(app) == *old(app) && events@.len() == 0,
            self.spec_is_host() && !old(app).contains_id(self.podcast_id)
                ==> *final(app) == *old(app) && events@.len() == 0,
            self.spec_is_host() && old(app).contains_id(self.podcast_id) ==> ({
                let pre = old(app).session(self.podcast_id);
                &&& !final(app).contains_id(self.podcast_id)
                &&& final(app).sessions@ == old(app).sessions@.remove(
                    old(app).index_of(self.podcast_id),
                )
                &&& forall|t: int|
                    0 <= t < events@.len() ==> (#[trigger] events@[t]).1 == (
                    CloseConnectionEvent { reason: HOST_DISCONNECT })
                &&& forall|t: int|
                    0 <= t < events@.len() ==> (#[trigger] events@[t]).0 != self.client_id
                        && pre.has_participant(events@[t].0)
                &&& forall|p: u32|
                    pre.has_participant(p) && p != self.client_id ==> exists|t: int|
                        0 <= t < events@.len() && (#[trigger] events@[t]).0 == p
                &&& forall|t1: int, t2: int|
                    0 <= t1 < t2 < events@.len() ==> events@[t1].0 != events@[t2].0
            }),
    {
        if !self.is_host() {
            return Vec::new();
        }
        let parts = match app.ws_participants(self.podcast_id) {
            Some(parts) => parts,
            None => {
                return Vec::new();
            },
        };
        let ghost pre = app.session(self.podcast_id);
        proof {
            assert(pre.wf());
        }
        let mut events: Vec<(u32, CloseConnectionEvent)> = Vec::new();
        let n = parts.len();
        let mut i: usize = 0;
        while i < n
            invariant
                n == parts@.len(),
                parts@ == pre.ws_clients@,
                forall|a: int, b: int| 0 <= a < b < n ==> parts@[a] != parts@[b],
                0 <= i <= n,
                forall|t: int|
                    0 <= t < events@.len() ==> (#[trigger] events@[t]).1 == (
                    CloseConnectionEvent { reason: HOST_DISCONNECT }),
                forall|t: int|
                    0 <= t < events@.len() ==> (#[trigger] events@[t]).0 != self.client_id
                        && parts@.subrange(0, i as int).contains(events@[t].0),
                forall|m: int|
                    0 <= m < i && parts@[m] != self.client_id ==> exists|t: int|
                        0 <= t < events@.len() && (#[trigger] events@[t]).0 == parts@[m],
                forall|t1: int, t2: int|
                    0 <= t1 < t2 < events@.len() ==> events@[t1].0 != events@[t2].0,
            decreases n - i,
        {
            let ghost ev0 = events@;
            let p = parts[i];
            if p != self.client_id {
                events.push((p, CloseConnectionEvent { reason: HOST_DISCONNECT }));
            }
            proof {
                assert forall|t: int|
                    0 <= t < events@.len() implies (#[trigger] events@[t]).0 != self.client_id
                        && parts@.subrange(0, i + 1).contains(events@[t].0) by {
                    if t < ev0.len() {
                        assert(ev0[t].0 != self.client_id);
                        let w = choose|w: int|
                            0 <= w < i && parts@.subrange(0, i as int)[w] == ev0[t].0;
                        assert(parts@.subrange(0, i + 1)[w] == ev0[t].0);
                    } else {
                        assert(events@[t].0 == parts@[i as int]);
                        assert(parts@.subrange(0, i + 1)[i as int] == parts@[i as int]);
                    }
                }
                assert forall|m: int|
                    0 <= m < i + 1 && parts@[m] != self.client_id implies exists|t: int|
                        0 <= t < events@.len() && (#[trigger] events@[t]).0 == parts@[m] by {
                    if m < i {
                        let w = choose|w: int|
                            0 <= w < ev0.len() && (#[trigger] ev0[w]).0 == parts@[m];
                        assert(events@[w].0 == parts@[m]);
                    } else {
                        assert(events@[ev0.len() as int].0 == parts@[i as int]);
                    }
                }
                assert forall|t1: int, t2: int|
                    0 <= t1 < t2 < events@.len() implies events@[t1].0 != events@[t2].0 by {
                    if t2 == events@.len() - 1 && events@.len() > ev0.len() {
                        let w = choose|w: int|
                            0 <= w < i && parts@.subrange(0, i as int)[w] == ev0[t1].0;
                        assert(parts@[w] == ev0[t1].0);
                        assert(parts@[w] != parts@[i as int]);
                    }
                }
            }
            i = i + 1;
        }
        proof {
            assert(parts@.subrange(0, n as int) =~= parts@);
        }
        app.remove_session(self.podcast_id);
        events
    }

    /// Snapshot of the session's record, as the registry holds it.
    pub fn get_podcast(&self, app: &Application) -> (r: Option<crate::podcast::PodcastData>)
        requires
            app.wf(),
        ensures
            r is Some <==> app.contains_id(self.podcast_id),
            r matches Some(d) ==> d == app.session(self.podcast_id).data,
    {
        app.session_data(self.podcast_id)
    }

    /// The UDP port of the session's relay, pushed to participants in the
    /// ready event.
    pub fn get_audio_server_port(&self, app: &Application) -> (r: Option<u16>)
        requires
            app.wf(),
        ensures
            r is Some <==> app.contains_id(self.podcast_id),
            r matches Some(p) ==> p == app.session(self.podcast_id).audio_server.port,
    {
        app.session_port(self.podcast_id)
    }
}

} // verus!
