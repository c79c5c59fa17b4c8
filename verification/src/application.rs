//! The session registry: the process-wide mapping from session id to live
//! session. It generates collision-free ids, keeps ids and relay ports
//! unique across live sessions, and carries every lifecycle transition:
//! creation, host activation, listener registration, removal. Callers that
//! share it across tasks wrap it in their own lock; every read or write of
//! a session's fields goes through these methods.

use vstd::prelude::*;
use crate::addr::NetAddr;
use crate::audio_server::AudioServer;
use crate::podcast::{Podcast, PodcastData};

verus! {

/// Relies on rand::random (the thread-local generator, as rand's docs
/// describe it) for fresh 32-bit values; nothing is assumed of their
/// distribution.
#[verifier::external_body]
fn random_u32() -> u32 {
    rand::random()
}

/// The values `f` takes on `[0, t)`.
spec fn image_of(f: spec_fn(int) -> int, t: int) -> Set<int> {
    Set::new(|v: int| exists|m: int| 0 <= m < t && #[trigger] f(m) == v)
}

/// An injective map has as many values on `[0, t)` as arguments.
proof fn lemma_image_card(f: spec_fn(int) -> int, t: int, k: int)
    requires
        0 <= t <= k,
        forall|m1: int, m2: int| 0 <= m1 < m2 < k ==> #[trigger] f(m1) != #[trigger] f(m2),
    ensures
        image_of(f, t).finite(),
        image_of(f, t).len() == t,
    decreases t,
{
    broadcast use vstd::set::axiom_set_insert_len;

    if t == 0 {
        assert(image_of(f, 0) =~= Set::<int>::empty());
    } else {
        lemma_image_card(f, t - 1, k);
        assert(image_of(f, t) =~= image_of(f, t - 1).insert(f(t - 1)));
        assert(!image_of(f, t - 1).contains(f(t - 1)));
    }
}

/// Pigeonhole: a map that is injective on `[0, k)` and lands in `[0, u)`
/// forces `k <= u`.
proof fn lemma_injective_bound(f: spec_fn(int) -> int, k: int, u: int)
    requires
        0 <= k,
        0 <= u,
        forall|m: int| 0 <= m < k ==> 0 <= #[trigger] f(m) < u,
        forall|m1: int, m2: int| 0 <= m1 < m2 < k ==> #[trigger] f(m1) != #[trigger] f(m2),
    ensures
        k <= u,
{
    lemma_image_card(f, k, k);
    vstd::set_lib::lemma_int_range(0, u);
    assert(image_of(f, k).subset_of(vstd::set_lib::set_int_range(0, u)));
    vstd::set_lib::lemma_len_subset(image_of(f, k), vstd::set_lib::set_int_range(0, u));
}

/// The registry of live sessions.
pub struct Application {
    pub sessions: Vec<Podcast>,
}

impl Application {
    /// Registry invariant: session ids are pairwise distinct, relay ports
    /// are pairwise distinct, and every session is well formed.
    pub open spec fn wf(self) -> bool {
        &&& forall|a: int, b: int|
            0 <= a < b < self.sessions@.len()
                ==> self.sessions@[a].data.id != self.sessions@[b].data.id
        &&& forall|a: int, b: int|
            0 <= a < b < self.sessions@.len()
                ==> self.sessions@[a].audio_server.port != self.sessions@[b].audio_server.port
        &&& forall|t: int| 0 <= t < self.sessions@.len() ==> (#[trigger] self.sessions@[t]).wf()
    }

    /// A live session carries this id.
    pub open spec fn contains_id(self, id: u32) -> bool {
        exists|t: int|
            0 <= t < self.sessions@.len() && (#[trigger] self.sessions@[t]).data.id == id
    }

    /// Index of the live session with this id.
    pub open spec fn index_of(self, id: u32) -> int {
        choose|t: int|
            0 <= t < self.sessions@.len() && (#[trigger] self.sessions@[t]).data.id == id
    }

    /// The live session with this id.
    pub open spec fn session(self, id: u32) -> Podcast {
        self.sessions@[self.index_of(id)]
    }

    /// Some live session has bound this relay port.
    pub open spec fn port_used(self, port: u16) -> bool {
        exists|t: int|
            0 <= t < self.sessions@.len()
                && (#[trigger] self.sessions@[t]).audio_server.port == port
    }

    /// Under the registry invariant, an id determines its session: any
    /// index holding `id` is `index_of(id)`.
    pub proof fn lemma_index_unique(self, id: u32, t: int)
        requires
            self.wf(),
            0 <= t < self.sessions@.len(),
            self.sessions@[t].data.id == id,
        ensures
            self.contains_id(id),
            self.index_of(id) == t,
    {
        assert(self.contains_id(id));
        let w = self.index_of(id);
        if w < t {
            assert(self.sessions@[w].data.id != self.sessions@[t].data.id);
        } else if w > t {
            assert(self.sessions@[t].data.id != self.sessions@[w].data.id);
        }
    }

    /// An empty registry.
    pub fn new() -> (app: Application)
        ensures
            app.sessions@.len() == 0,
            app.wf(),
    {
        Application { sessions: Vec::new() }
    }

    /// Index of the session with this id, if it is live.
    fn find_session(&self, id: u32) -> (r: Option<usize>)
        ensures
            r is Some <==> self.contains_id(id),
            r matches Some(t) ==> 0 <= t < self.sessions@.len()
                && self.sessions@[t as int].data.id == id,
            r matches Some(t) ==> self.wf() ==> t == self.index_of(id),
    {
        let n = self.sessions.len();
        let mut t: usize = 0;
        while t < n
            invariant
                n == self.sessions@.len(),
                0 <= t <= n,
                forall|m: int| 0 <= m < t ==> (#[trigger] self.sessions@[m]).data.id != id,
            decreases n - t,
        {
            if self.sessions[t].data.id == id {
                proof {
                    if self.wf() {
                        self.lemma_index_unique(id, t as int);
                    }
                }
                return Some(t);
            }
            t = t + 1;
        }
        None
    }

    /// A session with this id is live.
    pub fn contains_session(&self, id: u32) -> (b: bool)
        ensures
            b == self.contains_id(id),
    {
        self.find_session(id).is_some()
    }

    /// Port exclusivity: among concurrently live sessions, no two report
    /// the same bound relay port.
    pub proof fn lemma_port_exclusivity(self, a: int, b: int)
        requires
            self.wf(),
            0 <= a < self.sessions@.len(),
            0 <= b < self.sessions@.len(),
            a != b,
        ensures
            self.sessions@[a].audio_server.port != self.sessions@[b].audio_server.port,
    {
    }

    /// Distinct relay ports bound the registry's size: at most one live
    /// session per port of the 16-bit space.
    pub proof fn lemma_wf_len_bound(self)
        requires
            self.wf(),
        ensures
            self.sessions@.len() <= 65536,
    {
        let f = |m: int| self.sessions@[m].audio_server.port as int;
        assert forall|m: int|
            0 <= m < self.sessions@.len() implies 0 <= #[trigger] f(m) < 65536 by {}
        lemma_injective_bound(f, self.sessions@.len() as int, 65536);
    }

    /// An id that no live session carries. Collisions with existing ids
    /// are resampled a bounded number of times; if the generator never
    /// produces a fresh value, a sweep of the first `len + 1` ids finds
    /// one, which exists because live ids are distinct. Either way the
    /// result is fresh, whatever the generator returned.
    pub fn generate_id(&self) -> (id: u32)
        requires
            self.wf(),
        ensures
            !self.contains_id(id),
    {
        let mut fuel: u32 = 64;
        while fuel > 0
            decreases fuel,
        {
            let id = random_u32();
            if !self.contains_session(id) {
                return id;
            }
            fuel = fuel - 1;
        }
        proof {
            self.lemma_wf_len_bound();
        }
        let n = self.sessions.len();
        let mut c: usize = 0;
        while c <= n
            invariant
                self.wf(),
                n == self.sessions@.len(),
                n <= 65536,
                0 <= c <= n + 1,
                forall|m: int| 0 <= m < c ==> #[trigger] self.contains_id(m as u32),
            decreases n + 1 - c,
        {
            let id = c as u32;
            if !self.contains_session(id) {
                return id;
            }
            proof {
                assert forall|m: int| 0 <= m < c + 1 implies #[trigger] self.contains_id(m as u32) by {
                    if m == c {
                        assert(self.contains_id(c as u32));
                    }
                }
            }
            c = c + 1;
        }
        proof {
            let f = |m: int| self.index_of(m as u32);
            assert forall|m: int| 0 <= m < n + 1 implies 0 <= #[trigger] f(m) < n by {
                assert(self.contains_id(m as u32));
            }
            assert forall|m1: int, m2: int| 0 <= m1 < m2 < n + 1 implies #[trigger] f(m1) != #[trigger] f(m2) by {
                assert(self.contains_id(m1 as u32));
                assert(self.contains_id(m2 as u32));
                assert(self.sessions@[f(m1)].data.id == m1 as u32);
                assert(self.sessions@[f(m2)].data.id == m2 as u32);
                assert(m1 as u32 != m2 as u32);
            }
            lemma_injective_bound(f, n as int + 1, n as int);
            assert(false);
        }
        vstd::pervasive::unreached()
    }

    /// The relay ports bound by live sessions, one per session.
    pub fn used_ports(&self) -> (r: Vec<u16>)
        ensures
            r@.len() == self.sessions@.len(),
            forall|t: int|
                0 <= t < r@.len() ==> r@[t] == (#[trigger] self.sessions@[t]).audio_server.port,
            forall|p: u16| r@.contains(p) <==> self.port_used(p),
    {
        let n = self.sessions.len();
        let mut r: Vec<u16> = Vec::new();
        let mut t: usize = 0;
        while t < n
            invariant
                n == self.sessions@.len(),
                0 <= t <= n,
                r@.len() == t,
                forall|m: int|
                    0 <= m < t ==> r@[m] == (#[trigger] self.sessions@[m]).audio_server.port,
            decreases n - t,
        {
            r.push(self.sessions[t].audio_server.port);
            t = t + 1;
        }
        proof {
            assert forall|p: u16| r@.contains(p) implies self.port_used(p) by {
                let w = choose|w: int| 0 <= w < r@.len() && r@[w] == p;
                assert(self.sessions@[w].audio_server.port == p);
            }
            assert forall|p: u16| self.port_used(p) implies r@.contains(p) by {
                let w = choose|w: int|
                    0 <= w < self.sessions@.len()
                        && (#[trigger] self.sessions@[w]).audio_server.port == p;
                assert(r@[w] == p);
            }
        }
        r
    }

    /// A live session has bound this relay port.
    pub fn port_in_use(&self, port: u16) -> (b: bool)
        ensures
            b == self.port_used(port),
    {
        let n = self.sessions.len();
        let mut t: usize = 0;
        while t < n
            invariant
                n == self.sessions@.len(),
                0 <= t <= n,
                forall|m: int|
                    0 <= m < t ==> (#[trigger] self.sessions@[m]).audio_server.port != port,
            decreases n - t,
        {
            if self.sessions[t].audio_server.port == port {
                return true;
            }
            t = t + 1;
        }
        false
    }

    /// Insert a session under its own id. Fails, changing nothing, if the
    /// id or the relay port is already taken by a live session.
    pub fn add_session(&mut self, podcast: Podcast) -> (ok: bool)
        requires
            old(self).wf(),
            podcast.wf(),
        ensures
            final(self).wf(),
            ok <==> !old(self).contains_id(podcast.data.id)
                && !old(self).port_used(podcast.audio_server.port),
            ok ==> final(self).sessions@ == old(self).sessions@.push(podcast),
            !ok ==> *final(self) == *old(self),
    {
        if self.contains_session(podcast.data.id) {
            return false;
        }
        if self.port_in_use(podcast.audio_server.port) {
            return false;
        }
        proof {
            let s0 = self.sessions@;
            assert forall|a: int, b: int| 0 <= a < b < s0.len() + 1 implies
                s0.push(podcast)[a].data.id != s0.push(podcast)[b].data.id by {
                if b < s0.len() {
                } else {
                    assert(s0.push(podcast)[a] == s0[a]);
                    assert(!self.contains_id(podcast.data.id));
                }
            }
            assert forall|a: int, b: int| 0 <= a < b < s0.len() + 1 implies
                s0.push(podcast)[a].audio_server.port
                    != s0.push(podcast)[b].audio_server.port by {
                if b < s0.len() {
                } else {
                    assert(s0.push(podcast)[a] == s0[a]);
                    assert(!self.port_used(podcast.audio_server.port));
                }
            }
        }
        self.sessions.push(podcast);
        true
    }

    /// Create a session for `host` whose relay socket the caller has just
    /// bound to `port`: a fresh id, not yet activated. Fails, changing
    /// nothing, if a live session already holds `port`.
    pub fn create_session(&mut self, host: u32, port: u16) -> (r: Option<PodcastData>)
        requires
            old(self).wf(),
        ensures
            final(self).wf(),
            r is Some <==> !old(self).port_used(port),
            r is None ==> *final(self) == *old(self),
            r matches Some(data) ==> {
                &&& data.host == host
                &&& data.active_since is None
                &&& !old(self).contains_id(data.id)
                &&& final(self).contains_id(data.id)
                &&& final(self).sessions@ == old(self).sessions@.push(final(self).sessions@.last())
                &&& final(self).sessions@.last().data == data
                &&& final(self).sessions@.last().audio_server.port == port
                &&& final(self).sessions@.last().audio_server.host_address is None
                &&& final(self).sessions@.last().audio_server.clients@.len() == 0
                &&& final(self).sessions@.last().ws_clients@.len() == 0
            },
    {
        if self.port_in_use(port) {
            return None;
        }
        let id = self.generate_id();
        let data = PodcastData { id, active_since: None, host };
        let podcast = Podcast { data, audio_server: AudioServer::new(port), ws_clients: Vec::new() };
        let ok = self.add_session(podcast);
        assert(ok);
        Some(data)
    }

    /// Remove the session with this id, if it is live; removing an absent
    /// id changes nothing. The caller releases the relay socket it owns
    /// for the session as part of tearing it down.
    pub fn remove_session(&mut self, id: u32)
        requires
            old(self).wf(),
        ensures
            final(self).wf(),
            !final(self).contains_id(id),
            !old(self).contains_id(id) ==> *final(self) == *old(self),
            old(self).contains_id(id) ==> final(self).sessions@
                == old(self).sessions@.remove(old(self).index_of(id)),
    {
        match self.find_session(id) {
            None => {},
            Some(t) => {
                let ghost s0 = self.sessions@;
                self.sessions.remove(t);
                proof {
                    assert forall|m: int| 0 <= m < self.sessions@.len() implies
                        (#[trigger] self.sessions@[m]).data.id != id by {
                        if m < t {
                            assert(self.sessions@[m] == s0[m]);
                            if s0[m].data.id == id {
                                assert(s0[m].data.id != s0[t as int].data.id);
                            }
                        } else {
                            assert(self.sessions@[m] == s0[m + 1]);
                            if s0[m + 1].data.id == id {
                                assert(s0[t as int].data.id != s0[m + 1].data.id);
                            }
                        }
                    }
                }
            },
        }
    }

    /// Snapshot of every live session's record, for read-only enumeration.
    pub fn list_sessions(&self) -> (r: Vec<PodcastData>)
        ensures
            r@.len() == self.sessions@.len(),
            forall|t: int|
                0 <= t < r@.len() ==> r@[t] == (#[trigger] self.sessions@[t]).data,
    {
        let n = self.sessions.len();
        let mut r: Vec<PodcastData> = Vec::new();
        let mut t: usize = 0;
        while t < n
            invariant
                n == self.sessions@.len(),
                0 <= t <= n,
                r@.len() == t,
                forall|m: int| 0 <= m < t ==> r@[m] == (#[trigger] self.sessions@[m]).data,
            decreases n - t,
        {
            r.push(self.sessions[t].data);
            t = t + 1;
        }
        r
    }

    /// The record of the session with this id, or `None` if it is not
    /// live.
    pub fn session_data(&self, id: u32) -> (r: Option<PodcastData>)
        requires
            self.wf(),
        ensures
            r is Some <==> self.contains_id(id),
            r matches Some(d) ==> d == self.session(id).data,
    {
        match self.find_session(id) {
            Some(t) => Some(self.sessions[t].data),
            None => None,
        }
    }

    /// Replacing one session with a well-formed one that keeps its id and
    /// its relay port preserves the registry invariant.
    proof fn lemma_wf_update(pre: Application, post: Application, t: int)
        requires
            pre.wf(),
            0 <= t < pre.sessions@.len(),
            post.sessions@ == pre.sessions@.update(t, post.sessions@[t]),
            post.sessions@[t].data.id == pre.sessions@[t].data.id,
            post.sessions@[t].audio_server.port == pre.sessions@[t].audio_server.port,
            post.sessions@[t].wf(),
        ensures
            post.wf(),
    {
        assert forall|a: int, b: int| 0 <= a < b < post.sessions@.len() implies
            post.sessions@[a].data.id != post.sessions@[b].data.id by {
            assert(pre.sessions@[a].data.id != pre.sessions@[b].data.id);
        }
        assert forall|a: int, b: int| 0 <= a < b < post.sessions@.len() implies
            post.sessions@[a].audio_server.port != post.sessions@[b].audio_server.port by {
            assert(pre.sessions@[a].audio_server.port != pre.sessions@[b].audio_server.port);
        }
        assert forall|m: int| 0 <= m < post.sessions@.len() implies
            (#[trigger] post.sessions@[m]).wf() by {
            if m != t {
                assert(post.sessions@[m] == pre.sessions@[m]);
                assert(pre.sessions@[m].wf());
            }
        }
    }

    /// Host activation, atomic with respect to the registry: on the first
    /// host announcement, stamp `active_since` and register the host's
    /// relay address. `None`: no such session. `Some(true)`: the session
    /// was activated just now. `Some(false)`: it was already active and
    /// nothing changed, a later announcement being a no-op.
    pub fn activate_session(&mut self, id: u32, addr: NetAddr, now: u128) -> (r: Option<bool>)
        requires
            old(self).wf(),
        ensures
            final(self).wf(),
            r is Some <==> old(self).contains_id(id),
            r is None ==> *final(self) == *old(self),
            r matches Some(b) ==> b == (old(self).session(id).data.active_since is None),
            r == Some(false) ==> *final(self) == *old(self),
            r == Some(true) ==> ({
                let t = old(self).index_of(id);
                let pre = old(self).session(id);
                let post = final(self).sessions@[t];
                &&& final(self).sessions@ == old(self).sessions@.update(t, post)
                &&& post.data.id == pre.data.id
                &&& post.data.host == pre.data.host
                &&& post.data.active_since == Some(now)
                &&& post.audio_server.port == pre.audio_server.port
                &&& post.audio_server.host_address == Some(addr)
                &&& post.audio_server.clients == pre.audio_server.clients
                &&& post.ws_clients == pre.ws_clients
            }),
    {
        let t = match self.find_session(id) {
            None => {
                return None;
            },
            Some(t) => t,
        };
        if self.sessions[t].data.active_since.is_some() {
            return Some(false);
        }
        let ghost pre_app = *self;
        let p = &mut self.sessions[t];
        p.data.active_since = Some(now);
        p.audio_server.host_address = Some(addr);
        proof {
            Self::lemma_wf_update(pre_app, *self, t as int);
        }
        Some(true)
    }

    /// Register a listener's relay address with the session it announced
    /// itself for; an absent session means the announcement is dropped.
    pub fn add_listener(&mut self, id: u32, addr: NetAddr) -> (found: bool)
        requires
            old(self).wf(),
        ensures
            final(self).wf(),
            found <==> old(self).contains_id(id),
            !found ==> *final(self) == *old(self),
            found ==> ({
                let t = old(self).index_of(id);
                let pre = old(self).session(id);
                let post = final(self).sessions@[t];
                &&& final(self).sessions@ == old(self).sessions@.update(t, post)
                &&& post.data == pre.data
                &&& post.ws_clients == pre.ws_clients
                &&& post.audio_server.port == pre.audio_server.port
                &&& post.audio_server.host_address == pre.audio_server.host_address
                &&& post.audio_server.clients@ == (if pre.audio_server.has_client(addr) {
                    pre.audio_server.clients@
                } else {
                    pre.audio_server.clients@.push(addr)
                })
                &&& post.audio_server.has_client(addr)
            }),
    {
        let t = match self.find_session(id) {
            None => {
                return false;
            },
            Some(t) => t,
        };
        let ghost pre_app = *self;
        let p = &mut self.sessions[t];
        p.audio_server.add_client(addr);
        proof {
            Self::lemma_wf_update(pre_app, *self, t as int);
        }
        true
    }

    /// Record that a participant opened a signaling connection for this
    /// session; an absent session leaves the registry unchanged.
    pub fn register_participant(&mut self, id: u32, client: u32) -> (found: bool)
        requires
            old(self).wf(),
        ensures
            final(self).wf(),
            found <==> old(self).contains_id(id),
            !found ==> *final(self) == *old(self),
            found ==> ({
                let t = old(self).index_of(id);
                let pre = old(self).session(id);
                let post = final(self).sessions@[t];
                &&& final(self).sessions@ == old(self).sessions@.update(t, post)
                &&& post.data == pre.data
                &&& post.audio_server == pre.audio_server
                &&& post.ws_clients@ == (if pre.has_participant(client) {
                    pre.ws_clients@
                } else {
                    pre.ws_clients@.push(client)
                })
                &&& post.has_participant(client)
            }),
    {
        let t = match self.find_session(id) {
            None => {
                return false;
            },
            Some(t) => t,
        };
        let ghost pre_app = *self;
        let p = &mut self.sessions[t];
        p.register_participant(client);
        proof {
            Self::lemma_wf_update(pre_app, *self, t as int);
        }
        true
    }

    /// The relay port of the session with this id, if it is live.
    pub fn session_port(&self, id: u32) -> (r: Option<u16>)
        requires
            self.wf(),
        ensures
            r is Some <==> self.contains_id(id),
            r matches Some(p) ==> p == self.session(id).audio_server.port,
    {
        match self.find_session(id) {
            Some(t) => Some(self.sessions[t].audio_server.port),
            None => None,
        }
    }

    /// The participants currently registered on this session's signaling
    /// channel, if the session is live.
    pub fn ws_participants(&self, id: u32) -> (r: Option<Vec<u32>>)
        requires
            self.wf(),
        ensures
            r is Some <==> self.contains_id(id),
            r matches Some(v) ==> v@ == self.session(id).ws_clients@,
    {
        let t = match self.find_session(id) {
            None => {
                return None;
            },
            Some(t) => t,
        };
        let src = &self.sessions[t].ws_clients;
        let n = src.len();
        let mut out: Vec<u32> = Vec::new();
        let mut m: usize = 0;
        while m < n
            invariant
                0 <= m <= n,
                n == src@.len(),
                out@ =~= src@.subrange(0, m as int),
            decreases n - m,
        {
            out.push(src[m]);
            m = m + 1;
        }
        assert(out@ =~= src@);
        Some(out)
    }

    /// The forwarding decision for one datagram, looked up by session: the
    /// listener snapshot if `src` is exactly the session's registered host
    /// address, `None` if the sender does not match or the session is
    /// gone.
    pub fn relay_targets(&self, id: u32, src: NetAddr) -> (r: Option<Vec<NetAddr>>)
        requires
            self.wf(),
        ensures
            r is Some <==> self.contains_id(id)
                && self.session(id).audio_server.host_address == Some(src),
            r matches Some(v) ==> v@ == self.session(id).audio_server.clients@,
    {
        match self.find_session(id) {
            Some(t) => self.sessions[t].audio_server.forward_targets(src),
            None => None,
        }
    }

    /// What the watchdog polls: `None` if the session is gone, otherwise
    /// whether its host has activated it.
    pub fn is_host_connected(&self, id: u32) -> (r: Option<bool>)
        requires
            self.wf(),
        ensures
            r is Some <==> self.contains_id(id),
            r matches Some(b) ==> b == (self.session(id).data.active_since is Some),
    {
        match self.find_session(id) {
            Some(t) => Some(self.sessions[t].data.active_since.is_some()),
            None => None,
        }
    }
}

} // verus!
