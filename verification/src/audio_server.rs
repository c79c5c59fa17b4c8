//! Per-session relay state: the bound UDP port, the authenticated host
//! address, and the listener address set, together with the rules that
//! decide which datagrams are forwarded and to whom. The socket itself and
//! the receive loop live outside the library; they consult
//! [`AudioServer::forward_targets`] for every datagram.

use vstd::prelude::*;
use crate::addr::NetAddr;

verus! {

/// First port (inclusive) of the relay port range.
pub const PORT_RANGE_START: u16 = 42000;

/// End (exclusive) of the relay port range.
pub const PORT_RANGE_END: u16 = 42100;

/// Relay state for one session. The socket bound to `port` is owned by the
/// caller; forwarding begins only once `host_address` is set.
pub struct AudioServer {
    /// Local UDP port the session's socket is bound to.
    pub port: u16,
    /// UDP socket address of the host; set at most once, at activation.
    pub host_address: Option<NetAddr>,
    /// UDP socket addresses of the listeners; grows by insertion only.
    pub clients: Vec<NetAddr>,
}

impl AudioServer {
    /// The listener set holds each address once.
    pub open spec fn wf(self) -> bool {
        forall|a: int, b: int|
            0 <= a < b < self.clients@.len() ==> self.clients@[a] != self.clients@[b]
    }

    /// The relay knows `addr` as a listener.
    pub open spec fn has_client(self, addr: NetAddr) -> bool {
        self.clients@.contains(addr)
    }

    /// Fresh relay state for a socket bound to `port`: no host yet, no
    /// listeners yet.
    pub fn new(port: u16) -> (s: AudioServer)
        ensures
            s.port == port,
            s.host_address is None,
            s.clients@ =~= Seq::<NetAddr>::empty(),
            s.wf(),
    {
        AudioServer { port, host_address: None, clients: Vec::new() }
    }

    /// Insert a listener address; a re-announcement of a known address
    /// changes nothing.
    pub fn add_client(&mut self, addr: NetAddr)
        requires
            old(self).wf(),
        ensures
            final(self).wf(),
            final(self).port == old(self).port,
            final(self).host_address == old(self).host_address,
            final(self).clients@ == if old(self).has_client(addr) {
                old(self).clients@
            } else {
                old(self).clients@.push(addr)
            },
            final(self).has_client(addr),
    {
        let mut t: usize = 0;
        let n = self.clients.len();
        while t < n
            invariant
                *self == *old(self),
                self.wf(),
                n == self.clients@.len(),
                0 <= t <= n,
                forall|m: int| 0 <= m < t ==> self.clients@[m] != addr,
            decreases n - t,
        {
            if self.clients[t] == addr {
                assert(self.clients@.contains(addr));
                return ;
            }
            t = t + 1;
        }
        assert(!self.clients@.contains(addr));
        self.clients.push(addr);
        assert(self.clients@.last() == addr);
        assert(self.has_client(addr));
    }

    /// Decide what to do with a datagram from `src`: forward a copy to every
    /// listener when `src` is exactly the registered host address, drop it
    /// otherwise. The returned snapshot holds each listener exactly once.
    pub fn forward_targets(&self, src: NetAddr) -> (r: Option<Vec<NetAddr>>)
        ensures
            r is Some <==> self.host_address == Some(src),
            r matches Some(v) ==> v@ == self.clients@,
    {
        match self.host_address {
            Some(h) => {
                if h == src {
                    let mut out: Vec<NetAddr> = Vec::new();
                    let mut t: usize = 0;
                    let n = self.clients.len();
                    while t < n
                        invariant
                            n == self.clients@.len(),
                            0 <= t <= n,
                            out@ =~= self.clients@.subrange(0, t as int),
                        decreases n - t,
                    {
                        out.push(self.clients[t]);
                        t = t + 1;
                    }
                    assert(out@ =~= self.clients@);
                    Some(out)
                } else {
                    None
                }
            },
            None => None,
        }
    }
}

/// Fan-out completeness: the forwarding plan for a valid host datagram
/// names every registered listener, and names each exactly once — one
/// copy per listener, whatever happens to the other sends.
pub proof fn lemma_fanout_exactly_once(s: AudioServer, targets: Seq<NetAddr>, listener: NetAddr)
    requires
        s.wf(),
        targets == s.clients@,
        s.has_client(listener),
    ensures
        exists|t: int| 0 <= t < targets.len() && targets[t] == listener,
        forall|t1: int, t2: int|
            0 <= t1 < t2 < targets.len() ==> !(targets[t1] == listener && targets[t2]
                == listener),
{
}

/// The relay ports that a new session may try to bind, in ascending order:
/// every port of the fixed range that no live session has bound. The caller
/// binds them in order and keeps the first that succeeds; an empty result
/// means the range is exhausted and session creation must fail.
pub fn candidate_ports(used_ports: &Vec<u16>) -> (r: Vec<u16>)
    ensures
        forall|a: int, b: int| 0 <= a < b < r@.len() ==> r@[a] < r@[b],
        forall|t: int|
            0 <= t < r@.len() ==> PORT_RANGE_START <= #[trigger] r@[t] < PORT_RANGE_END
                && !used_ports@.contains(r@[t]),
        forall|p: u16|
            PORT_RANGE_START <= p < PORT_RANGE_END && !used_ports@.contains(p)
                ==> r@.contains(p),
{
    let mut r: Vec<u16> = Vec::new();
    let mut port: u16 = PORT_RANGE_START;
    while port < PORT_RANGE_END
        invariant
            PORT_RANGE_START <= port <= PORT_RANGE_END,
            forall|a: int, b: int| 0 <= a < b < r@.len() ==> r@[a] < r@[b],
            forall|t: int|
                0 <= t < r@.len() ==> PORT_RANGE_START <= #[trigger] r@[t] < port
                    && !used_ports@.contains(r@[t]),
            forall|p: u16|
                PORT_RANGE_START <= p < port && !used_ports@.contains(p) ==> r@.contains(p),
        decreases PORT_RANGE_END - port,
    {
        let ghost r0 = r@;
        let pushed = !contains_port(used_ports, port);
        if pushed {
            r.push(port);
        }
        proof {
            assert forall|p: u16|
                PORT_RANGE_START <= p < port + 1 && !used_ports@.contains(p)
                    implies r@.contains(p) by {
                if p < port {
                    assert(r0.contains(p));
                    let w = choose|w: int| 0 <= w < r0.len() && r0[w] == p;
                    assert(r@[w] == p);
                } else {
                    assert(r@.last() == port);
                }
            }
        }
        port = port + 1;
    }
    r
}

/// Linear membership test on a port list.
fn contains_port(v: &Vec<u16>, x: u16) -> (b: bool)
    ensures
        b == v@.contains(x),
{
    let mut t: usize = 0;
    let n = v.len();
    while t < n
        invariant
            n == v@.len(),
            0 <= t <= n,
            forall|m: int| 0 <= m < t ==> v@[m] != x,
        decreases n - t,
    {
        if v[t] == x {
            assert(v@.contains(x));
            return true;
        }
        t = t + 1;
    }
    assert(!v@.contains(x));
    false
}

} // verus!
