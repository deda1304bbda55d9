//! The backend-agnostic transport model: a bound local endpoint that
//! connects outward, accepts inbound connections in two phases, opens
//! byte-stream channels on each connection, and closes with a cascade —
//! closing an endpoint closes every connection and channel it produced,
//! and every operation on something closed fails with an error rather
//! than hanging.
//!
//! Asynchronous suspension is outside what the verified core can hold;
//! the model is the synchronous state machine underneath: each operation
//! is one state transition with an exact contract, inbound traffic is
//! fed in as events, and the two-phase accept ("an attempt was accepted,
//! its handshake begun" / "the object is ready") is kept as two
//! distinguishable steps with a handshake token between them.

use vstd::prelude::*;

use crate::error::{KitsuneError, KitsuneResult};
use crate::timeout::KitsuneTimeout;

verus! {

/// An opaque, transport-defined address: a bindable local point or a
/// connectable remote point.  The core assumes no internal structure.
#[derive(Clone, Debug, PartialEq, Eq)]
pub struct TxUrl(pub String);

impl View for TxUrl {
    type V = Seq<char>;

    open spec fn view(&self) -> Seq<char> {
        self.0@
    }
}

/// Model of a channel: one directional, ordered byte stream scoped to a
/// connection.
#[verifier::ext_equal]
pub struct ChanView {
    pub closed: bool,
    pub buf: Seq<u8>,
}

/// Model of a connection: one open logical link to exactly one remote
/// address, its channels, and the inbound channels accepted but not yet
/// completed.
#[verifier::ext_equal]
pub struct ConView {
    pub closed: bool,
    pub remote: Seq<char>,
    pub chans: Seq<ChanView>,
    pub pending_chans: nat,
}

/// Model of an endpoint: the local address, the connections it owns, and
/// the inbound connection attempts not yet accepted.
#[verifier::ext_equal]
pub struct EndpointView {
    pub closed: bool,
    pub local: Seq<char>,
    pub cons: Seq<ConView>,
    pub pending_cons: Seq<Seq<char>>,
}

/// A channel as a closed channel: nothing but the flag changes — bytes
/// already buffered are not lost, they are merely unreachable through a
/// closed channel.
pub open spec fn chan_closed_version(c: ChanView) -> ChanView {
    ChanView { closed: true, buf: c.buf }
}

/// A connection as a closed connection: itself closed, every channel
/// closed, no pending inbound channels.
pub open spec fn con_closed_version(c: ConView) -> ConView {
    ConView {
        closed: true,
        remote: c.remote,
        chans: c.chans.map_values(|ch: ChanView| chan_closed_version(ch)),
        pending_chans: 0,
    }
}

/// An endpoint as a closed endpoint: itself closed, every connection
/// closed (transitively, every channel), nothing pending.
pub open spec fn ep_closed_version(e: EndpointView) -> EndpointView {
    EndpointView {
        closed: true,
        local: e.local,
        cons: e.cons.map_values(|c: ConView| con_closed_version(c)),
        pending_cons: Seq::empty(),
    }
}

/// Connection invariant: a closed connection has no open channel and no
/// pending inbound channel.
pub open spec fn con_wf(c: ConView) -> bool {
    c.closed ==> c.pending_chans == 0 && forall|j: int|
        0 <= j < c.chans.len() ==> (#[trigger] c.chans[j]).closed
}

/// Endpoint invariant: every connection satisfies its invariant, and a
/// closed endpoint has no open connection and nothing pending — closing
/// cascades, transitively.
pub open spec fn ep_wf(e: EndpointView) -> bool {
    (forall|i: int| 0 <= i < e.cons.len() ==> con_wf(#[trigger] e.cons[i])) && (e.closed
        ==> e.pending_cons.len() == 0 && forall|i: int|
        0 <= i < e.cons.len() ==> (#[trigger] e.cons[i]).closed)
}

/// The close cascade, stated once: the closed version of any endpoint is
/// closed, has nothing pending, every connection closed with nothing
/// pending, every channel closed — and it satisfies the endpoint
/// invariant.
pub proof fn lemma_close_cascade(e: EndpointView)
    ensures
        ep_closed_version(e).closed,
        ep_closed_version(e).pending_cons.len() == 0,
        ep_closed_version(e).cons.len() == e.cons.len(),
        forall|i: int|
            0 <= i < e.cons.len() ==> (#[trigger] ep_closed_version(e).cons[i]).closed
                && ep_closed_version(e).cons[i].pending_chans == 0,
        forall|i: int, j: int|
            0 <= i < e.cons.len() && 0 <= j < e.cons[i].chans.len() ==> (
            #[trigger] ep_closed_version(e).cons[i].chans[j]).closed,
        ep_wf(ep_closed_version(e)),
{
    assert forall|i: int| 0 <= i < e.cons.len() implies (
    #[trigger] ep_closed_version(e).cons[i]).closed && ep_closed_version(e).cons[i].pending_chans
        == 0 && con_wf(ep_closed_version(e).cons[i]) by {
        assert(ep_closed_version(e).cons[i] == con_closed_version(e.cons[i]));
    }
}

/// A handshake token from the first phase of accepting an inbound
/// connection: the attempt is accepted, the connection is not yet ready.
#[derive(Debug)]
pub struct Handshake {
    pub remote: TxUrl,
}

/// A handshake token from the first phase of accepting an inbound
/// channel on connection `con`.
#[derive(Debug)]
pub struct ChanHandshake {
    pub con: usize,
}

/// A channel: a directional, ordered byte stream.  Writes append;
/// reads drain, in order.
#[derive(Debug)]
pub struct Channel {
    closed: bool,
    buf: Vec<u8>,
}

impl View for Channel {
    type V = ChanView;

    closed spec fn view(&self) -> ChanView {
        ChanView { closed: self.closed, buf: self.buf@ }
    }
}

/// A connection: one open logical link to exactly one remote address.
#[derive(Debug)]
pub struct Connection {
    closed: bool,
    remote: TxUrl,
    chans: Vec<Channel>,
    pending_chans: usize,
}

impl View for Connection {
    type V = ConView;

    closed spec fn view(&self) -> ConView {
        ConView {
            closed: self.closed,
            remote: self.remote@,
            chans: self.chans@.map_values(|c: Channel| c@),
            pending_chans: self.pending_chans as nat,
        }
    }
}

/// A bound local endpoint: the only entry point to the transport.  It
/// owns its connections and channels (they are addressed by index), so
/// the close cascade is structural.
#[derive(Debug)]
pub struct Endpoint {
    closed: bool,
    local: TxUrl,
    cons: Vec<Connection>,
    pending_cons: Vec<TxUrl>,
}

impl View for Endpoint {
    type V = EndpointView;

    closed spec fn view(&self) -> EndpointView {
        EndpointView {
            closed: self.closed,
            local: self.local@,
            cons: self.cons@.map_values(|c: Connection| c@),
            pending_cons: self.pending_cons@.map_values(|u: TxUrl| u@),
        }
    }
}

impl Endpoint {
    /// The endpoint invariant, over the model.
    pub open spec fn wf(&self) -> bool {
        ep_wf(self@)
    }

    /// Bind a local endpoint: the only way to obtain one.  Fails only
    /// when the deadline has already expired; the fresh endpoint is
    /// open, bound to `url`, with no connections and nothing pending.
    pub fn bind(url: TxUrl, timeout: KitsuneTimeout) -> (r: KitsuneResult<Endpoint>)
        ensures
            r matches Ok(ep) ==> ep.wf() && !ep@.closed && ep@.local == url@ && ep@.cons.len() == 0
                && ep@.pending_cons.len() == 0,
            r matches Err(e) ==> e == KitsuneError::TimedOut,
    {
        if timeout.is_expired() {
            return Err(KitsuneError::TimedOut);
        }
        let ep = Endpoint { closed: false, local: url, cons: Vec::new(), pending_cons: Vec::new() };
        assert(ep@.cons =~= Seq::<ConView>::empty());
        assert(ep@.pending_cons =~= Seq::<Seq<char>>::empty());
        Ok(ep)
    }

    /// The local address; fails iff the endpoint is closed.
    pub fn local_addr(&self) -> (r: KitsuneResult<TxUrl>)
        ensures
            self@.closed ==> r == Err::<TxUrl, KitsuneError>(KitsuneError::Closed),
            !self@.closed ==> (r matches Ok(u) && u@ == self@.local),
    {
        if self.closed {
            Err(KitsuneError::Closed)
        } else {
            Ok(TxUrl(self.local.0.clone()))
        }
    }
}

} // verus!

verus! {

/// Close one channel in place; its buffered bytes are untouched.
fn close_chan_inner(ch: &mut Channel)
    ensures
        final(ch)@ == chan_closed_version(old(ch)@),
{
    ch.closed = true;
}

/// Close one connection in place: the connection, all of its channels,
/// and anything pending on it.
fn close_con_inner(c: &mut Connection)
    ensures
        final(c)@ == con_closed_version(old(c)@),
{
    c.closed = true;
    c.pending_chans = 0;
    let n = c.chans.len();
    let mut j: usize = 0;
    while j < n
        invariant
            j <= n,
            n == c.chans@.len(),
            c.chans@.len() == old(c).chans@.len(),
            c.closed == true,
            c.pending_chans == 0,
            c.remote == old(c).remote,
            forall|k: int| 0 <= k < j ==> c.chans@[k]@ == chan_closed_version(old(c).chans@[k]@),
            forall|k: int| j <= k < n ==> c.chans@[k] == old(c).chans@[k],
        decreases n - j,
    {
        close_chan_inner(&mut c.chans[j]);
        j = j + 1;
    }
    assert(final(c)@.chans =~= con_closed_version(old(c)@).chans);
}

impl Endpoint {
    /// Open a new outbound connection to `url`.  Fails with `Closed` iff
    /// the endpoint is closed, with `TimedOut` only when the deadline
    /// decides; on success the new connection is open, addressed by the
    /// returned index, and nothing else changed.
    pub fn connect(&mut self, url: TxUrl, timeout: KitsuneTimeout) -> (r: KitsuneResult<usize>)
        requires
            old(self).wf(),
        ensures
            final(self).wf(),
            old(self)@.closed ==> r == Err::<usize, KitsuneError>(KitsuneError::Closed),
            r matches Err(e) ==> (e == KitsuneError::Closed || e == KitsuneError::TimedOut)
                && final(self)@ == old(self)@,
            !old(self)@.closed ==> (r matches Err(e) ==> e == KitsuneError::TimedOut),
            r matches Ok(id) ==> !old(self)@.closed && id == old(self)@.cons.len() && final(self)@
                == (EndpointView {
                cons: old(self)@.cons.push(
                    ConView { closed: false, remote: url@, chans: Seq::empty(), pending_chans: 0 },
                ),
                ..old(self)@
            }),
    {
        if self.closed {
            return Err(KitsuneError::Closed);
        }
        if timeout.is_expired() {
            return Err(KitsuneError::TimedOut);
        }
        let id = self.cons.len();
        let fresh = Connection { closed: false, remote: url, chans: Vec::new(), pending_chans: 0 };
        assert(fresh@.chans =~= Seq::<ChanView>::empty());
        self.cons.push(fresh);
        assert(self@.cons =~= old(self)@.cons.push(fresh@));
        assert(self@.pending_cons =~= old(self)@.pending_cons);
        Ok(id)
    }

    /// Close the endpoint and, in cascade, every connection and channel
    /// it owns; always completes, never fails outward, and closing an
    /// already-closed endpoint changes nothing.
    pub fn close(&mut self)
        requires
            old(self).wf(),
        ensures
            final(self).wf(),
            final(self)@ == ep_closed_version(old(self)@),
            old(self)@.closed ==> final(self)@ == old(self)@,
    {
        proof {
            lemma_close_cascade(old(self)@);
        }
        self.closed = true;
        self.pending_cons.clear();
        let n = self.cons.len();
        let mut i: usize = 0;
        while i < n
            invariant
                i <= n,
                n == self.cons@.len(),
                self.cons@.len() == old(self).cons@.len(),
                self.closed == true,
                self.pending_cons@.len() == 0,
                self.local == old(self).local,
                forall|k: int|
                    0 <= k < i ==> self.cons@[k]@ == con_closed_version(old(self).cons@[k]@),
                forall|k: int| i <= k < n ==> self.cons@[k] == old(self).cons@[k],
            decreases n - i,
        {
            close_con_inner(&mut self.cons[i]);
            i = i + 1;
        }
        assert(final(self)@.cons =~= ep_closed_version(old(self)@).cons);
        assert(final(self)@.pending_cons =~= Seq::<Seq<char>>::empty());
        proof {
            if old(self)@.closed {
                assert forall|k: int| 0 <= k < old(self)@.cons.len() implies con_closed_version(
                    old(self)@.cons[k],
                ) == old(self)@.cons[k] by {
                    let c = old(self)@.cons[k];
                    assert(con_wf(c) && c.closed);
                    assert(c.chans.map_values(|ch: ChanView| chan_closed_version(ch)) =~= c.chans);
                }
                assert(ep_closed_version(old(self)@).cons =~= old(self)@.cons);
                assert(ep_closed_version(old(self)@).pending_cons =~= old(self)@.pending_cons);
            }
        }
    }

    /// Close one connection and, in cascade, its channels; the other
    /// connections and the endpoint itself are untouched.  Closing an
    /// already-closed connection changes nothing.
    pub fn close_con(&mut self, con: usize)
        requires
            old(self).wf(),
            con < old(self)@.cons.len(),
        ensures
            final(self).wf(),
            final(self)@ == (EndpointView {
                cons: old(self)@.cons.update(
                    con as int,
                    con_closed_version(old(self)@.cons[con as int]),
                ),
                ..old(self)@
            }),
            old(self)@.cons[con as int].closed ==> final(self)@ == old(self)@,
    {
        close_con_inner(&mut self.cons[con]);
        assert(final(self)@.cons =~= old(self)@.cons.update(
            con as int,
            con_closed_version(old(self)@.cons[con as int]),
        ));
        assert(final(self)@.pending_cons =~= old(self)@.pending_cons);
        proof {
            if old(self)@.cons[con as int].closed {
                let c = old(self)@.cons[con as int];
                assert(con_wf(c));
                assert(c.chans.map_values(|ch: ChanView| chan_closed_version(ch)) =~= c.chans);
                assert(final(self)@.cons =~= old(self)@.cons);
            }
        }
    }
}

} // verus!

verus! {

impl Endpoint {
    /// The remote address of connection `con`; a capability read, always
    /// available while the connection exists.
    pub fn remote_addr(&self, con: usize) -> (r: KitsuneResult<TxUrl>)
        requires
            con < self@.cons.len(),
        ensures
            r matches Ok(u) && u@ == self@.cons[con as int].remote,
    {
        Ok(TxUrl(self.cons[con].remote.0.clone()))
    }

    /// Open a new outbound channel on connection `con`.  Fails with
    /// `Closed` iff the endpoint or the connection is closed, with
    /// `TimedOut` only when the deadline decides; on success the new
    /// channel is open and empty, addressed by the returned index, and
    /// nothing else changed.
    pub fn out_chan(&mut self, con: usize, timeout: KitsuneTimeout) -> (r: KitsuneResult<usize>)
        requires
            old(self).wf(),
            con < old(self)@.cons.len(),
        ensures
            final(self).wf(),
            old(self)@.closed || old(self)@.cons[con as int].closed ==> r == Err::<
                usize,
                KitsuneError,
            >(KitsuneError::Closed),
            r matches Err(e) ==> (e == KitsuneError::Closed || e == KitsuneError::TimedOut)
                && final(self)@ == old(self)@,
            !old(self)@.closed && !old(self)@.cons[con as int].closed ==> (r matches Err(e) ==> e
                == KitsuneError::TimedOut),
            r matches Ok(id) ==> !old(self)@.closed && !old(self)@.cons[con as int].closed && id
                == old(self)@.cons[con as int].chans.len() && final(self)@ == (EndpointView {
                cons: old(self)@.cons.update(
                    con as int,
                    ConView {
                        chans: old(self)@.cons[con as int].chans.push(
                            ChanView { closed: false, buf: Seq::empty() },
                        ),
                        ..old(self)@.cons[con as int]
                    },
                ),
                ..old(self)@
            }),
    {
        if self.closed {
            return Err(KitsuneError::Closed);
        }
        let con_closed = self.cons[con].closed;
        if con_closed {
            return Err(KitsuneError::Closed);
        }
        if timeout.is_expired() {
            return Err(KitsuneError::TimedOut);
        }
        let c = &mut self.cons[con];
        let id = c.chans.len();
        let fresh = Channel { closed: false, buf: Vec::new() };
        assert(fresh@ == (ChanView { closed: false, buf: Seq::<u8>::empty() }));
        c.chans.push(fresh);
        assert(final(self)@ =~~= (EndpointView {
            cons: old(self)@.cons.update(
                con as int,
                ConView {
                    chans: old(self)@.cons[con as int].chans.push(
                        ChanView { closed: false, buf: Seq::empty() },
                    ),
                    ..old(self)@.cons[con as int]
                },
            ),
            ..old(self)@
        }));
        Ok(id)
    }

    /// Append `data` to channel `chan` of connection `con`, preserving
    /// byte order.  Fails with `Closed` iff the endpoint, the connection
    /// or the channel is closed — a write on anything closed terminates
    /// with an error, never hangs; otherwise it succeeds.
    pub fn chan_write(&mut self, con: usize, chan: usize, data: &Vec<u8>) -> (r: KitsuneResult<()>)
        requires
            old(self).wf(),
            con < old(self)@.cons.len(),
            chan < old(self)@.cons[con as int].chans.len(),
        ensures
            final(self).wf(),
            old(self)@.closed || old(self)@.cons[con as int].closed || old(self)@.cons[
                con as int
            ].chans[chan as int].closed <==> r == Err::<(), KitsuneError>(KitsuneError::Closed),
            r matches Err(e) ==> e == KitsuneError::Closed && final(self)@ == old(self)@,
            r matches Ok(_) ==> final(self)@ == (EndpointView {
                cons: old(self)@.cons.update(
                    con as int,
                    ConView {
                        chans: old(self)@.cons[con as int].chans.update(
                            chan as int,
                            ChanView {
                                closed: false,
                                buf: old(self)@.cons[con as int].chans[chan as int].buf + data@,
                            },
                        ),
                        ..old(self)@.cons[con as int]
                    },
                ),
                ..old(self)@
            }),
    {
        if self.closed {
            return Err(KitsuneError::Closed);
        }
        let con_closed = self.cons[con].closed;
        if con_closed {
            return Err(KitsuneError::Closed);
        }
        let chan_closed = self.cons[con].chans[chan].closed;
        if chan_closed {
            return Err(KitsuneError::Closed);
        }
        let c = &mut self.cons[con];
        let ch = &mut c.chans[chan];
        ch.buf.extend_from_slice(data.as_slice());
        assert(ch.buf@ =~= old(self)@.cons[con as int].chans[chan as int].buf + data@);
        assert(final(self)@ =~~= (EndpointView {
            cons: old(self)@.cons.update(
                con as int,
                ConView {
                    chans: old(self)@.cons[con as int].chans.update(
                        chan as int,
                        ChanView {
                            closed: false,
                            buf: old(self)@.cons[con as int].chans[chan as int].buf + data@,
                        },
                    ),
                    ..old(self)@.cons[con as int]
                },
            ),
            ..old(self)@
        }));
        Ok(())
    }

    /// Drain channel `chan` of connection `con`: the bytes buffered so
    /// far, in the order they were written.  Fails with `Closed` iff the
    /// endpoint, the connection or the channel is closed — a read on
    /// anything closed terminates with an error, never hangs.
    pub fn chan_read(&mut self, con: usize, chan: usize) -> (r: KitsuneResult<Vec<u8>>)
        requires
            old(self).wf(),
            con < old(self)@.cons.len(),
            chan < old(self)@.cons[con as int].chans.len(),
        ensures
            final(self).wf(),
            old(self)@.closed || old(self)@.cons[con as int].closed || old(self)@.cons[
                con as int
            ].chans[chan as int].closed <==> (r matches Err(e) && e == KitsuneError::Closed),
            r matches Err(e) ==> e == KitsuneError::Closed && final(self)@ == old(self)@,
            r matches Ok(b) ==> b@ == old(self)@.cons[con as int].chans[chan as int].buf
                && final(self)@ == (EndpointView {
                cons: old(self)@.cons.update(
                    con as int,
                    ConView {
                        chans: old(self)@.cons[con as int].chans.update(
                            chan as int,
                            ChanView { closed: false, buf: Seq::empty() },
                        ),
                        ..old(self)@.cons[con as int]
                    },
                ),
                ..old(self)@
            }),
    {
        if self.closed {
            return Err(KitsuneError::Closed);
        }
        let con_closed = self.cons[con].closed;
        if con_closed {
            return Err(KitsuneError::Closed);
        }
        let chan_closed = self.cons[con].chans[chan].closed;
        if chan_closed {
            return Err(KitsuneError::Closed);
        }
        let c = &mut self.cons[con];
        let ch = &mut c.chans[chan];
        let out = ch.buf.clone();
        assert(out@ =~= old(self)@.cons[con as int].chans[chan as int].buf);
        ch.buf.clear();
        assert(final(self)@ =~~= (EndpointView {
            cons: old(self)@.cons.update(
                con as int,
                ConView {
                    chans: old(self)@.cons[con as int].chans.update(
                        chan as int,
                        ChanView { closed: false, buf: Seq::empty() },
                    ),
                    ..old(self)@.cons[con as int]
                },
            ),
            ..old(self)@
        }));
        Ok(out)
    }

    /// Close one channel; its connection, its siblings and the endpoint
    /// are untouched, and closing an already-closed channel changes
    /// nothing.
    pub fn close_chan(&mut self, con: usize, chan: usize)
        requires
            old(self).wf(),
            con < old(self)@.cons.len(),
            chan < old(self)@.cons[con as int].chans.len(),
        ensures
            final(self).wf(),
            final(self)@ == (EndpointView {
                cons: old(self)@.cons.update(
                    con as int,
                    ConView {
                        chans: old(self)@.cons[con as int].chans.update(
                            chan as int,
                            chan_closed_version(old(self)@.cons[con as int].chans[chan as int]),
                        ),
                        ..old(self)@.cons[con as int]
                    },
                ),
                ..old(self)@
            }),
            old(self)@.cons[con as int].chans[chan as int].closed ==> final(self)@ == old(self)@,
    {
        let c = &mut self.cons[con];
        close_chan_inner(&mut c.chans[chan]);
        assert(final(self)@ =~~= (EndpointView {
            cons: old(self)@.cons.update(
                con as int,
                ConView {
                    chans: old(self)@.cons[con as int].chans.update(
                        chan as int,
                        chan_closed_version(old(self)@.cons[con as int].chans[chan as int]),
                    ),
                    ..old(self)@.cons[con as int]
                },
            ),
            ..old(self)@
        }));
        proof {
            if old(self)@.cons[con as int].chans[chan as int].closed {
                assert(final(self)@ =~~= old(self)@);
            }
        }
    }
}

} // verus!

verus! {

impl Endpoint {
    /// An inbound connection attempt arrives from `remote`: the event a
    /// backend driver feeds in.  Fails with `Closed` iff the endpoint is
    /// closed; otherwise the attempt queues up for the two-phase accept.
    pub fn push_incoming_connection(&mut self, remote: TxUrl) -> (r: KitsuneResult<()>)
        requires
            old(self).wf(),
        ensures
            final(self).wf(),
            old(self)@.closed <==> r == Err::<(), KitsuneError>(KitsuneError::Closed),
            r matches Err(_) ==> final(self)@ == old(self)@,
            r matches Ok(_) ==> final(self)@ == (EndpointView {
                pending_cons: old(self)@.pending_cons.push(remote@),
                ..old(self)@
            }),
    {
        if self.closed {
            return Err(KitsuneError::Closed);
        }
        self.pending_cons.push(remote);
        assert(final(self)@ =~~= (EndpointView {
            pending_cons: old(self)@.pending_cons.push(remote@),
            ..old(self)@
        }));
        Ok(())
    }

    /// First phase of accepting an inbound connection: take up the oldest
    /// pending attempt and begin its handshake.  On a closed endpoint it
    /// fails rather than hangs; `Ok(None)` means nothing is pending yet;
    /// attempts are taken strictly in arrival order.
    pub fn accept_next(&mut self, timeout: KitsuneTimeout) -> (r: KitsuneResult<Option<Handshake>>)
        requires
            old(self).wf(),
        ensures
            final(self).wf(),
            old(self)@.closed ==> r == Err::<Option<Handshake>, KitsuneError>(KitsuneError::Closed),
            r matches Err(e) ==> (e == KitsuneError::Closed || e == KitsuneError::TimedOut)
                && final(self)@ == old(self)@,
            !old(self)@.closed ==> (r matches Err(e) ==> e == KitsuneError::TimedOut),
            r matches Ok(o) ==> (o is None ==> old(self)@.pending_cons.len() == 0 && final(self)@
                == old(self)@),
            r matches Ok(o) ==> (o matches Some(h) ==> old(self)@.pending_cons.len() > 0
                && h.remote@ == old(self)@.pending_cons[0] && final(self)@ == (EndpointView {
                pending_cons: old(self)@.pending_cons.drop_first(),
                ..old(self)@
            })),
    {
        if self.closed {
            return Err(KitsuneError::Closed);
        }
        if timeout.is_expired() {
            return Err(KitsuneError::TimedOut);
        }
        if self.pending_cons.len() == 0 {
            return Ok(None);
        }
        let remote = self.pending_cons.remove(0);
        assert(final(self)@ =~~= (EndpointView {
            pending_cons: old(self)@.pending_cons.drop_first(),
            ..old(self)@
        }));
        Ok(Some(Handshake { remote }))
    }

    /// Second phase of accepting an inbound connection: the handshake
    /// completes and the connection becomes ready to use.  Same failure
    /// contract as `connect`; on success the new connection is open to
    /// the remote the handshake came from.
    pub fn complete_handshake(&mut self, hs: Handshake, timeout: KitsuneTimeout) -> (r:
        KitsuneResult<usize>)
        requires
            old(self).wf(),
        ensures
            final(self).wf(),
            old(self)@.closed ==> r == Err::<usize, KitsuneError>(KitsuneError::Closed),
            r matches Err(e) ==> (e == KitsuneError::Closed || e == KitsuneError::TimedOut)
                && final(self)@ == old(self)@,
            !old(self)@.closed ==> (r matches Err(e) ==> e == KitsuneError::TimedOut),
            r matches Ok(id) ==> !old(self)@.closed && id == old(self)@.cons.len() && final(self)@
                == (EndpointView {
                cons: old(self)@.cons.push(
                    ConView {
                        closed: false,
                        remote: hs.remote@,
                        chans: Seq::empty(),
                        pending_chans: 0,
                    },
                ),
                ..old(self)@
            }),
    {
        self.connect(hs.remote, timeout)
    }

    /// An inbound channel attempt arrives on connection `con`.  Fails
    /// with `Closed` iff the endpoint or the connection is closed;
    /// otherwise the attempt queues up for the two-phase accept.
    pub fn push_incoming_channel(&mut self, con: usize) -> (r: KitsuneResult<()>)
        requires
            old(self).wf(),
            con < old(self)@.cons.len(),
            old(self)@.cons[con as int].pending_chans < usize::MAX,
        ensures
            final(self).wf(),
            old(self)@.closed || old(self)@.cons[con as int].closed <==> r == Err::<
                (),
                KitsuneError,
            >(KitsuneError::Closed),
            r matches Err(_) ==> final(self)@ == old(self)@,
            r matches Ok(_) ==> final(self)@ == (EndpointView {
                cons: old(self)@.cons.update(
                    con as int,
                    ConView {
                        pending_chans: old(self)@.cons[con as int].pending_chans + 1,
                        ..old(self)@.cons[con as int]
                    },
                ),
                ..old(self)@
            }),
    {
        if self.closed {
            return Err(KitsuneError::Closed);
        }
        let con_closed = self.cons[con].closed;
        if con_closed {
            return Err(KitsuneError::Closed);
        }
        let c = &mut self.cons[con];
        c.pending_chans = c.pending_chans + 1;
        assert(final(self)@ =~~= (EndpointView {
            cons: old(self)@.cons.update(
                con as int,
                ConView {
                    pending_chans: old(self)@.cons[con as int].pending_chans + 1,
                    ..old(self)@.cons[con as int]
                },
            ),
            ..old(self)@
        }));
        Ok(())
    }

    /// First phase of accepting an inbound channel on connection `con`:
    /// take up one pending attempt and begin its handshake.  On a closed
    /// endpoint or connection it fails rather than hangs; `Ok(None)`
    /// means nothing is pending yet.
    pub fn accept_next_channel(&mut self, con: usize, timeout: KitsuneTimeout) -> (r: KitsuneResult<
        Option<ChanHandshake>,
    >)
        requires
            old(self).wf(),
            con < old(self)@.cons.len(),
        ensures
            final(self).wf(),
            old(self)@.closed || old(self)@.cons[con as int].closed ==> r == Err::<
                Option<ChanHandshake>,
                KitsuneError,
            >(KitsuneError::Closed),
            r matches Err(e) ==> (e == KitsuneError::Closed || e == KitsuneError::TimedOut)
                && final(self)@ == old(self)@,
            !old(self)@.closed && !old(self)@.cons[con as int].closed ==> (r matches Err(e) ==> e
                == KitsuneError::TimedOut),
            r matches Ok(o) ==> (o is None ==> old(self)@.cons[con as int].pending_chans == 0
                && final(self)@ == old(self)@),
            r matches Ok(o) ==> (o matches Some(h) ==> h.con == con && old(self)@.cons[
                con as int
            ].pending_chans > 0 && final(self)@ == (EndpointView {
                cons: old(self)@.cons.update(
                    con as int,
                    ConView {
                        pending_chans: (old(self)@.cons[con as int].pending_chans - 1) as nat,
                        ..old(self)@.cons[con as int]
                    },
                ),
                ..old(self)@
            })),
    {
        if self.closed {
            return Err(KitsuneError::Closed);
        }
        let con_closed = self.cons[con].closed;
        if con_closed {
            return Err(KitsuneError::Closed);
        }
        if timeout.is_expired() {
            return Err(KitsuneError::TimedOut);
        }
        let pending = self.cons[con].pending_chans;
        if pending == 0 {
            return Ok(None);
        }
        let c = &mut self.cons[con];
        c.pending_chans = c.pending_chans - 1;
        assert(final(self)@ =~~= (EndpointView {
            cons: old(self)@.cons.update(
                con as int,
                ConView {
                    pending_chans: (old(self)@.cons[con as int].pending_chans - 1) as nat,
                    ..old(self)@.cons[con as int]
                },
            ),
            ..old(self)@
        }));
        Ok(Some(ChanHandshake { con }))
    }

    /// Second phase of accepting an inbound channel: the handshake
    /// completes and the (readable) channel becomes ready to use.  Same
    /// failure contract as `out_chan`.
    pub fn complete_chan_handshake(&mut self, hs: ChanHandshake, timeout: KitsuneTimeout) -> (r:
        KitsuneResult<usize>)
        requires
            old(self).wf(),
            hs.con < old(self)@.cons.len(),
        ensures
            final(self).wf(),
            old(self)@.closed || old(self)@.cons[hs.con as int].closed ==> r == Err::<
                usize,
                KitsuneError,
            >(KitsuneError::Closed),
            r matches Err(e) ==> (e == KitsuneError::Closed || e == KitsuneError::TimedOut)
                && final(self)@ == old(self)@,
            !old(self)@.closed && !old(self)@.cons[hs.con as int].closed ==> (r matches Err(e)
                ==> e == KitsuneError::TimedOut),
            r matches Ok(id) ==> !old(self)@.closed && !old(self)@.cons[hs.con as int].closed && id
                == old(self)@.cons[hs.con as int].chans.len() && final(self)@ == (EndpointView {
                cons: old(self)@.cons.update(
                    hs.con as int,
                    ConView {
                        chans: old(self)@.cons[hs.con as int].chans.push(
                            ChanView { closed: false, buf: Seq::empty() },
                        ),
                        ..old(self)@.cons[hs.con as int]
                    },
                ),
                ..old(self)@
            }),
    {
        self.out_chan(hs.con, timeout)
    }
}

} // verus!
