//! The connection relay's state machine.
//!
//! The relay bridges many concurrent duplex connections to one application
//! event stream. Its one piece of shared mutable state is the connection
//! table: each accepted connection gets a fresh identifier — assigned from a
//! counter that only grows, so an identifier is never reused — and a private
//! outbound queue whose messages reach the peer in enqueue order. All the
//! decisions live here as plain state transitions; the surrounding binary
//! runs the accept loop and the per-connection event loops, holds the table
//! under its lock, and performs the socket I/O.

use vstd::prelude::*;
use vstd::map::*;

verus! {

/// Event surfaced to the application for one inbound request.
#[derive(Clone, Debug)]
pub struct WsEvent {
    /// Identifier of the connection the request arrived on.
    pub conn_id: u32,
    /// The request's raw text payload.
    pub data: String,
}

impl WsEvent {
    /// The event surfaced for one inbound text frame: tagged with the
    /// connection's own identifier, the payload passed through unmodified.
    pub fn inbound_request(conn_id: u32, data: String) -> (ev: WsEvent)
        ensures
            ev.conn_id == conn_id,
            ev.data@ == data@,
    {
        WsEvent { conn_id, data }
    }
}

/// Why a relay operation failed.
#[derive(Clone, Copy, Debug, PartialEq, Eq, Structural)]
pub enum RelayError {
    /// The identifier was never assigned, or its connection has already
    /// closed. Expected and recoverable: the peer may disconnect at any
    /// time.
    UnknownConnection,
}

/// One live connection: its identifier and its private outbound queue.
#[derive(Debug)]
pub struct RelayConn {
    /// Identifier assigned at accept time.
    pub id: u32,
    /// Messages waiting to be written out to the peer, oldest first.
    pub outbound: Vec<String>,
}

/// The relay's connection table: the identifier counter and the live
/// connections. Entries are inserted on accept and removed on close;
/// identifiers are unique for the table's lifetime and never reused.
#[derive(Debug)]
pub struct ConnMap {
    /// The identifier the next accepted connection will receive.
    pub next_id: u32,
    /// The live connections, in accept order.
    pub conns: Vec<RelayConn>,
}

impl ConnMap {
    /// Identifier of the connection at table position `i`.
    pub open spec fn id_at(self, i: int) -> u32 {
        self.conns@[i].id
    }

    /// Pending outbound messages of the connection at table position `i`,
    /// oldest first.
    pub open spec fn queue_at(self, i: int) -> Seq<Seq<char>> {
        self.conns@[i].outbound@.map_values(|s: String| s@)
    }

    /// The identifiers of the live connections, in accept order.
    pub open spec fn ids(self) -> Seq<u32> {
        self.conns@.map_values(|c: RelayConn| c.id)
    }

    /// Whether `id` identifies a live connection.
    pub open spec fn is_open(self, id: u32) -> bool {
        exists|i: int| 0 <= i < self.conns@.len() && self.id_at(i) == id
    }

    /// Table position of the live connection identified by `id`.
    pub open spec fn index_of(self, id: u32) -> int {
        choose|i: int| 0 <= i < self.conns@.len() && self.id_at(i) == id
    }

    /// Pending outbound messages of the live connection identified by `id`.
    pub open spec fn queue_of(self, id: u32) -> Seq<Seq<char>> {
        self.queue_at(self.index_of(id))
    }

    /// The table's observable state: each live connection's pending
    /// outbound messages, in enqueue order, keyed by identifier.
    pub open spec fn queues(self) -> Map<u32, Seq<Seq<char>>> {
        Map::new(|id: u32| self.is_open(id), |id: u32| self.queue_of(id))
    }

    /// Well-formedness: identifiers are at least 1, below the counter, and
    /// pairwise distinct.
    pub open spec fn wf(self) -> bool {
        &&& 1 <= self.next_id
        &&& forall|i: int|
            0 <= i < self.conns@.len() ==> 1 <= #[trigger] self.id_at(i)
                && self.id_at(i) < self.next_id
        &&& forall|i: int, j: int|
            0 <= i < j < self.conns@.len() ==> self.id_at(i) != self.id_at(j)
    }

    /// An empty table; the first connection will get identifier 1.
    pub fn new() -> (m: ConnMap)
        ensures
            m.wf(),
            m.next_id == 1,
            m.conns@.len() == 0,
            m.queues() == Map::<u32, Seq<Seq<char>>>::empty(),
    {
        let m = ConnMap { next_id: 1, conns: Vec::new() };
        proof {
            assert(m.queues() =~= Map::<u32, Seq<Seq<char>>>::empty());
        }
        m
    }

    /// Table position of `conn_id`, if it identifies a live connection.
    fn find(&self, conn_id: u32) -> (r: Option<usize>)
        requires
            self.wf(),
        ensures
            match r {
                Some(i) => i < self.conns@.len() && self.id_at(i as int) == conn_id
                    && self.is_open(conn_id) && self.index_of(conn_id) == i,
                None => !self.is_open(conn_id),
            },
    {
        let n = self.conns.len();
        let mut i: usize = 0;
        while i < n
            invariant
                i <= n,
                n == self.conns@.len(),
                self.wf(),
                forall|j: int| 0 <= j < i ==> #[trigger] self.id_at(j) != conn_id,
            decreases n - i,
        {
            if self.conns[i].id == conn_id {
                proof {
                    lemma_index_of_position(*self, i as int);
                }
                return Some(i);
            }
            i += 1;
        }
        None
    }

    /// Whether `conn_id` identifies a live connection.
    pub fn contains(&self, conn_id: u32) -> (r: bool)
        requires
            self.wf(),
        ensures
            r == self.is_open(conn_id),
    {
        self.find(conn_id).is_some()
    }

    /// Accept a connection: assign the next identifier — fresh, never
    /// assigned before — insert an empty outbound queue for it, and step
    /// the counter so the identifier is never assigned again.
    pub fn accept(&mut self) -> (id: u32)
        requires
            old(self).wf(),
            old(self).next_id < u32::MAX,
        ensures
            final(self).wf(),
            id == old(self).next_id,
            !old(self).is_open(id),
            final(self).is_open(id),
            final(self).next_id == id + 1,
            forall|k: u32| #[trigger] final(self).is_open(k) <==> (k == id || old(self).is_open(k)),
            final(self).queues() == old(self).queues().insert(id, Seq::<Seq<char>>::empty()),
    {
        let id = self.next_id;
        self.next_id = self.next_id + 1;
        self.conns.push(RelayConn { id, outbound: Vec::new() });
        proof {
            let oldm = *old(self);
            let newm = *self;
            let n = oldm.conns@.len() as int;
            assert(forall|i: int| 0 <= i < n ==> #[trigger] oldm.id_at(i) != id);
            assert(forall|i: int| 0 <= i < n ==> #[trigger] newm.id_at(i) == oldm.id_at(i));
            assert(newm.id_at(n) == id);
            assert(newm.wf());
            assert(newm.is_open(id));
            assert forall|k: u32| #[trigger] newm.is_open(k) implies k == id || oldm.is_open(
                k,
            ) by {
                let i = choose|i: int| 0 <= i < newm.conns@.len() && newm.id_at(i) == k;
                if i < n {
                    assert(oldm.id_at(i) == k);
                }
            }
            assert forall|k: u32| oldm.is_open(k) implies newm.is_open(k) && newm.queue_of(k)
                == oldm.queue_of(k) by {
                let i = choose|i: int| 0 <= i < oldm.conns@.len() && oldm.id_at(i) == k;
                assert(newm.id_at(i) == k);
                lemma_index_of_position(oldm, i);
                lemma_index_of_position(newm, i);
                assert(newm.queue_at(i) =~= oldm.queue_at(i));
            }
            lemma_index_of_position(newm, n);
            assert(newm.queue_of(id) =~= Seq::<Seq<char>>::empty());
            assert_maps_equal!(
                newm.queues(),
                oldm.queues().insert(id, Seq::<Seq<char>>::empty()),
            );
        }
        id
    }

    /// Enqueue `data` on the outbound queue of connection `conn_id`:
    /// delivery to that one peer happens later, in enqueue order. An
    /// identifier that is not live — never assigned, or already closed — is
    /// an expected error, and the table is left exactly as it was: no other
    /// connection is affected either way.
    pub fn reply(&mut self, conn_id: u32, data: String) -> (r: Result<(), RelayError>)
        requires
            old(self).wf(),
        ensures
            final(self).wf(),
            final(self).next_id == old(self).next_id,
            forall|k: u32| #[trigger] final(self).is_open(k) == old(self).is_open(k),
            old(self).is_open(conn_id) ==> r is Ok && final(self).queues() == old(
                self,
            ).queues().insert(conn_id, old(self).queue_of(conn_id).push(data@)),
            !old(self).is_open(conn_id) ==> r == Err::<(), RelayError>(
                RelayError::UnknownConnection,
            ) && final(self).queues() == old(self).queues(),
    {
        match self.find(conn_id) {
            None => Err(RelayError::UnknownConnection),
            Some(i) => {
                let ghost oldm = *self;
                let mut c = self.conns.remove(i);
                c.outbound.push(data);
                self.conns.insert(i, c);
                proof {
                    let newm = *self;
                    let n = oldm.conns@.len() as int;
                    assert(newm.conns@.len() == n);
                    assert(forall|j: int|
                        0 <= j < n && j != i ==> newm.conns@[j] == oldm.conns@[j]);
                    assert(newm.id_at(i as int) == conn_id);
                    assert(forall|j: int|
                        0 <= j < n ==> #[trigger] newm.id_at(j) == oldm.id_at(j));
                    assert(newm.wf());
                    assert forall|k: u32| #[trigger] newm.is_open(k) == oldm.is_open(k) by {
                        assert(newm.is_open(k) ==> oldm.is_open(k)) by {
                            if newm.is_open(k) {
                                let j = choose|j: int|
                                    0 <= j < newm.conns@.len() && newm.id_at(j) == k;
                                assert(oldm.id_at(j) == k);
                            }
                        }
                        assert(oldm.is_open(k) ==> newm.is_open(k)) by {
                            if oldm.is_open(k) {
                                let j = choose|j: int|
                                    0 <= j < oldm.conns@.len() && oldm.id_at(j) == k;
                                assert(newm.id_at(j) == k);
                            }
                        }
                    }
                    lemma_index_of_position(oldm, i as int);
                    lemma_index_of_position(newm, i as int);
                    assert(newm.queue_at(i as int) =~= oldm.queue_at(i as int).push(data@));
                    assert forall|k: u32|
                        oldm.is_open(k) && k != conn_id implies newm.queue_of(k) == oldm.queue_of(
                        k,
                    ) by {
                        let j = choose|j: int| 0 <= j < oldm.conns@.len() && oldm.id_at(j) == k;
                        lemma_index_of_position(oldm, j);
                        lemma_index_of_position(newm, j);
                        assert(newm.queue_at(j) =~= oldm.queue_at(j));
                    }
                    assert_maps_equal!(
                        newm.queues(),
                        oldm.queues().insert(conn_id, oldm.queue_of(conn_id).push(data@)),
                    );
                }
                Ok(())
            },
        }
    }

    /// Remove connection `conn_id` from the table, if it is live. Returns
    /// whether it was: the caller emits the closed event exactly when this
    /// returns true, so removal and that event happen exactly once per
    /// connection, whichever side ended it. The counter is untouched — a
    /// closed identifier is never assigned again.
    pub fn close(&mut self, conn_id: u32) -> (was_open: bool)
        requires
            old(self).wf(),
        ensures
            final(self).wf(),
            final(self).next_id == old(self).next_id,
            was_open == old(self).is_open(conn_id),
            !final(self).is_open(conn_id),
            forall|k: u32|
                k != conn_id ==> #[trigger] final(self).is_open(k) == old(self).is_open(k),
            final(self).queues() == old(self).queues().remove(conn_id),
    {
        match self.find(conn_id) {
            None => {
                proof {
                    assert(self.queues() =~= self.queues().remove(conn_id));
                }
                false
            },
            Some(i) => {
                let ghost oldm = *self;
                let _removed = self.conns.remove(i);
                proof {
                    let newm = *self;
                    let n = oldm.conns@.len() as int;
                    assert(newm.conns@.len() == n - 1);
                    assert(forall|j: int| 0 <= j < i ==> newm.conns@[j] == oldm.conns@[j]);
                    assert(forall|j: int|
                        i <= j < n - 1 ==> newm.conns@[j] == oldm.conns@[j + 1]);
                    assert forall|j: int| 0 <= j < n - 1 implies (1 <= #[trigger] newm.id_at(j)
                        && newm.id_at(j) < newm.next_id && newm.id_at(j) != conn_id) by {
                        if j < i {
                            assert(newm.id_at(j) == oldm.id_at(j));
                        } else {
                            assert(newm.id_at(j) == oldm.id_at(j + 1));
                        }
                    }
                    assert forall|a: int, b: int| 0 <= a < b < n - 1 implies newm.id_at(a)
                        != newm.id_at(b) by {
                        let oa = if a < i { a } else { a + 1 };
                        let ob = if b < i { b } else { b + 1 };
                        assert(newm.id_at(a) == oldm.id_at(oa));
                        assert(newm.id_at(b) == oldm.id_at(ob));
                        assert(oa < ob);
                    }
                    assert(newm.wf());
                    assert(!newm.is_open(conn_id));
                    assert forall|k: u32| k != conn_id implies #[trigger] newm.is_open(k)
                        == oldm.is_open(k) by {
                        if newm.is_open(k) {
                            let j = choose|j: int|
                                0 <= j < newm.conns@.len() && newm.id_at(j) == k;
                            if j < i {
                                assert(oldm.id_at(j) == k);
                            } else {
                                assert(oldm.id_at(j + 1) == k);
                            }
                        }
                        if oldm.is_open(k) {
                            let j = choose|j: int|
                                0 <= j < oldm.conns@.len() && oldm.id_at(j) == k;
                            if j < i {
                                assert(newm.id_at(j) == k);
                            } else {
                                assert(j != i);
                                assert(newm.id_at(j - 1) == k);
                            }
                        }
                    }
                    assert forall|k: u32|
                        k != conn_id && oldm.is_open(k) implies newm.queue_of(k)
                        == oldm.queue_of(k) by {
                        let j = choose|j: int| 0 <= j < oldm.conns@.len() && oldm.id_at(j) == k;
                        lemma_index_of_position(oldm, j);
                        if j < i {
                            lemma_index_of_position(newm, j);
                            assert(newm.queue_at(j) =~= oldm.queue_at(j));
                        } else {
                            lemma_index_of_position(newm, j - 1);
                            assert(newm.queue_at(j - 1) =~= oldm.queue_at(j));
                        }
                    }
                    assert_maps_equal!(
                        newm.queues(),
                        oldm.queues().remove(conn_id),
                    );
                }
                true
            },
        }
    }

    /// Take the oldest pending outbound message of connection `conn_id`,
    /// if any: messages leave the queue in the order `reply` put them
    /// there.
    pub fn next_outbound(&mut self, conn_id: u32) -> (m: Option<String>)
        requires
            old(self).wf(),
        ensures
            final(self).wf(),
            final(self).next_id == old(self).next_id,
            forall|k: u32| #[trigger] final(self).is_open(k) == old(self).is_open(k),
            match m {
                Some(s) => old(self).is_open(conn_id) && old(self).queue_of(conn_id).len() > 0
                    && s@ == old(self).queue_of(conn_id).first() && final(self).queues() == old(
                    self,
                ).queues().insert(conn_id, old(self).queue_of(conn_id).drop_first()),
                None => (!old(self).is_open(conn_id) || old(self).queue_of(conn_id).len() == 0)
                    && final(self).queues() == old(self).queues(),
            },
    {
        match self.find(conn_id) {
            None => None,
            Some(i) => {
                proof {
                    lemma_index_of_position(*self, i as int);
                }
                if self.conns[i].outbound.len() == 0 {
                    return None;
                }
                let ghost oldm = *self;
                let mut c = self.conns.remove(i);
                let s = c.outbound.remove(0);
                self.conns.insert(i, c);
                proof {
                    let newm = *self;
                    let n = oldm.conns@.len() as int;
                    assert(newm.conns@.len() == n);
                    assert(forall|j: int|
                        0 <= j < n && j != i ==> newm.conns@[j] == oldm.conns@[j]);
                    assert(newm.id_at(i as int) == conn_id);
                    assert(forall|j: int|
                        0 <= j < n ==> #[trigger] newm.id_at(j) == oldm.id_at(j));
                    assert(newm.wf());
                    assert forall|k: u32| #[trigger] newm.is_open(k) == oldm.is_open(k) by {
                        if newm.is_open(k) {
                            let j = choose|j: int|
                                0 <= j < newm.conns@.len() && newm.id_at(j) == k;
                            assert(oldm.id_at(j) == k);
                        }
                        if oldm.is_open(k) {
                            let j = choose|j: int|
                                0 <= j < oldm.conns@.len() && oldm.id_at(j) == k;
                            assert(newm.id_at(j) == k);
                        }
                    }
                    lemma_index_of_position(oldm, i as int);
                    lemma_index_of_position(newm, i as int);
                    assert(s@ == oldm.queue_at(i as int).first());
                    assert(newm.queue_at(i as int) =~= oldm.queue_at(i as int).drop_first());
                    assert forall|k: u32|
                        oldm.is_open(k) && k != conn_id implies newm.queue_of(k) == oldm.queue_of(
                        k,
                    ) by {
                        let j = choose|j: int| 0 <= j < oldm.conns@.len() && oldm.id_at(j) == k;
                        lemma_index_of_position(oldm, j);
                        lemma_index_of_position(newm, j);
                        assert(newm.queue_at(j) =~= oldm.queue_at(j));
                    }
                    assert_maps_equal!(
                        newm.queues(),
                        oldm.queues().insert(conn_id, oldm.queue_of(conn_id).drop_first()),
                    );
                }
                Some(s)
            },
        }
    }
}

/// A live identifier found at a position is found at that position by
/// `index_of`: positions of live identifiers are unique.
pub proof fn lemma_index_of_position(m: ConnMap, i: int)
    requires
        m.wf(),
        0 <= i < m.conns@.len(),
    ensures
        m.index_of(m.id_at(i)) == i,
        m.is_open(m.id_at(i)),
{
    let id = m.id_at(i);
    assert(m.is_open(id));
    let j = m.index_of(id);
    assert(0 <= j < m.conns@.len() && m.id_at(j) == id);
    if j < i {
        assert(m.id_at(j) != m.id_at(i));
    } else if i < j {
        assert(m.id_at(i) != m.id_at(j));
    }
}

/// Distinct live connections always carry distinct identifiers: events
/// tagged with different connections' identifiers can never be confused.
pub proof fn lemma_ids_distinct(m: ConnMap, i: int, j: int)
    requires
        m.wf(),
        0 <= i < j < m.ids().len(),
    ensures
        m.ids()[i] != m.ids()[j],
{
    assert(m.ids()[i] == m.id_at(i));
    assert(m.ids()[j] == m.id_at(j));
}

/// Every live identifier is below the counter, so an identifier returned
/// by a later `accept` can never collide with it — identifiers are never
/// reused, even after their connection closes.
pub proof fn lemma_open_id_below_next(m: ConnMap, id: u32)
    requires
        m.wf(),
        m.is_open(id),
    ensures
        1 <= id < m.next_id,
{
    let i = choose|i: int| 0 <= i < m.conns@.len() && m.id_at(i) == id;
    assert(1 <= m.id_at(i) && m.id_at(i) < m.next_id);
}

/// One thing a connection's private event loop can observe.
#[derive(Clone, Debug)]
pub enum ConnEvent {
    /// A text frame arrived from the peer.
    PeerText(String),
    /// A non-text frame arrived from the peer.
    PeerNonText,
    /// Reading from the peer failed: a decode or transport error.
    PeerReadFailed,
    /// A message was taken from the connection's outbound queue.
    OutboundMessage(String),
    /// Writing a message out to the peer failed.
    PeerWriteFailed,
    /// Both the peer stream and the outbound channel are exhausted.
    ChannelsClosed,
}

/// What the connection's event loop does with one observation.
#[derive(Clone, Debug)]
pub enum ConnAction {
    /// Surface an inbound request event to the application.
    EmitRequest(WsEvent),
    /// Ignore the observation and keep the loop running.
    Ignore,
    /// Write this message out to the peer.
    SendToPeer(String),
    /// End this connection's loop: the caller then closes the connection
    /// and emits the closed event, exactly once.
    EndConnection,
}

/// One step of a connection's event loop: text frames are forwarded as
/// inbound request events tagged with this connection's identifier and
/// unmodified text; non-text frames are silently ignored; outbound messages
/// are written to the peer; any failure, and the channels running dry, end
/// the connection.
pub fn conn_step(conn_id: u32, ev: ConnEvent) -> (a: ConnAction)
    ensures
        match ev {
            ConnEvent::PeerText(s) => a matches ConnAction::EmitRequest(e) && e.conn_id == conn_id
                && e.data@ == s@,
            ConnEvent::PeerNonText => a == ConnAction::Ignore,
            ConnEvent::PeerReadFailed => a == ConnAction::EndConnection,
            ConnEvent::OutboundMessage(s) => a matches ConnAction::SendToPeer(t) && t@ == s@,
            ConnEvent::PeerWriteFailed => a == ConnAction::EndConnection,
            ConnEvent::ChannelsClosed => a == ConnAction::EndConnection,
        },
{
    match ev {
        ConnEvent::PeerText(s) => ConnAction::EmitRequest(WsEvent::inbound_request(conn_id, s)),
        ConnEvent::PeerNonText => ConnAction::Ignore,
        ConnEvent::PeerReadFailed => ConnAction::EndConnection,
        ConnEvent::OutboundMessage(s) => ConnAction::SendToPeer(s),
        ConnEvent::PeerWriteFailed => ConnAction::EndConnection,
        ConnEvent::ChannelsClosed => ConnAction::EndConnection,
    }
}

} // verus!
