//! Stream router: classify inbound envelopes by kind and fan each out to
//! its kind's broadcast channel.
//!
//! One background task owns the read loop of the inbound duplex channel and
//! is its sole reader. The loop races the next-envelope wait against a
//! cancellation signal; whichever resolves first wins. Each resolved event
//! is handed to [`Router::on_event`], the verified step function: it
//! classifies the envelope, publishes it to the matching kind's channel in
//! arrival order, and owns the lifecycle — graceful closure, read failure
//! and cancellation each stop the router permanently and distinguishably,
//! and a stopped router never publishes again. Across kinds there is no
//! ordering guarantee; within a kind, subscribers see arrival order.

use vstd::prelude::*;

use crate::fanout::{Cursor, FanOut};
use crate::utils::de::TypedValue;

verus! {

/// The recognized kinds of inbound envelopes, each with a fan-out channel
/// of its own.
#[derive(Clone, Copy, Debug, PartialEq, Eq, Structural)]
pub enum MessageKind {
    /// Arbitration updates.
    Arbitration,
    /// Data-plane packets handed up to the controller.
    Packet,
    /// Digest batches.
    Digest,
    /// Idle-timeout notifications.
    IdleTimeout,
    /// Stream errors reported by the peer.
    StreamError,
}

/// A batch of digest records. Each member of `data` is decoded
/// independently, in arrival order, by the consumer.
pub struct DigestList {
    /// Identifier of the digest the batch belongs to.
    pub digest_id: u32,
    /// Identifier of this batch, used to acknowledge it.
    pub list_id: u64,
    /// One tagged value per digest record.
    pub data: Vec<TypedValue>,
    /// Peer-supplied timestamp of the batch.
    pub timestamp: u64,
}

/// One message arriving on the inbound duplex stream, tagged with a kind.
pub enum Envelope {
    /// Arbitration outcome for this client.
    Arbitration {
        /// Device the arbitration concerns.
        device_id: u64,
        /// High half of the election identifier.
        election_id_high: u64,
        /// Low half of the election identifier.
        election_id_low: u64,
        /// Status code of the arbitration outcome.
        status_code: i32,
    },
    /// A data-plane packet handed up to the controller.
    Packet {
        /// Raw packet bytes.
        payload: Vec<u8>,
    },
    /// A batch of digest records.
    Digest(DigestList),
    /// An idle-timeout notification, carried opaquely.
    IdleNotice {
        /// Encoded notification bytes.
        payload: Vec<u8>,
    },
    /// A stream error reported by the peer.
    StreamError {
        /// Canonical error code.
        canonical_code: i32,
        /// Encoded error detail.
        detail: Vec<u8>,
    },
    /// An envelope whose kind this router does not recognize; it is ignored
    /// and does not stop the loop.
    Unknown {
        /// The unrecognized tag.
        tag: u32,
    },
}

/// The kind of an envelope, or none when the envelope is unrecognized.
pub open spec fn kind_of(e: Envelope) -> Option<MessageKind> {
    match e {
        Envelope::Arbitration { .. } => Some(MessageKind::Arbitration),
        Envelope::Packet { .. } => Some(MessageKind::Packet),
        Envelope::Digest(_) => Some(MessageKind::Digest),
        Envelope::IdleNotice { .. } => Some(MessageKind::IdleTimeout),
        Envelope::StreamError { .. } => Some(MessageKind::StreamError),
        Envelope::Unknown { .. } => None,
    }
}

/// Classify an envelope by its kind tag.
pub fn classify(e: &Envelope) -> (r: Option<MessageKind>)
    ensures
        r == kind_of(*e),
{
    match e {
        Envelope::Arbitration { .. } => Some(MessageKind::Arbitration),
        Envelope::Packet { .. } => Some(MessageKind::Packet),
        Envelope::Digest(_) => Some(MessageKind::Digest),
        Envelope::IdleNotice { .. } => Some(MessageKind::IdleTimeout),
        Envelope::StreamError { .. } => Some(MessageKind::StreamError),
        Envelope::Unknown { .. } => None,
    }
}

/// The envelopes of kind `k` within `s`, in the order they stand in `s`.
pub open spec fn of_kind(s: Seq<Envelope>, k: MessageKind) -> Seq<Envelope>
    decreases s.len(),
{
    if s.len() == 0 {
        Seq::empty()
    } else if kind_of(s.last()) == Some(k) {
        of_kind(s.drop_last(), k).push(s.last())
    } else {
        of_kind(s.drop_last(), k)
    }
}

/// Routing preserves per-kind arrival order: an envelope arriving after all
/// of `s` lands at the tail of its own kind's sub-sequence and leaves every
/// other kind's sub-sequence unchanged.
pub proof fn lemma_of_kind_append(s: Seq<Envelope>, env: Envelope, k: MessageKind)
    ensures
        kind_of(env) == Some(k) ==> of_kind(s.push(env), k) == of_kind(s, k).push(env),
        kind_of(env) != Some(k) ==> of_kind(s.push(env), k) == of_kind(s, k),
{
    assert(s.push(env).drop_last() =~= s);
    assert(s.push(env).last() == env);
}

/// A kind's sub-sequence holds only envelopes of that kind: a channel never
/// carries another kind's envelope.
pub proof fn lemma_of_kind_members(s: Seq<Envelope>, k: MessageKind)
    ensures
        forall|i: int|
            0 <= i < of_kind(s, k).len() ==> kind_of(#[trigger] of_kind(s, k)[i]) == Some(k),
    decreases s.len(),
{
    if s.len() != 0 {
        lemma_of_kind_members(s.drop_last(), k);
    }
}

/// The lifecycle of a router. Every state but `Running` is terminal and
/// mutually distinguishable.
#[derive(Clone, Copy, Debug, PartialEq, Eq, Structural)]
pub enum RouterState {
    /// Reading and publishing.
    Running,
    /// The inbound stream ended without an error.
    ClosedGracefully,
    /// Reading the inbound stream failed; the router stopped and will not
    /// silently resume.
    Failed,
    /// Cancellation was requested and observed.
    Cancelled,
}

/// One resolved wait of the router's read loop: the race between the
/// next-envelope read and the cancellation signal ended this way.
pub enum StreamEvent {
    /// An envelope arrived.
    Message(Envelope),
    /// The inbound stream ended gracefully.
    Closed,
    /// Reading the inbound stream failed.
    ReadError,
    /// The cancellation signal resolved first.
    CancelRequested,
}

/// The router: one bounded fan-out channel per recognized kind, the
/// lifecycle state, and the full arrival log (in ghost form) that ties the
/// channels to the inbound order.
pub struct Router {
    /// Lifecycle state.
    pub state: RouterState,
    /// Fan-out channel for arbitration updates.
    pub arbitration: FanOut<Envelope>,
    /// Fan-out channel for packets.
    pub packet: FanOut<Envelope>,
    /// Fan-out channel for digest batches.
    pub digest: FanOut<Envelope>,
    /// Fan-out channel for idle-timeout notifications.
    pub idle: FanOut<Envelope>,
    /// Fan-out channel for stream errors.
    pub stream_error: FanOut<Envelope>,
    /// Every envelope handed to the router while it ran, in arrival order.
    pub arrived: Ghost<Seq<Envelope>>,
}

impl Router {
    /// The fan-out channel of kind `k`.
    pub open spec fn chan(self, k: MessageKind) -> FanOut<Envelope> {
        match k {
            MessageKind::Arbitration => self.arbitration,
            MessageKind::Packet => self.packet,
            MessageKind::Digest => self.digest,
            MessageKind::IdleTimeout => self.idle,
            MessageKind::StreamError => self.stream_error,
        }
    }

    /// The publish log of kind `k`'s channel.
    pub open spec fn log(self, k: MessageKind) -> Seq<Envelope> {
        self.chan(k).messages@
    }

    /// Whether the router still reads and publishes.
    pub open spec fn running(self) -> bool {
        self.state is Running
    }

    /// Well-formedness: every channel admits a backlog, the channels are
    /// open exactly while the router runs, and each kind's channel holds
    /// exactly the envelopes of that kind that arrived, in arrival order.
    pub open spec fn wf(self) -> bool {
        &&& self.arbitration.wf()
        &&& self.packet.wf()
        &&& self.digest.wf()
        &&& self.idle.wf()
        &&& self.stream_error.wf()
        &&& (forall|k: MessageKind| #[trigger] self.chan(k).closed <==> !self.running())
        &&& (forall|k: MessageKind| #[trigger] self.log(k) == of_kind(self.arrived@, k))
    }

    /// Create a running router whose channels bound each subscriber's
    /// backlog by `capacity`.
    pub fn new(capacity: usize) -> (r: Router)
        requires
            capacity >= 1,
        ensures
            r.wf(),
            r.running(),
            r.arrived@ == Seq::<Envelope>::empty(),
            forall|k: MessageKind| #[trigger] r.log(k) == Seq::<Envelope>::empty(),
            forall|k: MessageKind| (#[trigger] r.chan(k)).capacity == capacity,
    {
        let r = Router {
            state: RouterState::Running,
            arbitration: FanOut::new(capacity),
            packet: FanOut::new(capacity),
            digest: FanOut::new(capacity),
            idle: FanOut::new(capacity),
            stream_error: FanOut::new(capacity),
            arrived: Ghost(Seq::empty()),
        };
        r
    }

    fn close_channels(&mut self)
        ensures
            final(self).arbitration.closed,
            final(self).arbitration.messages@ == old(self).arbitration.messages@,
            final(self).arbitration.capacity == old(self).arbitration.capacity,
            final(self).packet.closed,
            final(self).packet.messages@ == old(self).packet.messages@,
            final(self).packet.capacity == old(self).packet.capacity,
            final(self).digest.closed,
            final(self).digest.messages@ == old(self).digest.messages@,
            final(self).digest.capacity == old(self).digest.capacity,
            final(self).idle.closed,
            final(self).idle.messages@ == old(self).idle.messages@,
            final(self).idle.capacity == old(self).idle.capacity,
            final(self).stream_error.closed,
            final(self).stream_error.messages@ == old(self).stream_error.messages@,
            final(self).stream_error.capacity == old(self).stream_error.capacity,
            final(self).state == old(self).state,
            final(self).arrived == old(self).arrived,
    {
        self.arbitration.close();
        self.packet.close();
        self.digest.close();
        self.idle.close();
        self.stream_error.close();
    }

    /// Feed the router the outcome of one read-loop wait, and report
    /// whether an envelope was published.
    ///
    /// A running router publishes a recognized envelope at the tail of its
    /// kind's channel and touches no other kind; it ignores an unrecognized
    /// envelope and keeps running; it stops — permanently, with the matching
    /// terminal state, closing every channel — on graceful closure, on a
    /// read failure, and on cancellation. A stopped router changes nothing
    /// and never publishes, whatever keeps arriving; messages already
    /// published are not retracted.
    pub fn on_event(&mut self, event: StreamEvent) -> (published: bool)
        requires
            old(self).wf(),
        ensures
            final(self).wf(),
            forall|k: MessageKind|
                (#[trigger] final(self).chan(k)).capacity == old(self).chan(k).capacity,
            !old(self).running() ==> *final(self) == *old(self) && !published,
            old(self).running() && event is CancelRequested ==> final(self).state
                is Cancelled && !published,
            old(self).running() && event is Closed ==> final(self).state is ClosedGracefully
                && !published,
            old(self).running() && event is ReadError ==> final(self).state is Failed
                && !published,
            !(event is Message) ==> final(self).arrived == old(self).arrived && (forall|
                k: MessageKind,
            | #[trigger] final(self).log(k) == old(self).log(k)),
            event matches StreamEvent::Message(env) ==> old(self).running() ==> (
            final(self).running() && final(self).arrived@ == old(self).arrived@.push(env) && (
            match kind_of(env) {
                Some(k) => published && final(self).log(k) == old(self).log(k).push(env) && (
                forall|k2: MessageKind|
                    k2 != k ==> #[trigger] final(self).log(k2) == old(self).log(k2)),
                None => !published && (forall|k2: MessageKind| #[trigger]
                    final(self).log(k2) == old(self).log(k2)),
            })),
    {
        match self.state {
            RouterState::Running => {}
            _ => {
                return false;
            }
        }
        match event {
            StreamEvent::Message(env) => {
                let kind = classify(&env);
                let ghost previous = self.arrived@;
                self.arrived = Ghost(self.arrived@.push(env));
                match kind {
                    Some(k) => {
                        proof {
                            assert(!(old(self).chan(MessageKind::Arbitration)).closed);
                            assert(!(old(self).chan(MessageKind::Packet)).closed);
                            assert(!(old(self).chan(MessageKind::Digest)).closed);
                            assert(!(old(self).chan(MessageKind::IdleTimeout)).closed);
                            assert(!(old(self).chan(MessageKind::StreamError)).closed);
                        }
                        match k {
                            MessageKind::Arbitration => self.arbitration.publish(env),
                            MessageKind::Packet => self.packet.publish(env),
                            MessageKind::Digest => self.digest.publish(env),
                            MessageKind::IdleTimeout => self.idle.publish(env),
                            MessageKind::StreamError => self.stream_error.publish(env),
                        }
                        proof {
                            assert forall|k2: MessageKind| !(#[trigger] self.chan(k2)).closed by {
                                assert(!(old(self).chan(k2)).closed);
                            }
                            assert forall|k2: MessageKind| #[trigger] self.log(k2) == of_kind(
                                self.arrived@,
                                k2,
                            ) by {
                                assert(old(self).log(k2) == of_kind(previous, k2));
                                lemma_of_kind_append(previous, env, k2);
                            }
                            assert forall|k2: MessageKind| k2 != k implies #[trigger] self.log(k2)
                                == old(self).log(k2) by {
                                assert(old(self).log(k2) == of_kind(previous, k2));
                                lemma_of_kind_append(previous, env, k2);
                            }
                            assert(old(self).log(k) == of_kind(previous, k));
                            lemma_of_kind_append(previous, env, k);
                            assert(self.log(k) == old(self).log(k).push(env));
                        }
                        true
                    }
                    None => {
                        proof {
                            assert forall|k2: MessageKind| !(#[trigger] self.chan(k2)).closed by {
                                assert(!(old(self).chan(k2)).closed);
                            }
                            assert forall|k2: MessageKind| #[trigger] self.log(k2) == of_kind(
                                self.arrived@,
                                k2,
                            ) by {
                                assert(old(self).log(k2) == of_kind(previous, k2));
                                lemma_of_kind_append(previous, env, k2);
                            }
                            assert forall|k2: MessageKind| #[trigger] self.log(k2) == old(
                                self,
                            ).log(k2) by {
                                assert(old(self).log(k2) == of_kind(previous, k2));
                                lemma_of_kind_append(previous, env, k2);
                            }
                        }
                        false
                    }
                }
            }
            StreamEvent::Closed => {
                self.state = RouterState::ClosedGracefully;
                self.close_channels();
                proof {
                    assert forall|k2: MessageKind| #[trigger] self.log(k2) == of_kind(
                        self.arrived@,
                        k2,
                    ) by {
                        assert(old(self).log(k2) == of_kind(self.arrived@, k2));
                    }
                }
                false
            }
            StreamEvent::ReadError => {
                self.state = RouterState::Failed;
                self.close_channels();
                proof {
                    assert forall|k2: MessageKind| #[trigger] self.log(k2) == of_kind(
                        self.arrived@,
                        k2,
                    ) by {
                        assert(old(self).log(k2) == of_kind(self.arrived@, k2));
                    }
                }
                false
            }
            StreamEvent::CancelRequested => {
                self.state = RouterState::Cancelled;
                self.close_channels();
                proof {
                    assert forall|k2: MessageKind| #[trigger] self.log(k2) == of_kind(
                        self.arrived@,
                        k2,
                    ) by {
                        assert(old(self).log(k2) == of_kind(self.arrived@, k2));
                    }
                }
                false
            }
        }
    }

    /// Request cancellation. A running router stops at once — its channels
    /// close and nothing is published from then on; a router already
    /// stopped is left exactly as it is, so cancelling is idempotent and
    /// never disturbs a terminal state or retracts a published message.
    pub fn cancel(&mut self)
        requires
            old(self).wf(),
        ensures
            final(self).wf(),
            old(self).running() ==> final(self).state is Cancelled,
            !old(self).running() ==> *final(self) == *old(self),
            final(self).arrived == old(self).arrived,
            forall|k: MessageKind| #[trigger] final(self).log(k) == old(self).log(k),
            forall|k: MessageKind|
                (#[trigger] final(self).chan(k)).capacity == old(self).chan(k).capacity,
    {
        self.on_event(StreamEvent::CancelRequested);
    }

    /// Whether cancellation has been observed.
    pub fn is_cancelled(&self) -> (r: bool)
        ensures
            r == (self.state is Cancelled),
    {
        match self.state {
            RouterState::Cancelled => true,
            _ => false,
        }
    }

    /// The current lifecycle state.
    pub fn state(&self) -> (r: RouterState)
        ensures
            r == self.state,
    {
        self.state
    }

    /// Borrow kind `k`'s fan-out channel, to receive from it.
    pub fn channel(&self, k: MessageKind) -> (r: &FanOut<Envelope>)
        ensures
            *r == self.chan(k),
    {
        match k {
            MessageKind::Arbitration => &self.arbitration,
            MessageKind::Packet => &self.packet,
            MessageKind::Digest => &self.digest,
            MessageKind::IdleTimeout => &self.idle,
            MessageKind::StreamError => &self.stream_error,
        }
    }

    /// Attach a new subscriber to kind `k`: it receives every envelope of
    /// that kind published after this point, for as long as it keeps up.
    pub fn subscribe(&self, k: MessageKind) -> (c: Cursor)
        ensures
            c.next == self.log(k).len(),
    {
        let ch = self.channel(k);
        ch.subscribe()
    }
}

} // verus!
