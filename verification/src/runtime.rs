//! The node runtime: handshake, bounded queues and the loop steps.
//!
//! The runtime mediates between a line transport and the application's
//! process through two bounded FIFO queues. Construction performs the
//! one-shot initialization handshake; afterwards three loops — ingress,
//! egress and the process itself — drive the pipeline. The host schedules
//! those loops and owns the transport; every decision they take is a step
//! function here, so that a blocked queue operation is an outcome the host
//! retries, never a hidden wait.

use vstd::prelude::*;

use crate::msg::Body;
use crate::msg::BodyV;
use crate::msg::Init;
use crate::msg::InitV;
use crate::msg::Msg;
use crate::msg::MsgV;
use crate::msg::MsgId;
use crate::msg::WorkloadKind;
use crate::msg::decode;
use crate::msg::decode_spec;
use crate::msg::encode;
use crate::msg::encode_spec;
use crate::msg::ids_view;
use crate::Id;

verus! {

/// Capacity of each direction's queue: shallow pipelining, real
/// backpressure.
pub const QUEUE_DEPTH: usize = 16;

/// The message identifier the runtime uses for its handshake reply.
pub const START_MSG_ID: MsgId = 0;

/// Model of a bounded queue: its messages in arrival order, and whether it
/// has been closed.
pub struct QueueV {
    pub items: Seq<MsgV>,
    pub closed: bool,
}

/// A bounded FIFO queue of messages.
#[derive(Debug)]
pub struct Queue {
    items: Vec<Msg>,
    closed: bool,
}

impl View for Queue {
    type V = QueueV;

    closed spec fn view(&self) -> QueueV {
        QueueV {
            items: Seq::new(self.items@.len(), |i: int| self.items@[i]@),
            closed: self.closed,
        }
    }
}

/// How a queue answers a send.
#[derive(Clone, Copy, Debug, PartialEq, Eq)]
pub enum SendKind {
    /// The message was appended.
    Sent,
    /// The queue is at capacity; the sender must wait and retry.
    Full,
    /// The queue is closed; the pipeline is winding down.
    Closed,
}

/// How a queue answers a receive.
#[derive(Clone, Copy, Debug, PartialEq, Eq)]
pub enum RecvKind {
    /// The oldest message was handed out.
    Received,
    /// Nothing is there yet; the receiver must wait and retry.
    Empty,
    /// The queue is closed and drained; the pipeline has wound down.
    Closed,
}

/// How a send changes nothing or appends: the queue's answer.
pub open spec fn q_send_kind(q: QueueV) -> SendKind {
    if q.closed {
        SendKind::Closed
    } else if q.items.len() >= QUEUE_DEPTH {
        SendKind::Full
    } else {
        SendKind::Sent
    }
}

/// The queue after a send: unchanged unless the message was appended.
pub open spec fn q_after_send(q: QueueV, m: MsgV) -> QueueV {
    if q_send_kind(q) == SendKind::Sent {
        QueueV { items: q.items.push(m), closed: q.closed }
    } else {
        q
    }
}

/// The queue's answer to a receive.
pub open spec fn q_recv_kind(q: QueueV) -> RecvKind {
    if q.items.len() > 0 {
        RecvKind::Received
    } else if q.closed {
        RecvKind::Closed
    } else {
        RecvKind::Empty
    }
}

/// The queue after a receive: unchanged unless the head was removed.
pub open spec fn q_after_recv(q: QueueV) -> QueueV {
    if q_recv_kind(q) == RecvKind::Received {
        QueueV { items: q.items.drop_first(), closed: q.closed }
    } else {
        q
    }
}

/// A closed queue, with whatever it still holds.
pub open spec fn q_closed(q: QueueV) -> QueueV {
    QueueV { items: q.items, closed: true }
}

/// The result of a send attempt; a refused message comes back to its
/// sender so nothing is ever dropped.
#[derive(Debug)]
pub enum SendAttempt {
    Sent,
    Full(Msg),
    Closed(Msg),
}

/// The result of a receive attempt.
#[derive(Debug)]
pub enum RecvAttempt {
    Received(Msg),
    Empty,
    Closed,
}

impl Queue {
    /// A queue never holds more than its capacity.
    pub open spec fn wf(&self) -> bool {
        self@.items.len() <= QUEUE_DEPTH
    }

    /// An empty, open queue.
    pub fn new() -> (q: Queue)
        ensures
            q.wf(),
            q@.items == Seq::<MsgV>::empty(),
            !q@.closed,
    {
        let q = Queue { items: Vec::new(), closed: false };
        proof {
            assert(q@.items =~= Seq::<MsgV>::empty());
        }
        q
    }

    /// Tries to append a message. A full queue refuses and keeps its
    /// contents — the caller waits and retries; a closed queue refuses for
    /// good. The refused message is handed back.
    pub fn try_send(&mut self, m: Msg) -> (r: SendAttempt)
        requires
            old(self).wf(),
        ensures
            final(self).wf(),
            final(self)@ == q_after_send(old(self)@, m@),
            match r {
                SendAttempt::Sent => q_send_kind(old(self)@) == SendKind::Sent,
                SendAttempt::Full(back) => q_send_kind(old(self)@) == SendKind::Full && back
                    == m,
                SendAttempt::Closed(back) => q_send_kind(old(self)@) == SendKind::Closed
                    && back == m,
            },
    {
        if self.closed {
            SendAttempt::Closed(m)
        } else if self.items.len() >= QUEUE_DEPTH {
            SendAttempt::Full(m)
        } else {
            let ghost before = self@;
            let ghost mv = m@;
            self.items.push(m);
            proof {
                assert(self@.items =~= before.items.push(mv));
            }
            SendAttempt::Sent
        }
    }

    /// Tries to take the oldest message. An empty open queue asks the
    /// caller to wait; an empty closed queue reports the wind-down.
    pub fn try_recv(&mut self) -> (r: RecvAttempt)
        requires
            old(self).wf(),
        ensures
            final(self).wf(),
            final(self)@ == q_after_recv(old(self)@),
            match r {
                RecvAttempt::Received(m) => q_recv_kind(old(self)@) == RecvKind::Received && m@
                    == old(self)@.items[0],
                RecvAttempt::Empty => q_recv_kind(old(self)@) == RecvKind::Empty,
                RecvAttempt::Closed => q_recv_kind(old(self)@) == RecvKind::Closed,
            },
    {
        if self.items.len() > 0 {
            let ghost before = self@;
            let m = self.items.remove(0);
            proof {
                assert(self@.items =~= before.items.drop_first());
            }
            RecvAttempt::Received(m)
        } else if self.closed {
            RecvAttempt::Closed
        } else {
            RecvAttempt::Empty
        }
    }

    /// Closes the queue. What it holds may still be received; nothing more
    /// can be sent. Closing twice is closing once.
    pub fn close(&mut self)
        requires
            old(self).wf(),
        ensures
            final(self).wf(),
            final(self)@ == q_closed(old(self)@),
    {
        self.closed = true;
    }
}

/// Backpressure: a send to a full queue changes nothing and keeps the
/// message with its sender; after one receive frees a slot, the same send
/// is accepted and appends the message behind the rest.
pub proof fn lemma_backpressure(q: QueueV, m: MsgV)
    requires
        !q.closed,
        q.items.len() == QUEUE_DEPTH,
    ensures
        q_send_kind(q) == SendKind::Full,
        q_after_send(q, m) == q,
        q_send_kind(q_after_recv(q)) == SendKind::Sent,
        q_after_send(q_after_recv(q), m).items == q.items.drop_first().push(m),
{
}

/// Closing is idempotent: exactly one close effect applies per queue.
pub proof fn lemma_close_idempotent(q: QueueV)
    ensures
        q_closed(q_closed(q)) == q_closed(q),
{
}


/// Model of the runtime: identity, membership, next free identifier, the
/// workload family it decodes, and the two queues.
pub struct RuntimeV {
    pub id: Seq<char>,
    pub ids: Seq<Seq<char>>,
    pub next_msg_id: MsgId,
    pub kind: WorkloadKind,
    pub inbound: QueueV,
    pub outbound: QueueV,
}

/// The node runtime. Holds the node's identity from the handshake and the
/// two bounded queues between transport and process. The host owns the
/// transport and drives the loops; the process side uses [`Runtime::proc_recv`]
/// and [`Runtime::proc_send`].
#[derive(Debug)]
pub struct Runtime {
    /// This node's identifier, announced by the handshake.
    pub id: Id,
    /// All participants' identifiers, announced by the handshake.
    pub ids: Vec<Id>,
    /// The first message identifier free for the application; smaller ones
    /// are reserved for the handshake.
    pub next_msg_id: MsgId,
    /// The workload family the ingress loop decodes.
    pub kind: WorkloadKind,
    inbound: Queue,
    outbound: Queue,
}

impl View for Runtime {
    type V = RuntimeV;

    closed spec fn view(&self) -> RuntimeV {
        RuntimeV {
            id: self.id@,
            ids: ids_view(self.ids@),
            next_msg_id: self.next_msg_id,
            kind: self.kind,
            inbound: self.inbound@,
            outbound: self.outbound@,
        }
    }
}

/// What the ingress loop did with one line.
#[derive(Debug)]
pub enum IngressOutcome {
    /// The decoded message was queued for the process.
    Accepted,
    /// The inbound queue is full: backpressure. The message is handed back
    /// so the host can retry it with [`Runtime::ingress_push`] once the
    /// process has caught up; the line is not dropped.
    Blocked(Msg),
}

/// What the egress loop produced in one step.
#[derive(Debug)]
pub enum EgressOutcome {
    /// The oldest outbound message, encoded as a wire line to write.
    Line(String),
    /// Nothing to send yet; the host waits and retries.
    Idle,
}

/// What the process received in one step.
#[derive(Debug)]
pub enum ProcRecv {
    /// The oldest inbound message.
    Received(Msg),
    /// Nothing has arrived yet; the process waits and retries.
    Waiting,
}

/// What happened to a message the process submitted.
#[derive(Debug)]
pub enum ProcSend {
    /// The message was queued for the egress loop.
    Sent,
    /// The outbound queue is full: backpressure. The message comes back so
    /// the process can retry it; nothing is dropped.
    Blocked(Msg),
}

/// Whether a decoded first line is the handshake request.
pub open spec fn is_init_request(m: MsgV) -> bool {
    m.body matches BodyV::Init(InitV::Init { .. })
}

/// The reply the handshake owes for a given request.
pub open spec fn init_reply(m: MsgV) -> MsgV {
    match m.body {
        BodyV::Init(InitV::Init { msg_id, node_id, node_ids }) => MsgV {
            src: node_id,
            dest: m.src,
            body: BodyV::Init(InitV::InitOk { in_reply_to: msg_id, msg_id: START_MSG_ID }),
        },
        _ => m,
    }
}

impl Runtime {
    /// Both queues are within capacity.
    pub closed spec fn wf(&self) -> bool {
        self.inbound.wf() && self.outbound.wf()
    }

    /// Constructs the runtime from the first line of the session: the
    /// one-shot handshake.
    ///
    /// The line must decode as an envelope whose body is the `init`
    /// request; the runtime then takes the announced identity and
    /// membership, reserves identifier [`START_MSG_ID`] for its own reply,
    /// and returns that reply, encoded, for the host to write. Any other
    /// body is refused with the unexpected-message error, a line that does
    /// not decode with the deserialize error; in both cases no runtime is
    /// produced and nothing is owed to the transport.
    pub fn new(first_line: &str, kind: WorkloadKind) -> (r: Result<(Runtime, String), crate::Error>)
        ensures
            match r {
                Ok(p) => {
                    &&& decode_spec(first_line@, kind) matches Some(m) && is_init_request(m)
                        && p.1@ == encode_spec(init_reply(m)) && p.0@.id == init_reply(m).src
                        && (m.body matches BodyV::Init(InitV::Init { node_ids, .. })
                        && p.0@.ids == node_ids)
                    &&& p.0@.next_msg_id == START_MSG_ID + 1
                    &&& p.0@.kind == kind
                    &&& p.0@.inbound.items.len() == 0 && !p.0@.inbound.closed
                    &&& p.0@.outbound.items.len() == 0 && !p.0@.outbound.closed
                    &&& p.0.wf()
                },
                Err(e) => match decode_spec(first_line@, kind) {
                    None => e == crate::Error::Deserialize,
                    Some(m) => !is_init_request(m) && (e matches crate::Error::UnexpectedMsg {
                        expected,
                    } && expected@ == "Init"@),
                },
            },
    {
        match decode(first_line, kind) {
            Err(_) => Err(crate::Error::Deserialize),
            Ok(m) => {
                let Msg { src, dest: _, body } = m;
                match body {
                    Body::Init(Init::Init { msg_id, node_id, node_ids }) => {
                        let reply = Msg {
                            src: node_id.clone(),
                            dest: src,
                            body: Body::Init(
                                Init::InitOk { in_reply_to: msg_id, msg_id: START_MSG_ID },
                            ),
                        };
                        let line = encode(reply);
                        let rt = Runtime {
                            id: node_id,
                            ids: node_ids,
                            next_msg_id: START_MSG_ID + 1,
                            kind,
                            inbound: Queue::new(),
                            outbound: Queue::new(),
                        };
                        Ok((rt, line))
                    },
                    _ => Err(crate::Error::UnexpectedMsg { expected: "Init" }),
                }
            },
        }
    }

    /// One ingress step: decodes a line and queues the message for the
    /// process.
    ///
    /// A line that does not decode is fatal to the ingress loop — no
    /// retry, no skipping — and leaves the queues untouched. A full
    /// inbound queue blocks: the message comes back for a later
    /// [`Runtime::ingress_push`]. A closed queue reports the shutdown
    /// wind-down, which the host treats as clean termination.
    pub fn run_one_io_ingress(&mut self, line: &str) -> (r: Result<
        IngressOutcome,
        crate::Error,
    >)
        requires
            old(self).wf(),
        ensures
            final(self).wf(),
            final(self)@.id == old(self)@.id && final(self)@.ids == old(self)@.ids
                && final(self)@.next_msg_id == old(self)@.next_msg_id && final(self)@.kind
                == old(self)@.kind && final(self)@.outbound == old(self)@.outbound,
            match r {
                Ok(IngressOutcome::Accepted) => {
                    &&& decode_spec(line@, old(self)@.kind) matches Some(m)
                        && final(self)@.inbound == q_after_send(old(self)@.inbound, m)
                    &&& q_send_kind(old(self)@.inbound) == SendKind::Sent
                },
                Ok(IngressOutcome::Blocked(back)) => {
                    &&& decode_spec(line@, old(self)@.kind) == Some(back@)
                    &&& q_send_kind(old(self)@.inbound) == SendKind::Full
                    &&& final(self)@.inbound == old(self)@.inbound
                },
                Err(e) => {
                    &&& final(self)@.inbound == old(self)@.inbound
                    &&& match decode_spec(line@, old(self)@.kind) {
                        None => e == crate::Error::Deserialize,
                        Some(_) => e == crate::Error::Shutdown && q_send_kind(
                            old(self)@.inbound,
                        ) == SendKind::Closed,
                    }
                },
            },
    {
        match decode(line, self.kind) {
            Err(_) => Err(crate::Error::Deserialize),
            Ok(m) => self.ingress_push(m),
        }
    }

    /// Queues an already-decoded message for the process: the retry path
    /// after ingress backpressure.
    pub fn ingress_push(&mut self, m: Msg) -> (r: Result<IngressOutcome, crate::Error>)
        requires
            old(self).wf(),
        ensures
            final(self).wf(),
            final(self)@.id == old(self)@.id && final(self)@.ids == old(self)@.ids
                && final(self)@.next_msg_id == old(self)@.next_msg_id && final(self)@.kind
                == old(self)@.kind && final(self)@.outbound == old(self)@.outbound,
            match r {
                Ok(IngressOutcome::Accepted) => q_send_kind(old(self)@.inbound)
                    == SendKind::Sent && final(self)@.inbound == q_after_send(
                    old(self)@.inbound,
                    m@,
                ),
                Ok(IngressOutcome::Blocked(back)) => back@ == m@ && q_send_kind(
                    old(self)@.inbound,
                ) == SendKind::Full && final(self)@.inbound == old(self)@.inbound,
                Err(e) => e == crate::Error::Shutdown && q_send_kind(old(self)@.inbound)
                    == SendKind::Closed && final(self)@.inbound == old(self)@.inbound,
            },
    {
        match self.inbound.try_send(m) {
            SendAttempt::Sent => Ok(IngressOutcome::Accepted),
            SendAttempt::Full(back) => Ok(IngressOutcome::Blocked(back)),
            SendAttempt::Closed(_) => Err(crate::Error::Shutdown),
        }
    }

    /// One egress step: takes the oldest outbound message and encodes it
    /// as the line the host must write.
    ///
    /// Messages leave in submission order. An empty open queue asks the
    /// host to wait; a closed, drained queue reports the shutdown
    /// wind-down, which the egress loop treats as clean termination.
    pub fn run_one_io_egress(&mut self) -> (r: Result<EgressOutcome, crate::Error>)
        requires
            old(self).wf(),
        ensures
            final(self).wf(),
            final(self)@.id == old(self)@.id && final(self)@.ids == old(self)@.ids
                && final(self)@.next_msg_id == old(self)@.next_msg_id && final(self)@.kind
                == old(self)@.kind && final(self)@.inbound == old(self)@.inbound,
            final(self)@.outbound == q_after_recv(old(self)@.outbound),
            match r {
                Ok(EgressOutcome::Line(s)) => q_recv_kind(old(self)@.outbound)
                    == RecvKind::Received && s@ == encode_spec(old(self)@.outbound.items[0]),
                Ok(EgressOutcome::Idle) => q_recv_kind(old(self)@.outbound) == RecvKind::Empty,
                Err(e) => e == crate::Error::Shutdown && q_recv_kind(old(self)@.outbound)
                    == RecvKind::Closed,
            },
    {
        match self.outbound.try_recv() {
            RecvAttempt::Received(m) => Ok(EgressOutcome::Line(encode(m))),
            RecvAttempt::Empty => Ok(EgressOutcome::Idle),
            RecvAttempt::Closed => Err(crate::Error::Shutdown),
        }
    }

    /// The process's receive: the oldest message the ingress loop queued.
    ///
    /// FIFO per direction. An empty open queue asks the process to wait; a
    /// closed, drained queue fails with the shutdown condition, which the
    /// process must treat as normal wind-down, not as an application
    /// error.
    pub fn proc_recv(&mut self) -> (r: Result<ProcRecv, crate::Error>)
        requires
            old(self).wf(),
        ensures
            final(self).wf(),
            final(self)@.id == old(self)@.id && final(self)@.ids == old(self)@.ids
                && final(self)@.next_msg_id == old(self)@.next_msg_id && final(self)@.kind
                == old(self)@.kind && final(self)@.outbound == old(self)@.outbound,
            final(self)@.inbound == q_after_recv(old(self)@.inbound),
            match r {
                Ok(ProcRecv::Received(m)) => q_recv_kind(old(self)@.inbound)
                    == RecvKind::Received && m@ == old(self)@.inbound.items[0],
                Ok(ProcRecv::Waiting) => q_recv_kind(old(self)@.inbound) == RecvKind::Empty,
                Err(e) => e == crate::Error::Shutdown && q_recv_kind(old(self)@.inbound)
                    == RecvKind::Closed,
            },
    {
        match self.inbound.try_recv() {
            RecvAttempt::Received(m) => Ok(ProcRecv::Received(m)),
            RecvAttempt::Empty => Ok(ProcRecv::Waiting),
            RecvAttempt::Closed => Err(crate::Error::Shutdown),
        }
    }

    /// The process's send: submits a message for the egress loop.
    ///
    /// A full outbound queue blocks — backpressure against a slow
    /// transport — and hands the message back for a retry; a closed queue
    /// fails with the shutdown condition. Nothing is ever dropped.
    pub fn proc_send(&mut self, m: Msg) -> (r: Result<ProcSend, crate::Error>)
        requires
            old(self).wf(),
        ensures
            final(self).wf(),
            final(self)@.id == old(self)@.id && final(self)@.ids == old(self)@.ids
                && final(self)@.next_msg_id == old(self)@.next_msg_id && final(self)@.kind
                == old(self)@.kind && final(self)@.inbound == old(self)@.inbound,
            match r {
                Ok(ProcSend::Sent) => q_send_kind(old(self)@.outbound) == SendKind::Sent
                    && final(self)@.outbound == q_after_send(old(self)@.outbound, m@),
                Ok(ProcSend::Blocked(back)) => back@ == m@ && q_send_kind(
                    old(self)@.outbound,
                ) == SendKind::Full && final(self)@.outbound == old(self)@.outbound,
                Err(e) => e == crate::Error::Shutdown && q_send_kind(old(self)@.outbound)
                    == SendKind::Closed && final(self)@.outbound == old(self)@.outbound,
            },
    {
        match self.outbound.try_send(m) {
            SendAttempt::Sent => Ok(ProcSend::Sent),
            SendAttempt::Full(back) => Ok(ProcSend::Blocked(back)),
            SendAttempt::Closed(_) => Err(crate::Error::Shutdown),
        }
    }

    /// Shuts the pipeline down: closes both queues. Exactly one close
    /// effect applies per queue however often this is called; blocked
    /// operations then observe the shutdown condition, the egress loop may
    /// still drain what was already queued, and each loop step after the
    /// drain reports the shutdown condition rather than a fault.
    pub fn shutdown(&mut self)
        requires
            old(self).wf(),
        ensures
            final(self).wf(),
            final(self)@ == rt_shutdown(old(self)@),
    {
        self.inbound.close();
        self.outbound.close();
    }
}

/// The runtime after shutdown: both queues closed, nothing else touched.
pub open spec fn rt_shutdown(v: RuntimeV) -> RuntimeV {
    RuntimeV {
        inbound: q_closed(v.inbound),
        outbound: q_closed(v.outbound),
        ..v
    }
}

/// Shutdown is idempotent, and after it every loop's next step is
/// determined: a drained queue answers only with the shutdown condition,
/// and a queue still holding messages hands them out, one per step, so
/// each loop terminates within as many steps as messages remained.
pub proof fn lemma_shutdown(v: RuntimeV)
    ensures
        rt_shutdown(rt_shutdown(v)) == rt_shutdown(v),
        q_send_kind(rt_shutdown(v).inbound) == SendKind::Closed,
        q_send_kind(rt_shutdown(v).outbound) == SendKind::Closed,
        rt_shutdown(v).outbound.items.len() == 0 ==> q_recv_kind(rt_shutdown(v).outbound)
            == RecvKind::Closed,
        rt_shutdown(v).outbound.items.len() > 0 ==> q_recv_kind(rt_shutdown(v).outbound)
            == RecvKind::Received && q_after_recv(rt_shutdown(v).outbound).items.len()
            == rt_shutdown(v).outbound.items.len() - 1,
{
}

} // verus!
