use vstd::prelude::*;
use crate::state_machine::common::{Message, MessageView, Phase, State, is_ack_reply, option_view};

verus! {

/// Sender state machine: drives one message at a time through
/// send, await-ack, then either acknowledgment or resend.
///
/// The handle does no I/O itself. Every datagram it wants on the wire is
/// queued in its outbox, which the driver drains with `take_outgoing` and
/// transmits; what the transport brings back is handed to `await_ack`.
pub struct Sender<S: State> {
    outbox: Vec<Message>,
    log: Ghost<SenderLog>,
    _state: S,
}

/// What a sender has done so far, apart from its outbox.
struct SenderLog {
    pub wire: Seq<MessageView>,
    pub delivered: Seq<MessageView>,
    pub started: nat,
    pub in_flight: Option<MessageView>,
}

/// The abstract state of a sender.
pub struct SenderView {
    /// Every datagram this sender has handed to the transport, in order.
    pub wire: Seq<MessageView>,
    /// The datagrams handed over and not yet taken by the driver.
    pub outbox: Seq<MessageView>,
    /// The messages that were acknowledged, in order.
    pub delivered: Seq<MessageView>,
    /// How many messages were started with `send`.
    pub started: nat,
    /// The message sent and not yet acknowledged.
    pub in_flight: Option<MessageView>,
}

pub struct Idle;
pub struct Sending;
pub struct AwaitingAck;
pub struct Resend;

impl State for Idle {
    open spec fn phase() -> Phase { Phase::SenderIdle }
    open spec fn held(&self) -> Option<MessageView> { None }
}

impl State for Sending {
    open spec fn phase() -> Phase { Phase::Sending }
    open spec fn held(&self) -> Option<MessageView> { None }
}

impl State for AwaitingAck {
    open spec fn phase() -> Phase { Phase::AwaitingAck }
    open spec fn held(&self) -> Option<MessageView> { None }
}

impl State for Resend {
    open spec fn phase() -> Phase { Phase::Resend }
    open spec fn held(&self) -> Option<MessageView> { None }
}

/// A sender that has done nothing yet.
pub open spec fn fresh_sender() -> SenderView {
    SenderView {
        wire: Seq::empty(),
        outbox: Seq::empty(),
        delivered: Seq::empty(),
        started: 0,
        in_flight: None,
    }
}

/// The effect of starting message `m`: it goes on the wire and is in flight.
pub open spec fn sent(v: SenderView, m: MessageView) -> SenderView {
    SenderView {
        wire: v.wire.push(m),
        outbox: v.outbox.push(m),
        started: v.started + 1,
        in_flight: Some(m),
        ..v
    }
}

/// The effect of what came back while awaiting an acknowledgment: an `Ack`
/// delivers the message in flight, anything else changes nothing.
pub open spec fn answered(v: SenderView, reply: Option<MessageView>) -> SenderView {
    if is_ack_reply(reply) {
        SenderView {
            delivered: match v.in_flight {
                Some(m) => v.delivered.push(m),
                None => v.delivered,
            },
            in_flight: None,
            ..v
        }
    } else {
        v
    }
}

/// The effect of transmitting `m` again after a timeout.
pub open spec fn resent(v: SenderView, m: MessageView) -> SenderView {
    SenderView {
        wire: v.wire.push(m),
        outbox: v.outbox.push(m),
        in_flight: Some(m),
        ..v
    }
}

/// The effect of the driver taking the outbox.
pub open spec fn drained(v: SenderView) -> SenderView {
    SenderView { outbox: Seq::empty(), ..v }
}

/// The number of messages started and not yet acknowledged.
pub open spec fn outstanding(v: SenderView) -> int {
    v.started - v.delivered.len()
}

/// What holds of a sender in phase `p`.
pub open spec fn sender_inv(v: SenderView, p: Phase) -> bool {
    &&& v.started == v.delivered.len() + if v.in_flight is Some { 1nat } else { 0nat }
    &&& match p {
        Phase::SenderIdle | Phase::AwaitingAck => v.in_flight is None,
        Phase::Sending | Phase::Resend => {
            &&& v.in_flight is Some
            &&& v.wire.len() > 0
            &&& v.wire.last() == v.in_flight->0
        },
        _ => false,
    }
}

impl<S: State> View for Sender<S> {
    type V = SenderView;

    closed spec fn view(&self) -> SenderView {
        SenderView {
            wire: self.log@.wire,
            outbox: self.outbox@.map_values(|m: Message| m@),
            delivered: self.log@.delivered,
            started: self.log@.started,
            in_flight: self.log@.in_flight,
        }
    }
}

impl<S: State> Sender<S> {
    /// The handle is consistent with the phase its type names.
    pub open spec fn wf(&self) -> bool {
        sender_inv(self@, S::phase())
    }

    /// Hands the queued datagrams to the driver, oldest first.
    pub fn take_outgoing(&mut self) -> (r: Vec<Message>)
        requires
            old(self).wf(),
        ensures
            final(self).wf(),
            r@.map_values(|m: Message| m@) == old(self)@.outbox,
            final(self)@ == drained(old(self)@),
    {
        let mut out: Vec<Message> = Vec::new();
        core::mem::swap(&mut out, &mut self.outbox);
        proof {
            assert(self@.outbox =~= Seq::<MessageView>::empty());
        }
        out
    }
}

impl Sender<Idle> {
    pub fn new() -> (r: Self)
        ensures
            r.wf(),
            r@ == fresh_sender(),
    {
        let r = Sender { outbox: Vec::new(), log: Ghost(SenderLog {
            wire: Seq::empty(),
            delivered: Seq::empty(),
            started: 0,
            in_flight: None,
        }), _state: Idle };
        proof {
            assert(r@.outbox =~= Seq::<MessageView>::empty());
        }
        r
    }

    /// Starts `message`: queues it for the transport and waits for its
    /// acknowledgment.
    pub fn send(self, message: Message) -> (r: Sender<Sending>)
        requires
            self.wf(),
        ensures
            r.wf(),
            r@ == sent(self@, message@),
    {
        let ghost m = message@;
        let ghost log = self.log@;
        let mut outbox = self.outbox;
        outbox.push(message);
        let r = Sender {
            outbox,
            log: Ghost(SenderLog {
                wire: log.wire.push(m),
                started: log.started + 1,
                in_flight: Some(m),
                ..log
            }),
            _state: Sending,
        };
        proof {
            assert(r@.outbox =~= self@.outbox.push(m));
        }
        r
    }
}

impl Sender<Sending> {
    /// Settles the wait for an acknowledgment on what the transport brought
    /// back before the timeout (`None` when nothing came or the read failed).
    /// Only an `Ack` counts; anything else means the message must be resent.
    pub fn await_ack(self, reply: Option<Message>) -> (r: Result<Sender<AwaitingAck>, Sender<Resend>>)
        requires
            self.wf(),
        ensures
            r is Ok <==> is_ack_reply(option_view(reply)),
            r matches Ok(s) ==> s.wf() && s@ == answered(self@, option_view(reply)),
            r matches Err(s) ==> s.wf() && s@ == self@,
    {
        let acked = match &reply {
            Some(m) => m.is_ack(),
            None => false,
        };
        if acked {
            let ghost log = self.log@;
            Ok(Sender {
                outbox: self.outbox,
                log: Ghost(SenderLog {
                    delivered: log.delivered.push(log.in_flight->0),
                    in_flight: None,
                    ..log
                }),
                _state: AwaitingAck,
            })
        } else {
            Err(Sender { outbox: self.outbox, log: self.log, _state: Resend })
        }
    }
}

impl Sender<AwaitingAck> {
    /// Returns to idle once the acknowledgment has been taken in.
    pub fn on_ack_received(self) -> (r: Sender<Idle>)
        requires
            self.wf(),
        ensures
            r.wf(),
            r@ == self@,
    {
        Sender { outbox: self.outbox, log: self.log, _state: Idle }
    }
}

impl Sender<Resend> {
    /// Transmits `message` again; the caller supplies the message it sent.
    pub fn resend(self, message: Message) -> (r: Sender<Sending>)
        requires
            self.wf(),
        ensures
            r.wf(),
            r@ == resent(self@, message@),
    {
        let ghost m = message@;
        let ghost log = self.log@;
        let mut outbox = self.outbox;
        outbox.push(message);
        let r = Sender {
            outbox,
            log: Ghost(SenderLog { wire: log.wire.push(m), in_flight: Some(m), ..log }),
            _state: Sending,
        };
        proof {
            assert(r@.outbox =~= self@.outbox.push(m));
        }
        r
    }
}

/// A call made on a sender handle, with what it was given.
pub enum SenderCall {
    Send(MessageView),
    AwaitAck(Option<MessageView>),
    OnAckReceived,
    Resend(MessageView),
    TakeOutgoing,
}

/// The phase and abstract state after call `c` in phase `p`, or `None` when
/// the handle of phase `p` has no such operation.
pub open spec fn sender_step(v: SenderView, p: Phase, c: SenderCall) -> Option<(SenderView, Phase)> {
    match c {
        SenderCall::Send(m) => if p is SenderIdle { Some((sent(v, m), Phase::Sending)) } else { None },
        SenderCall::AwaitAck(reply) => if p is Sending {
            Some((answered(v, reply), if is_ack_reply(reply) { Phase::AwaitingAck } else { Phase::Resend }))
        } else {
            None
        },
        SenderCall::OnAckReceived => if p is AwaitingAck { Some((v, Phase::SenderIdle)) } else { None },
        SenderCall::Resend(m) => if p is Resend { Some((resent(v, m), Phase::Sending)) } else { None },
        SenderCall::TakeOutgoing => if sender_inv(v, p) { Some((drained(v), p)) } else { None },
    }
}

/// Where a fresh sender ends after `calls`, or `None` if one of them is not
/// an operation of the handle it would be made on.
pub open spec fn sender_run(calls: Seq<SenderCall>) -> Option<(SenderView, Phase)>
    decreases calls.len(),
{
    if calls.len() == 0 {
        Some((fresh_sender(), Phase::SenderIdle))
    } else {
        match sender_run(calls.drop_last()) {
            Some((v, p)) => sender_step(v, p, calls.last()),
            None => None,
        }
    }
}

/// From `Idle`, `send` leads to `Sending`; from `Sending`, `await_ack` leads
/// to `AwaitingAck` on an acknowledgment and to `Resend` on anything else;
/// each of these states keeps the sender's invariant.
pub proof fn lemma_sender_reachability(v: SenderView, w: SenderView, m: MessageView, reply: Option<MessageView>)
    requires
        sender_inv(v, Phase::SenderIdle),
        sender_inv(w, Phase::Sending),
    ensures
        sender_step(v, Phase::SenderIdle, SenderCall::Send(m)) == Some((sent(v, m), Phase::Sending)),
        sender_inv(sent(v, m), Phase::Sending),
        sender_step(w, Phase::Sending, SenderCall::AwaitAck(reply)) matches Some((x, q))
            && (q is AwaitingAck || q is Resend)
            && (q is AwaitingAck <==> is_ack_reply(reply))
            && sender_inv(x, q),
{
}

/// No sequence of calls on a sender has more than one message started and
/// not yet acknowledged, and one is outstanding exactly while the sender is
/// in `Sending` or `Resend`.
pub proof fn lemma_single_outstanding(calls: Seq<SenderCall>)
    ensures
        sender_run(calls) matches Some((v, p)) ==> {
            &&& sender_inv(v, p)
            &&& 0 <= outstanding(v) <= 1
            &&& (outstanding(v) == 1 <==> (p is Sending || p is Resend))
        },
    decreases calls.len(),
{
    if calls.len() > 0 {
        lemma_single_outstanding(calls.drop_last());
    }
}

/// Resending after a timeout, with the message that was sent, puts the very
/// same message on the wire a second time.
pub proof fn lemma_resend_preserves_content(v: SenderView, m: MessageView, reply: Option<MessageView>)
    requires
        sender_inv(v, Phase::SenderIdle),
        !is_ack_reply(reply),
    ensures
        ({
            let w = resent(answered(sent(v, m), reply), m);
            &&& w.wire.len() == v.wire.len() + 2
            &&& w.wire[v.wire.len() as int] == m
            &&& w.wire[v.wire.len() + 1int] == w.wire[v.wire.len() as int]
            &&& w.in_flight == Some(m)
            &&& w.delivered == v.delivered
        }),
{
}

} // verus!
