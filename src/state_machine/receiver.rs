use vstd::prelude::*;
use crate::state_machine::common::{Message, MessageView, Phase, State, Validity};

verus! {

/// Receiver state machine: drives one message at a time through receive,
/// then accept and acknowledge, or reject and negatively acknowledge.
///
/// The handle does no I/O itself: the driver reads a message from the
/// transport and hands it to `receive`, and transmits what `take_outgoing`
/// gives back.
pub struct Receiver<S: State> {
    outbox: Vec<Message>,
    log: Ghost<ReceiverLog>,
    state: S,
}

/// What a receiver has done so far, apart from its outbox.
struct ReceiverLog {
    pub received: Seq<MessageView>,
    pub verdicts: Seq<bool>,
    pub replies: Seq<MessageView>,
}

/// The abstract state of a receiver.
pub struct ReceiverView {
    /// Every message taken in, in order.
    pub received: Seq<MessageView>,
    /// The decision on each message decided so far: `true` for accepted.
    pub verdicts: Seq<bool>,
    /// Every reply handed to the transport, in order.
    pub replies: Seq<MessageView>,
    /// The replies handed over and not yet taken by the driver.
    pub outbox: Seq<MessageView>,
    /// The message the handle's state carries, if any.
    pub held: Option<MessageView>,
}

pub struct Idle;
pub struct Receiving {
    pub message: Message,
}
pub struct SendingAck;
pub struct SendingNack;

impl State for Idle {
    open spec fn phase() -> Phase { Phase::ReceiverIdle }
    open spec fn held(&self) -> Option<MessageView> { None }
}

impl State for Receiving {
    open spec fn phase() -> Phase { Phase::Receiving }
    open spec fn held(&self) -> Option<MessageView> { Some(self.message@) }
}

impl State for SendingAck {
    open spec fn phase() -> Phase { Phase::SendingAck }
    open spec fn held(&self) -> Option<MessageView> { None }
}

impl State for SendingNack {
    open spec fn phase() -> Phase { Phase::SendingNack }
    open spec fn held(&self) -> Option<MessageView> { None }
}

/// A receiver that has done nothing yet.
pub open spec fn fresh_receiver() -> ReceiverView {
    ReceiverView {
        received: Seq::empty(),
        verdicts: Seq::empty(),
        replies: Seq::empty(),
        outbox: Seq::empty(),
        held: None,
    }
}

/// The reply that a decision earns.
pub open spec fn reply_for(ok: bool) -> MessageView {
    if ok {
        MessageView::Ack
    } else {
        MessageView::Nack
    }
}

/// The effect of taking in `m`.
pub open spec fn took_in(v: ReceiverView, m: MessageView) -> ReceiverView {
    ReceiverView { received: v.received.push(m), held: Some(m), ..v }
}

/// The effect of deciding on the message held: `ok` when it is accepted.
pub open spec fn decided(v: ReceiverView, ok: bool) -> ReceiverView {
    ReceiverView { verdicts: v.verdicts.push(ok), held: None, ..v }
}

/// The effect of answering with `reply`.
pub open spec fn replied(v: ReceiverView, reply: MessageView) -> ReceiverView {
    ReceiverView { replies: v.replies.push(reply), outbox: v.outbox.push(reply), ..v }
}

/// One whole cycle from idle: take in `m`, decide `ok` on it, and answer.
pub open spec fn cycle(v: ReceiverView, m: MessageView, ok: bool) -> ReceiverView {
    replied(decided(took_in(v, m), ok), reply_for(ok))
}

/// The effect of the driver taking the outbox.
pub open spec fn drained(v: ReceiverView) -> ReceiverView {
    ReceiverView { outbox: Seq::empty(), ..v }
}

/// What holds of a receiver in phase `p`.
pub open spec fn receiver_inv(v: ReceiverView, p: Phase) -> bool {
    &&& v.replies.len() <= v.verdicts.len() <= v.received.len()
    &&& forall|i: int| 0 <= i < v.replies.len() ==> #[trigger] v.replies[i] == reply_for(v.verdicts[i])
    &&& match p {
        Phase::ReceiverIdle => {
            &&& v.held is None
            &&& v.replies.len() == v.verdicts.len() == v.received.len()
        },
        Phase::Receiving => {
            &&& v.received.len() > 0
            &&& v.held == Some(v.received.last())
            &&& v.replies.len() == v.verdicts.len() == v.received.len() - 1
        },
        Phase::SendingAck | Phase::SendingNack => {
            &&& v.held is None
            &&& v.verdicts.len() > 0
            &&& v.replies.len() + 1 == v.verdicts.len() == v.received.len()
            &&& v.verdicts.last() == (p is SendingAck)
        },
        _ => false,
    }
}

impl<S: State> View for Receiver<S> {
    type V = ReceiverView;

    closed spec fn view(&self) -> ReceiverView {
        ReceiverView {
            received: self.log@.received,
            verdicts: self.log@.verdicts,
            replies: self.log@.replies,
            outbox: self.outbox@.map_values(|m: Message| m@),
            held: self.state.held(),
        }
    }
}

impl<S: State> Receiver<S> {
    /// The handle is consistent with the phase its type names.
    pub open spec fn wf(&self) -> bool {
        receiver_inv(self@, S::phase())
    }

    /// Hands the queued replies to the driver, oldest first.
    pub fn take_outgoing(&mut self) -> (r: Vec<Message>)
        requires
            old(self).wf(),
        ensures
            final(self).wf(),
            r@.map_values(|m: Message| m@) == old(self)@.outbox,
            final(self)@ == drained(old(self)@),
    {
        let mut out: Vec<Message> = Vec::new();
        core::mem::swap(&mut out, &mut self.outbox);
        proof {
            assert(self@.outbox =~= Seq::<MessageView>::empty());
        }
        out
    }
}

impl Receiver<Idle> {
    pub fn new() -> (r: Self)
        ensures
            r.wf(),
            r@ == fresh_receiver(),
    {
        let r = Receiver {
            outbox: Vec::new(),
            log: Ghost(ReceiverLog { received: Seq::empty(), verdicts: Seq::empty(), replies: Seq::empty() }),
            state: Idle,
        };
        proof {
            assert(r@.outbox =~= Seq::<MessageView>::empty());
        }
        r
    }

    /// Takes in `message`, which the driver read from the transport.
    pub fn receive(self, message: Message) -> (r: Receiver<Receiving>)
        requires
            self.wf(),
        ensures
            r.wf(),
            r@ == took_in(self@, message@),
    {
        let ghost m = message@;
        let ghost log = self.log@;
        Receiver {
            outbox: self.outbox,
            log: Ghost(ReceiverLog { received: log.received.push(m), ..log }),
            state: Receiving { message },
        }
    }
}

impl Receiver<Receiving> {
    /// Decides on the received message with the acceptance check `check`.
    pub fn process_message<V: Validity>(self, check: &V) -> (r: Result<Receiver<SendingAck>, Receiver<SendingNack>>)
        requires
            self.wf(),
        ensures
            r is Ok <==> check.accepts(self@.received.last()),
            r matches Ok(s) ==> s.wf() && s@ == decided(self@, true),
            r matches Err(s) ==> s.wf() && s@ == decided(self@, false),
    {
        let ok = check.is_valid(&self.state.message);
        let ghost log = self.log@;
        if ok {
            Ok(Receiver {
                outbox: self.outbox,
                log: Ghost(ReceiverLog { verdicts: log.verdicts.push(true), ..log }),
                state: SendingAck,
            })
        } else {
            Err(Receiver {
                outbox: self.outbox,
                log: Ghost(ReceiverLog { verdicts: log.verdicts.push(false), ..log }),
                state: SendingNack,
            })
        }
    }

    /// The message that was received.
    pub fn get_message(&self) -> (r: &Message)
        requires
            self.wf(),
        ensures
            self@.received.last() == r@,
            self@.held == Some(r@),
    {
        &self.state.message
    }
}

impl Receiver<SendingAck> {
    /// Queues an `Ack` for the transport and returns to idle.
    pub fn send_ack(self) -> (r: Receiver<Idle>)
        requires
            self.wf(),
        ensures
            r.wf(),
            r@ == replied(self@, MessageView::Ack),
    {
        let ghost log = self.log@;
        let mut outbox = self.outbox;
        outbox.push(Message::Ack);
        let r = Receiver {
            outbox,
            log: Ghost(ReceiverLog { replies: log.replies.push(MessageView::Ack), ..log }),
            state: Idle,
        };
        proof {
            assert(r@.outbox =~= self@.outbox.push(MessageView::Ack));
            assert(forall|i: int| 0 <= i < r@.replies.len() - 1 ==> r@.replies[i] == self@.replies[i]);
        }
        r
    }
}

impl Receiver<SendingNack> {
    /// Queues a `Nack` for the transport and returns to idle.
    pub fn send_nack(self) -> (r: Receiver<Idle>)
        requires
            self.wf(),
        ensures
            r.wf(),
            r@ == replied(self@, MessageView::Nack),
    {
        let ghost log = self.log@;
        let mut outbox = self.outbox;
        outbox.push(Message::Nack);
        let r = Receiver {
            outbox,
            log: Ghost(ReceiverLog { replies: log.replies.push(MessageView::Nack), ..log }),
            state: Idle,
        };
        proof {
            assert(r@.outbox =~= self@.outbox.push(MessageView::Nack));
            assert(forall|i: int| 0 <= i < r@.replies.len() - 1 ==> r@.replies[i] == self@.replies[i]);
        }
        r
    }
}

/// A received message is answered with exactly one of `Ack` and `Nack`, and
/// with `Ack` exactly when the acceptance check holds of it.
pub proof fn lemma_verdict_exhaustive<V: Validity>(check: &V, v: ReceiverView, m: MessageView)
    requires
        receiver_inv(v, Phase::ReceiverIdle),
    ensures
        ({
            let w = cycle(v, m, check.accepts(m));
            &&& w.replies.last() == MessageView::Ack || w.replies.last() == MessageView::Nack
            &&& (w.replies.last() == MessageView::Ack <==> check.accepts(m))
            &&& receiver_inv(w, Phase::ReceiverIdle)
        }),
{
    lemma_cycle_inv(v, m, check.accepts(m));
}

/// A cycle from idle leads back to idle.
pub proof fn lemma_cycle_inv(v: ReceiverView, m: MessageView, ok: bool)
    requires
        receiver_inv(v, Phase::ReceiverIdle),
    ensures
        receiver_inv(cycle(v, m, ok), Phase::ReceiverIdle),
{
    let w = cycle(v, m, ok);
    assert forall|i: int| 0 <= i < w.replies.len() implies #[trigger] w.replies[i] == reply_for(w.verdicts[i]) by {
        if i < v.replies.len() {
            assert(w.replies[i] == v.replies[i]);
            assert(w.verdicts[i] == v.verdicts[i]);
        }
    }
}

/// A receiver keeps no memory across cycles: under one acceptance check the
/// answer to a message does not depend on what came before, and a message
/// taken in twice is answered twice, the same way.
pub proof fn lemma_receiver_stateless<V: Validity>(check: &V, v1: ReceiverView, v2: ReceiverView, m: MessageView)
    requires
        receiver_inv(v1, Phase::ReceiverIdle),
        receiver_inv(v2, Phase::ReceiverIdle),
    ensures
        ({
            let ok = check.accepts(m);
            &&& receiver_inv(cycle(v1, m, ok), Phase::ReceiverIdle)
            &&& cycle(v1, m, ok).replies.last() == cycle(v2, m, ok).replies.last()
            &&& cycle(v1, m, ok).replies.last() == reply_for(ok)
            &&& cycle(cycle(v1, m, ok), m, ok).received == v1.received.push(m).push(m)
            &&& cycle(cycle(v1, m, ok), m, ok).replies == v1.replies.push(reply_for(ok)).push(reply_for(ok))
        }),
{
    lemma_cycle_inv(v1, m, check.accepts(m));
}

} // verus!
