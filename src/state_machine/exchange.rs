use vstd::prelude::*;
use crate::state_machine::common::{MessageView, Phase, Validity};
use crate::state_machine::receiver::{ReceiverView, cycle, lemma_cycle_inv, receiver_inv, reply_for};
use crate::state_machine::sender::{SenderView, answered, outstanding, sender_inv, sent};

verus! {

/// One round over a link that loses nothing: the sender sends `m`, the
/// receiver takes it in, decides with `check` and answers, and the answer
/// reaches the sender.
pub open spec fn round<V: Validity>(check: &V, s: SenderView, r: ReceiverView, m: MessageView) -> (SenderView, ReceiverView) {
    let ok = check.accepts(m);
    (answered(sent(s, m), Some(reply_for(ok))), cycle(r, m, ok))
}

/// The rounds for `msgs`, one after the other, in order.
pub open spec fn rounds<V: Validity>(check: &V, s: SenderView, r: ReceiverView, msgs: Seq<MessageView>) -> (SenderView, ReceiverView)
    decreases msgs.len(),
{
    if msgs.len() == 0 {
        (s, r)
    } else {
        let before = rounds(check, s, r, msgs.drop_last());
        round(check, before.0, before.1, msgs.last())
    }
}

/// One round delivers `m` once on each side, and acknowledges it exactly
/// when the check accepts it; otherwise the sender is left to resend it.
pub proof fn lemma_reliable_round<V: Validity>(check: &V, s: SenderView, r: ReceiverView, m: MessageView)
    requires
        sender_inv(s, Phase::SenderIdle),
        receiver_inv(r, Phase::ReceiverIdle),
    ensures
        ({
            let (s2, r2) = round(check, s, r, m);
            &&& r2.received == r.received.push(m)
            &&& receiver_inv(r2, Phase::ReceiverIdle)
            &&& (check.accepts(m) ==> r2.replies.last() == MessageView::Ack
                && s2.delivered == s.delivered.push(m) && outstanding(s2) == 0
                && sender_inv(s2, Phase::AwaitingAck))
            &&& (!check.accepts(m) ==> r2.replies.last() == MessageView::Nack
                && s2 == sent(s, m) && outstanding(s2) == 1
                && sender_inv(s2, Phase::Resend))
        }),
{
    lemma_cycle_inv(r, m, check.accepts(m));
}

/// Over a link that loses nothing, sending `msgs` one at a time, each
/// accepted, puts each on the wire exactly once and in order, delivers them
/// in that order, has the receiver take in exactly those messages in that
/// order, and answers each with one `Ack`; both machines end idle.
pub proof fn lemma_reliable_rounds<V: Validity>(check: &V, s: SenderView, r: ReceiverView, msgs: Seq<MessageView>)
    requires
        sender_inv(s, Phase::SenderIdle),
        receiver_inv(r, Phase::ReceiverIdle),
        forall|i: int| 0 <= i < msgs.len() ==> check.accepts(#[trigger] msgs[i]),
    ensures
        ({
            let (s2, r2) = rounds(check, s, r, msgs);
            &&& sender_inv(s2, Phase::SenderIdle)
            &&& receiver_inv(r2, Phase::ReceiverIdle)
            &&& s2.wire == s.wire + msgs
            &&& s2.delivered == s.delivered + msgs
            &&& s2.started == s.started + msgs.len()
            &&& r2.received == r.received + msgs
            &&& r2.replies == r.replies + Seq::new(msgs.len(), |i: int| MessageView::Ack)
        }),
    decreases msgs.len(),
{
    if msgs.len() > 0 {
        let front = msgs.drop_last();
        let m = msgs.last();
        assert forall|i: int| 0 <= i < front.len() implies check.accepts(#[trigger] front[i]) by {
            assert(front[i] == msgs[i]);
        }
        lemma_reliable_rounds(check, s, r, front);
        let before = rounds(check, s, r, front);
        assert(check.accepts(msgs[msgs.len() - 1]));
        lemma_reliable_round(check, before.0, before.1, m);
        let after = rounds(check, s, r, msgs);
        assert(front.push(m) =~= msgs);
        assert(after.0.wire =~= s.wire + msgs);
        assert(after.0.delivered =~= s.delivered + msgs);
        assert(after.1.received =~= r.received + msgs);
        assert(after.1.replies =~= r.replies + Seq::new(msgs.len(), |i: int| MessageView::Ack));
    } else {
        assert(s.wire + msgs =~= s.wire);
        assert(s.delivered + msgs =~= s.delivered);
        assert(r.received + msgs =~= r.received);
        assert(r.replies + Seq::new(0, |i: int| MessageView::Ack) =~= r.replies);
    }
}

} // verus!
