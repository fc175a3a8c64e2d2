use vstd::prelude::*;
use crate::utils::checksum::{checksum_of, verify_checksum};

verus! {

/// Where a protocol machine stands; each state type names exactly one phase.
pub enum Phase {
    SenderIdle,
    Sending,
    AwaitingAck,
    Resend,
    ReceiverIdle,
    Receiving,
    SendingAck,
    SendingNack,
}

/// A protocol state that a `Sender` or `Receiver` handle can be in.
pub trait State {
    /// The phase this state type stands for.
    spec fn phase() -> Phase;

    /// The message this state value carries, if any.
    spec fn held(&self) -> Option<MessageView>;
}

/// The unit that travels over the transport.
#[derive(Debug, Clone, PartialEq, Eq)]
pub enum Message {
    Data { sequence: usize, payload: Vec<u8> },
    Ack,
    Nack,
}

/// The mathematical content of a `Message`.
pub enum MessageView {
    Data { sequence: nat, payload: Seq<u8> },
    Ack,
    Nack,
}

impl View for Message {
    type V = MessageView;

    open spec fn view(&self) -> MessageView {
        match self {
            Message::Data { sequence, payload } => MessageView::Data {
                sequence: *sequence as nat,
                payload: payload@,
            },
            Message::Ack => MessageView::Ack,
            Message::Nack => MessageView::Nack,
        }
    }
}

/// The acceptance check a receiver applies to each message it takes in,
/// before it answers with `Ack` (accepted) or `Nack` (rejected).
pub trait Validity {
    /// Whether the check accepts `m`.
    spec fn accepts(&self, m: MessageView) -> bool;

    fn is_valid(&self, m: &Message) -> (r: bool)
        ensures
            r == self.accepts(m@);
}

/// The check that accepts every message.
pub struct AcceptAll;

impl Validity for AcceptAll {
    open spec fn accepts(&self, m: MessageView) -> bool {
        true
    }

    fn is_valid(&self, m: &Message) -> (r: bool) {
        m.is_valid()
    }
}

/// The check that accepts data messages only, and rejects an `Ack` or a
/// `Nack` arriving where data was expected.
pub struct DataOnly;

impl Validity for DataOnly {
    open spec fn accepts(&self, m: MessageView) -> bool {
        m is Data
    }

    fn is_valid(&self, m: &Message) -> (r: bool) {
        match m {
            Message::Data { .. } => true,
            _ => false,
        }
    }
}

/// The check that accepts a data message whose payload has the given
/// checksum, and nothing else.
pub struct PayloadChecksum {
    pub checksum: u32,
}

impl Validity for PayloadChecksum {
    open spec fn accepts(&self, m: MessageView) -> bool {
        m matches MessageView::Data { payload, .. } && checksum_of(payload) == self.checksum
    }

    fn is_valid(&self, m: &Message) -> (r: bool) {
        match m {
            Message::Data { payload, .. } => verify_checksum(payload.as_slice(), self.checksum),
            _ => false,
        }
    }
}

/// Whether `reply` is exactly an acknowledgment.
pub open spec fn is_ack_reply(reply: Option<MessageView>) -> bool {
    reply == Some(MessageView::Ack)
}

/// The view of an optional message.
pub open spec fn option_view(m: Option<Message>) -> Option<MessageView> {
    match m {
        Some(x) => Some(x@),
        None => None,
    }
}

impl Message {
    /// The default acceptance check, which accepts every message
    /// (`AcceptAll`).
    pub fn is_valid(&self) -> (r: bool)
        ensures
            r == AcceptAll.accepts(self@),
    {
        true
    }

    /// Whether this message is an acknowledgment.
    pub fn is_ack(&self) -> (r: bool)
        ensures
            r == (self@ == MessageView::Ack),
    {
        match self {
            Message::Ack => true,
            _ => false,
        }
    }
}

} // verus!
