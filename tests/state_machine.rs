use udppp::state_machine::receiver::{self, Receiver};
use udppp::state_machine::sender::{self, Sender};
use udppp::state_machine::common::{AcceptAll, DataOnly, PayloadChecksum, Validity};
use udppp::Message;

fn data(sequence: usize, payload: &[u8]) -> Message {
    Message::Data { sequence, payload: payload.to_vec() }
}

/// Lets the receiver take in one datagram and answer it; returns its replies.
fn answer(receiver: Receiver<receiver::Idle>, incoming: Message) -> (Receiver<receiver::Idle>, Vec<Message>) {
    let received = receiver.receive(incoming);
    let mut idle = match received.process_message(&AcceptAll) {
        Ok(r) => r.send_ack(),
        Err(r) => r.send_nack(),
    };
    let replies = idle.take_outgoing();
    (idle, replies)
}

#[test]
fn test_sender_state_transitions() {
    let sender = Sender::new();
    let message = Message::Data { sequence: 1, payload: vec![1, 2, 3] };

    let mut sender = sender.send(message.clone());
    assert_eq!(sender.take_outgoing(), vec![message]);

    let sender = sender.await_ack(Some(Message::Ack));
    assert!(sender.is_ok());
}

#[test]
fn test_receiverstate_transitions() {
    let receiver = Receiver::new();
    let message = Message::Data { sequence: 1, payload: vec![1, 2, 3] };

    let receiver = receiver.receive(message.clone());
    assert_eq!(receiver.get_message(), &message);

    let receiver = receiver.process_message(&AcceptAll);
    assert!(receiver.is_ok());
    let mut idle = match receiver {
        Ok(r) => r.send_ack(),
        Err(r) => r.send_nack(),
    };
    assert_eq!(idle.take_outgoing(), vec![Message::Ack]);
}

#[test]
fn await_ack_rejects_anything_but_ack() {
    for reply in [None, Some(Message::Nack), Some(data(1, b"x"))] {
        let sending = Sender::new().send(data(1, b"x"));
        assert!(sending.await_ack(reply).is_err());
    }
    let sending = Sender::new().send(data(1, b"x"));
    assert!(sending.await_ack(Some(Message::Ack)).is_ok());
}

#[test]
fn every_message_is_valid() {
    assert!(data(3, b"abc").is_valid());
    assert!(data(0, b"").is_valid());
    assert!(Message::Ack.is_valid());
    assert!(Message::Nack.is_valid());
}

#[test]
fn outbox_is_emptied_by_taking_it() {
    let mut sending = Sender::new().send(data(5, b"five"));
    assert_eq!(sending.take_outgoing(), vec![data(5, b"five")]);
    assert_eq!(sending.take_outgoing(), Vec::<Message>::new());
}

#[test]
fn resend_repeats_the_same_datagram() {
    let message = data(2, b"Buzz");
    let sending = Sender::new().send(message.clone());
    let resend = match sending.await_ack(None) {
        Ok(_) => panic!("no acknowledgment was given"),
        Err(s) => s,
    };
    let mut sending = resend.resend(message.clone());
    let wire = sending.take_outgoing();
    assert_eq!(wire.len(), 2);
    assert_eq!(wire[0], wire[1]);
    assert_eq!(wire[0], message);
}

#[test]
fn fizz_is_delivered_in_one_round() {
    let message = data(1, b"Fizz");
    let receiver = Receiver::new();
    let mut sending = Sender::new().send(message.clone());

    let mut delivered = Vec::new();
    let mut acks = 0usize;
    let (mut receiver_idle, mut replies) = (receiver, Vec::new());
    for datagram in sending.take_outgoing() {
        delivered.push(datagram.clone());
        let (r, out) = answer(receiver_idle, datagram);
        receiver_idle = r;
        replies.extend(out);
    }
    assert_eq!(replies, vec![Message::Ack]);
    let awaiting = match sending.await_ack(replies.pop()) {
        Ok(s) => s,
        Err(_) => panic!("the acknowledgment was not taken"),
    };
    acks += 1;
    let mut idle = awaiting.on_ack_received();
    assert_eq!(idle.take_outgoing(), Vec::<Message>::new());
    assert_eq!(delivered, vec![message]);
    assert_eq!(acks, 1);
}

#[test]
fn lost_ack_leads_to_one_resend() {
    let message = data(2, b"Buzz");
    let mut receiver_idle = Receiver::new();
    let mut seen_by_receiver = Vec::new();
    let mut acks_seen_by_sender = 0usize;

    let mut sending = Sender::new().send(message.clone());
    let mut attempt = 0usize;
    let _idle: Sender<sender::Idle> = loop {
        attempt += 1;
        let mut reply = None;
        for datagram in sending.take_outgoing() {
            seen_by_receiver.push(datagram.clone());
            let (r, mut out) = answer(receiver_idle, datagram);
            receiver_idle = r;
            // The first acknowledgment is lost on the way back.
            reply = if attempt == 1 { None } else { out.pop() };
        }
        match sending.await_ack(reply) {
            Ok(s) => {
                acks_seen_by_sender += 1;
                break s.on_ack_received();
            }
            Err(s) => sending = s.resend(message.clone()),
        }
    };
    assert_eq!(seen_by_receiver, vec![message.clone(), message]);
    assert_eq!(acks_seen_by_sender, 1);
    assert_eq!(attempt, 2);
}

#[test]
fn hundred_messages_in_order() {
    let mut sender_idle = Sender::new();
    let mut receiver_idle = Receiver::new();
    let mut received = Vec::new();
    let mut acks = Vec::new();

    for i in 1..=100usize {
        let payload = if i % 15 == 0 {
            b"FizzBuzz".to_vec()
        } else if i % 3 == 0 {
            b"Fizz".to_vec()
        } else if i % 5 == 0 {
            b"Buzz".to_vec()
        } else {
            i.to_string().into_bytes()
        };
        let message = Message::Data { sequence: i, payload };
        let mut sending = sender_idle.send(message);
        let mut reply = None;
        for datagram in sending.take_outgoing() {
            if let Message::Data { sequence, .. } = &datagram {
                received.push(*sequence);
            }
            let (r, mut out) = answer(receiver_idle, datagram);
            receiver_idle = r;
            reply = out.pop();
        }
        match sending.await_ack(reply) {
            Ok(s) => {
                acks.push(i);
                sender_idle = s.on_ack_received();
            }
            Err(_) => panic!("a reliable link lost message {}", i),
        }
    }
    let expected: Vec<usize> = (1..=100).collect();
    assert_eq!(received, expected);
    assert_eq!(acks, expected);
}

#[test]
fn receiver_answers_a_replay_twice() {
    let message = data(7, b"again");
    let receiver = Receiver::new();
    let (receiver, first) = answer(receiver, message.clone());
    let (_, second) = answer(receiver, message.clone());
    assert_eq!(first, vec![Message::Ack]);
    assert_eq!(second, vec![Message::Ack]);

    let (_, fresh) = answer(Receiver::new(), message);
    assert_eq!(fresh, first);
}

#[test]
fn replies_accumulate_until_taken() {
    let mut receiver = Receiver::new();
    for i in 0..3usize {
        let received = receiver.receive(data(i, b"q"));
        receiver = match received.process_message(&AcceptAll) {
            Ok(r) => r.send_ack(),
            Err(r) => r.send_nack(),
        };
    }
    assert_eq!(receiver.take_outgoing(), vec![Message::Ack, Message::Ack, Message::Ack]);
}

#[test]
fn data_only_rejects_a_stray_ack_with_nack() {
    let received = Receiver::new().receive(Message::Ack);
    let rejected = match received.process_message(&DataOnly) {
        Ok(_) => panic!("an Ack is not data"),
        Err(r) => r,
    };
    let mut idle = rejected.send_nack();
    assert_eq!(idle.take_outgoing(), vec![Message::Nack]);

    // The receiver keeps no memory of the rejection.
    let received = idle.receive(data(1, b"ok"));
    let mut idle = match received.process_message(&DataOnly) {
        Ok(r) => r.send_ack(),
        Err(_) => panic!("data is accepted"),
    };
    assert_eq!(idle.take_outgoing(), vec![Message::Ack]);
}

#[test]
fn payload_checksum_decides_ack_or_nack() {
    let check = PayloadChecksum { checksum: 70 + 105 + 122 + 122 };
    let good = Receiver::new().receive(data(1, b"Fizz"));
    assert!(good.process_message(&check).is_ok());
    let bad = Receiver::new().receive(data(1, b"Buzz"));
    assert!(bad.process_message(&check).is_err());
    let control = Receiver::new().receive(Message::Nack);
    assert!(control.process_message(&check).is_err());
}

#[test]
fn validity_checks_answer_directly() {
    assert!(AcceptAll.is_valid(&Message::Nack));
    assert!(!DataOnly.is_valid(&Message::Ack));
    assert!(DataOnly.is_valid(&data(0, b"")));
    assert!(PayloadChecksum { checksum: 6 }.is_valid(&data(9, &[1, 2, 3])));
    assert!(!PayloadChecksum { checksum: 7 }.is_valid(&data(9, &[1, 2, 3])));
}
