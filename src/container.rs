use vstd::prelude::*;

use crate::channel::{ChannelMode, ChannelSettings};
use crate::error::ChannelError;
use crate::receivers::{
    accepts_sequenced, drain, packet_body, packet_id, payloads, sequenced_step, window_push,
    OrderedReliableReceiver, SequencedReliableReceiver, SequencedUnreliableReceiver,
    UnorderedReliableReceiver, UnorderedUnreliableReceiver,
};
use crate::sequence::{newer_spec, next_id_spec, u16_bytes};
use crate::senders::{
    after_tick, due_packets, packets_view, resend_timeout, without_id, InFlightView,
    ReliableSender, SequencedUnreliableSender, UnorderedUnreliableSender, FIRST_RELIABLE_ID,
};

verus! {

/// The sending half of a channel.
pub enum ChannelSender {
    UnorderedUnreliable(UnorderedUnreliableSender),
    SequencedUnreliable(SequencedUnreliableSender),
    Reliable(ReliableSender),
}

/// The receiving half of a channel.
pub enum ChannelReceiver {
    UnorderedUnreliable(UnorderedUnreliableReceiver),
    SequencedUnreliable(SequencedUnreliableReceiver),
    UnorderedReliable(UnorderedReliableReceiver),
    SequencedReliable(SequencedReliableReceiver),
    OrderedReliable(OrderedReliableReceiver),
}

/// The sender and receiver variants that `mode` calls for; a reliable sender
/// carries the mode's settings.
pub open spec fn pairing(mode: ChannelMode, sender: ChannelSender, receiver: ChannelReceiver) -> bool {
    match mode {
        ChannelMode::UnorderedUnreliable => sender is UnorderedUnreliable
            && receiver is UnorderedUnreliable,
        ChannelMode::SequencedUnreliable => sender is SequencedUnreliable
            && receiver is SequencedUnreliable,
        ChannelMode::UnorderedReliable(s) => sender matches ChannelSender::Reliable(x)
            && x.settings_view() == s && receiver is UnorderedReliable,
        ChannelMode::SequencedReliable(s) => sender matches ChannelSender::Reliable(x)
            && x.settings_view() == s && receiver is SequencedReliable,
        ChannelMode::OrderedReliable(s) => sender matches ChannelSender::Reliable(x)
            && x.settings_view() == s && receiver is OrderedReliable,
    }
}

/// A sender that has not been handed anything yet.
pub open spec fn fresh_sender(sender: ChannelSender) -> bool {
    match sender {
        ChannelSender::UnorderedUnreliable(s) => s.queue_view().len() == 0,
        ChannelSender::SequencedUnreliable(s) => s.queue_view().len() == 0 && s.next_view() == 0,
        ChannelSender::Reliable(s) => s.in_flight_view().len() == 0 && s.next_view()
            == FIRST_RELIABLE_ID,
    }
}

/// A receiver that has not seen any packet yet.
pub open spec fn fresh_receiver(receiver: ChannelReceiver) -> bool {
    match receiver {
        ChannelReceiver::UnorderedUnreliable(r) => r.ready_view().len() == 0,
        ChannelReceiver::SequencedUnreliable(r) => r.ready_view().len() == 0
            && r.last_view() is None,
        ChannelReceiver::UnorderedReliable(r) => r.wf() && r.ready_view().len() == 0
            && r.seen_view().len() == 0 && r.acks_view().len() == 0,
        ChannelReceiver::SequencedReliable(r) => r.ready_view().len() == 0 && r.last_view() is None
            && r.acks_view().len() == 0,
        ChannelReceiver::OrderedReliable(r) => r.ready_view().len() == 0 && r.next_view()
            == FIRST_RELIABLE_ID && r.buffer_view().len() == 0 && r.acks_view().len() == 0,
    }
}

/// The receiver's own invariant.
pub open spec fn receiver_wf(receiver: ChannelReceiver) -> bool {
    match receiver {
        ChannelReceiver::UnorderedReliable(r) => r.wf(),
        _ => true,
    }
}

/// `new` is `old` after being handed `payload`; `id` is the message id it got,
/// if the sender gives ids.
pub open spec fn sender_enqueued(old: ChannelSender, new: ChannelSender, payload: Seq<u8>, id: Option<u16>) -> bool {
    match (old, new) {
        (ChannelSender::UnorderedUnreliable(a), ChannelSender::UnorderedUnreliable(b)) => {
            &&& id is None
            &&& b.queue_view() == a.queue_view().push(payload)
        },
        (ChannelSender::SequencedUnreliable(a), ChannelSender::SequencedUnreliable(b)) => {
            &&& id is None
            &&& b.queue_view() == a.queue_view().push(u16_bytes(a.next_view()) + payload)
            &&& b.next_view() == next_id_spec(a.next_view())
        },
        (ChannelSender::Reliable(a), ChannelSender::Reliable(b)) => {
            &&& id == Some(a.next_view())
            &&& b.next_view() == next_id_spec(a.next_view())
            &&& b.settings_view() == a.settings_view()
            &&& b.in_flight_view() == a.in_flight_view().push(
                InFlightView {
                    message_id: a.next_view(),
                    payload,
                    last_sent_at: 0,
                    send_count: 0,
                },
            )
        },
        _ => false,
    }
}

/// `new` is `old` after a tick at `now` that emitted `packets`.
pub open spec fn sender_ticked(old: ChannelSender, new: ChannelSender, now: u64, rtt_ms: Option<u64>, packets: Seq<Seq<u8>>) -> bool {
    match (old, new) {
        (ChannelSender::UnorderedUnreliable(a), ChannelSender::UnorderedUnreliable(b)) => {
            &&& packets == a.queue_view()
            &&& b.queue_view().len() == 0
        },
        (ChannelSender::SequencedUnreliable(a), ChannelSender::SequencedUnreliable(b)) => {
            &&& packets == a.queue_view()
            &&& b.queue_view().len() == 0
            &&& b.next_view() == a.next_view()
        },
        (ChannelSender::Reliable(a), ChannelSender::Reliable(b)) => {
            let timeout = resend_timeout(rtt_ms, a.settings_view().rtt_resend_factor_milli);
            &&& packets == due_packets(a.in_flight_view(), now, timeout)
            &&& b.in_flight_view() == after_tick(a.in_flight_view(), now, timeout)
            &&& b.next_view() == a.next_view()
            &&& b.settings_view() == a.settings_view()
        },
        _ => false,
    }
}

/// `new` is `old` after the acknowledgement of `id`; senders without ids
/// ignore it.
pub open spec fn sender_acked(old: ChannelSender, new: ChannelSender, id: u16) -> bool {
    match (old, new) {
        (ChannelSender::Reliable(a), ChannelSender::Reliable(b)) => {
            &&& b.in_flight_view() == without_id(a.in_flight_view(), id)
            &&& b.next_view() == a.next_view()
            &&& b.settings_view() == a.settings_view()
        },
        _ => new == old,
    }
}

/// `new` is `old` after receiving `packet` with outcome `r`.
pub open spec fn receiver_received(old: ChannelReceiver, new: ChannelReceiver, packet: Seq<u8>, r: Result<(), ChannelError>) -> bool {
    let id = packet_id(packet);
    let body = packet_body(packet);
    match (old, new) {
        (ChannelReceiver::UnorderedUnreliable(a), ChannelReceiver::UnorderedUnreliable(b)) => {
            &&& r is Ok
            &&& b.ready_view() == a.ready_view().push(packet)
        },
        (ChannelReceiver::SequencedUnreliable(a), ChannelReceiver::SequencedUnreliable(b)) => {
            &&& (packet.len() < 2 <==> r is Err)
            &&& r is Err ==> r == Err::<(), _>(ChannelError::DecodeError) && b == a
            &&& r is Ok ==> {
                &&& b.last_view() == sequenced_step(a.last_view(), id)
                &&& b.ready_view() == if accepts_sequenced(a.last_view(), id) {
                    a.ready_view().push(body)
                } else {
                    a.ready_view()
                }
            }
        },
        (ChannelReceiver::UnorderedReliable(a), ChannelReceiver::UnorderedReliable(b)) => {
            let fresh = !a.seen_view().contains(id);
            &&& (packet.len() < 2 <==> r is Err)
            &&& r is Err ==> r == Err::<(), _>(ChannelError::DecodeError) && b == a
            &&& r is Ok ==> {
                &&& b.acks_view() == a.acks_view().push(id)
                &&& b.seen_view() == if fresh {
                    window_push(a.seen_view(), id)
                } else {
                    a.seen_view()
                }
                &&& b.ready_view() == if fresh {
                    a.ready_view().push(body)
                } else {
                    a.ready_view()
                }
            }
        },
        (ChannelReceiver::SequencedReliable(a), ChannelReceiver::SequencedReliable(b)) => {
            &&& (packet.len() < 2 <==> r is Err)
            &&& r is Err ==> r == Err::<(), _>(ChannelError::DecodeError) && b == a
            &&& r is Ok ==> {
                &&& b.acks_view() == a.acks_view().push(id)
                &&& b.last_view() == sequenced_step(a.last_view(), id)
                &&& b.ready_view() == if accepts_sequenced(a.last_view(), id) {
                    a.ready_view().push(body)
                } else {
                    a.ready_view()
                }
            }
        },
        (ChannelReceiver::OrderedReliable(a), ChannelReceiver::OrderedReliable(b)) => {
            let n = a.next_view();
            &&& (packet.len() < 2 <==> r is Err)
            &&& r is Err ==> r == Err::<(), _>(ChannelError::DecodeError) && b.ready_view()
                == a.ready_view() && b.next_view() == n && b.buffer_view() == a.buffer_view()
                && b.acks_view() == a.acks_view()
            &&& r is Ok ==> if id == n {
                let (n2, buf2, rd2) = drain(
                    next_id_spec(n),
                    a.buffer_view(),
                    a.ready_view().push(body),
                );
                &&& b.next_view() == n2
                &&& b.buffer_view() == buf2
                &&& b.ready_view() == rd2
                &&& b.acks_view() == a.acks_view().push(id)
            } else if newer_spec(id, n) {
                &&& b.next_view() == n
                &&& b.buffer_view() == a.buffer_view().insert(id, body)
                &&& b.ready_view() == a.ready_view()
                &&& b.acks_view() == a.acks_view().push(id)
            } else {
                &&& b.next_view() == n
                &&& b.buffer_view() == a.buffer_view()
                &&& b.ready_view() == a.ready_view()
                &&& b.acks_view() == a.acks_view()
            }
        },
        _ => false,
    }
}

/// The messages ready for the application in a receiver.
pub open spec fn receiver_ready(r: ChannelReceiver) -> Seq<Seq<u8>> {
    match r {
        ChannelReceiver::UnorderedUnreliable(a) => a.ready_view(),
        ChannelReceiver::SequencedUnreliable(a) => a.ready_view(),
        ChannelReceiver::UnorderedReliable(a) => a.ready_view(),
        ChannelReceiver::SequencedReliable(a) => a.ready_view(),
        ChannelReceiver::OrderedReliable(a) => a.ready_view(),
    }
}

/// The ids a receiver has yet to acknowledge; none for unreliable ones.
pub open spec fn receiver_acks(r: ChannelReceiver) -> Seq<u16> {
    match r {
        ChannelReceiver::UnorderedReliable(a) => a.acks_view(),
        ChannelReceiver::SequencedReliable(a) => a.acks_view(),
        ChannelReceiver::OrderedReliable(a) => a.acks_view(),
        _ => Seq::empty(),
    }
}

/// `new` is `old` with its ready messages handed out.
pub open spec fn receiver_read(old: ChannelReceiver, new: ChannelReceiver) -> bool {
    match (old, new) {
        (ChannelReceiver::UnorderedUnreliable(a), ChannelReceiver::UnorderedUnreliable(b)) => b.ready_view().len() == 0,
        (ChannelReceiver::SequencedUnreliable(a), ChannelReceiver::SequencedUnreliable(b)) => b.ready_view().len() == 0 && b.last_view() == a.last_view(),
        (ChannelReceiver::UnorderedReliable(a), ChannelReceiver::UnorderedReliable(b)) => b.ready_view().len() == 0 && b.seen_view() == a.seen_view() && b.acks_view() == a.acks_view(),
        (ChannelReceiver::SequencedReliable(a), ChannelReceiver::SequencedReliable(b)) => b.ready_view().len() == 0 && b.last_view() == a.last_view() && b.acks_view() == a.acks_view(),
        (ChannelReceiver::OrderedReliable(a), ChannelReceiver::OrderedReliable(b)) => b.ready_view().len() == 0 && b.next_view() == a.next_view() && b.buffer_view() == a.buffer_view() && b.acks_view() == a.acks_view(),
        _ => false,
    }
}

/// `new` is `old` with its acknowledgements handed out.
pub open spec fn receiver_acks_taken(old: ChannelReceiver, new: ChannelReceiver) -> bool {
    match (old, new) {
        (ChannelReceiver::UnorderedReliable(a), ChannelReceiver::UnorderedReliable(b)) => b.acks_view().len() == 0 && b.seen_view() == a.seen_view() && b.ready_view() == a.ready_view(),
        (ChannelReceiver::SequencedReliable(a), ChannelReceiver::SequencedReliable(b)) => b.acks_view().len() == 0 && b.last_view() == a.last_view() && b.ready_view() == a.ready_view(),
        (ChannelReceiver::OrderedReliable(a), ChannelReceiver::OrderedReliable(b)) => b.acks_view().len() == 0 && b.next_view() == a.next_view() && b.buffer_view() == a.buffer_view() && b.ready_view() == a.ready_view(),
        _ => new == old,
    }
}

/// The sender and the receiver of one channel on one connection.
pub struct ChannelContainer {
    pub setting: ChannelSettings,
    receiver: ChannelReceiver,
    sender: ChannelSender,
}

impl ChannelContainer {
    pub closed spec fn settings_spec(&self) -> ChannelSettings {
        self.setting
    }

    pub closed spec fn sender_spec(&self) -> ChannelSender {
        self.sender
    }

    pub closed spec fn receiver_spec(&self) -> ChannelReceiver {
        self.receiver
    }

    /// The sender and receiver are those the mode calls for.
    pub open spec fn wf(&self) -> bool {
        &&& pairing(self.settings_spec().mode, self.sender_spec(), self.receiver_spec())
        &&& receiver_wf(self.receiver_spec())
    }

    /// Builds the sender and receiver that `settings.mode` calls for.
    pub fn new(settings: ChannelSettings) -> (r: Self)
        ensures
            r.settings_spec() == settings,
            r.wf(),
            fresh_sender(r.sender_spec()),
            fresh_receiver(r.receiver_spec()),
    {
        let receiver: ChannelReceiver;
        let sender: ChannelSender;
        match settings.mode {
            ChannelMode::UnorderedUnreliable => {
                receiver = ChannelReceiver::UnorderedUnreliable(UnorderedUnreliableReceiver::new());
                sender = ChannelSender::UnorderedUnreliable(UnorderedUnreliableSender::new());
            },
            ChannelMode::SequencedUnreliable => {
                receiver = ChannelReceiver::SequencedUnreliable(SequencedUnreliableReceiver::new());
                sender = ChannelSender::SequencedUnreliable(SequencedUnreliableSender::new());
            },
            ChannelMode::UnorderedReliable(reliable_settings) => {
                receiver = ChannelReceiver::UnorderedReliable(UnorderedReliableReceiver::new());
                sender = ChannelSender::Reliable(ReliableSender::new(reliable_settings));
            },
            ChannelMode::SequencedReliable(reliable_settings) => {
                receiver = ChannelReceiver::SequencedReliable(SequencedReliableReceiver::new());
                sender = ChannelSender::Reliable(ReliableSender::new(reliable_settings));
            },
            ChannelMode::OrderedReliable(reliable_settings) => {
                receiver = ChannelReceiver::OrderedReliable(OrderedReliableReceiver::new());
                sender = ChannelSender::Reliable(ReliableSender::new(reliable_settings));
            },
        }
        ChannelContainer { setting: settings, receiver, sender }
    }

    pub fn sender(&self) -> (r: &ChannelSender)
        ensures
            *r == self.sender_spec(),
    {
        &self.sender
    }

    pub fn receiver(&self) -> (r: &ChannelReceiver)
        ensures
            *r == self.receiver_spec(),
    {
        &self.receiver
    }
    /// Hands a message to the sender; returns its message id on reliable
    /// channels.
    pub fn buffer_send(&mut self, payload: Vec<u8>) -> (r: Option<u16>)
        requires
            old(self).wf(),
        ensures
            final(self).wf(),
            final(self).settings_spec() == old(self).settings_spec(),
            final(self).receiver_spec() == old(self).receiver_spec(),
            sender_enqueued(old(self).sender_spec(), final(self).sender_spec(), payload@, r),
    {
        match &mut self.sender {
            ChannelSender::UnorderedUnreliable(s) => {
                s.enqueue(payload);
                None
            },
            ChannelSender::SequencedUnreliable(s) => {
                s.enqueue(payload.as_slice());
                None
            },
            ChannelSender::Reliable(s) => Some(s.enqueue(payload)),
        }
    }

    /// The packets the sender emits on a tick at `now_ms`, given the current
    /// round-trip estimate.
    pub fn send_packets(&mut self, now_ms: u64, rtt_ms: Option<u64>) -> (r: Vec<Vec<u8>>)
        requires
            old(self).wf(),
        ensures
            final(self).wf(),
            final(self).settings_spec() == old(self).settings_spec(),
            final(self).receiver_spec() == old(self).receiver_spec(),
            sender_ticked(
                old(self).sender_spec(),
                final(self).sender_spec(),
                now_ms,
                rtt_ms,
                packets_view(r@),
            ),
    {
        match &mut self.sender {
            ChannelSender::UnorderedUnreliable(s) => s.collect_packets_to_send(),
            ChannelSender::SequencedUnreliable(s) => s.collect_packets_to_send(),
            ChannelSender::Reliable(s) => s.collect_packets_to_send(now_ms, rtt_ms),
        }
    }

    /// Hands an acknowledged message id to the sender.
    pub fn receive_ack(&mut self, message_id: u16)
        requires
            old(self).wf(),
        ensures
            final(self).wf(),
            final(self).settings_spec() == old(self).settings_spec(),
            final(self).receiver_spec() == old(self).receiver_spec(),
            sender_acked(old(self).sender_spec(), final(self).sender_spec(), message_id),
    {
        match &mut self.sender {
            ChannelSender::Reliable(s) => s.acknowledge(message_id),
            _ => {},
        }
    }

    /// Hands a packet of this channel, header removed, to the receiver.
    pub fn receive_packet(&mut self, packet: Vec<u8>) -> (r: Result<(), ChannelError>)
        requires
            old(self).wf(),
        ensures
            final(self).wf(),
            final(self).settings_spec() == old(self).settings_spec(),
            final(self).sender_spec() == old(self).sender_spec(),
            receiver_received(old(self).receiver_spec(), final(self).receiver_spec(), packet@, r),
    {
        match &mut self.receiver {
            ChannelReceiver::UnorderedUnreliable(x) => {
                x.receive(packet);
                Ok(())
            },
            ChannelReceiver::SequencedUnreliable(x) => x.receive(packet.as_slice()),
            ChannelReceiver::UnorderedReliable(x) => x.receive(packet.as_slice()),
            ChannelReceiver::SequencedReliable(x) => x.receive(packet.as_slice()),
            ChannelReceiver::OrderedReliable(x) => x.receive(packet.as_slice()),
        }
    }

    /// Hands out the messages ready for the application, in delivery order.
    pub fn read_messages(&mut self) -> (r: Vec<Vec<u8>>)
        requires
            old(self).wf(),
        ensures
            final(self).wf(),
            final(self).settings_spec() == old(self).settings_spec(),
            final(self).sender_spec() == old(self).sender_spec(),
            payloads(r@) == receiver_ready(old(self).receiver_spec()),
            receiver_read(old(self).receiver_spec(), final(self).receiver_spec()),
    {
        match &mut self.receiver {
            ChannelReceiver::UnorderedUnreliable(x) => x.read_messages(),
            ChannelReceiver::SequencedUnreliable(x) => x.read_messages(),
            ChannelReceiver::UnorderedReliable(x) => x.read_messages(),
            ChannelReceiver::SequencedReliable(x) => x.read_messages(),
            ChannelReceiver::OrderedReliable(x) => x.read_messages(),
        }
    }

    /// Hands out the message ids to acknowledge to the peer; none on
    /// unreliable channels.
    pub fn drain_acks(&mut self) -> (r: Vec<u16>)
        requires
            old(self).wf(),
        ensures
            final(self).wf(),
            final(self).settings_spec() == old(self).settings_spec(),
            final(self).sender_spec() == old(self).sender_spec(),
            r@ == receiver_acks(old(self).receiver_spec()),
            receiver_acks_taken(old(self).receiver_spec(), final(self).receiver_spec()),
    {
        match &mut self.receiver {
            ChannelReceiver::UnorderedReliable(x) => x.drain_acks(),
            ChannelReceiver::SequencedReliable(x) => x.drain_acks(),
            ChannelReceiver::OrderedReliable(x) => x.drain_acks(),
            _ => Vec::new(),
        }
    }
}

} // verus!
