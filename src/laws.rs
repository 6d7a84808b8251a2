use vstd::prelude::*;

use crate::container::{
    receiver_ready, receiver_received, sender_enqueued, sender_ticked, ChannelContainer,
    ChannelReceiver, ChannelSender,
};
use crate::error::ChannelError;
use crate::receivers::{accepts_sequenced, packet_body, packet_id, sequenced_step};
use crate::sequence::{lemma_u16_round_trip, newer_spec, u16_of};
use crate::senders::{
    after_tick, due_packets, is_due, record_packet, without_id, InFlightView,
};

verus! {

/// Payloads handed to an unordered unreliable channel come out of its sender
/// as they went in, and each is ready at the receiver as soon as it arrives.
pub proof fn lemma_unreliable_pass_through(
    senders: Seq<ChannelSender>,
    payloads: Seq<Seq<u8>>,
    ticked: ChannelSender,
    now: u64,
    rtt_ms: Option<u64>,
    packets: Seq<Seq<u8>>,
    receivers: Seq<ChannelReceiver>,
    results: Seq<Result<(), ChannelError>>,
)
    requires
        senders.len() == payloads.len() + 1,
        senders[0] matches ChannelSender::UnorderedUnreliable(s0) && s0.queue_view().len() == 0,
        forall|i: int|
            0 <= i < payloads.len() ==> #[trigger] sender_enqueued(
                senders[i],
                senders[i + 1],
                payloads[i],
                None,
            ),
        sender_ticked(senders.last(), ticked, now, rtt_ms, packets),
        receivers.len() == packets.len() + 1,
        results.len() == packets.len(),
        receivers[0] matches ChannelReceiver::UnorderedUnreliable(r0) && r0.ready_view().len()
            == 0,
        forall|i: int|
            0 <= i < packets.len() ==> #[trigger] receiver_received(
                receivers[i],
                receivers[i + 1],
                packets[i],
                results[i],
            ),
    ensures
        packets == payloads,
        receiver_ready(receivers.last()) == payloads,
{
    lemma_unordered_queue(senders, payloads, payloads.len() as int);
    lemma_unordered_ready(receivers, packets, results, packets.len() as int);
}

proof fn lemma_unordered_queue(senders: Seq<ChannelSender>, payloads: Seq<Seq<u8>>, n: int)
    requires
        senders.len() == payloads.len() + 1,
        0 <= n <= payloads.len(),
        senders[0] matches ChannelSender::UnorderedUnreliable(s0) && s0.queue_view().len() == 0,
        forall|i: int|
            0 <= i < payloads.len() ==> #[trigger] sender_enqueued(
                senders[i],
                senders[i + 1],
                payloads[i],
                None,
            ),
    ensures
        senders[n] matches ChannelSender::UnorderedUnreliable(s) && s.queue_view()
            == payloads.subrange(0, n),
    decreases n,
{
    if n == 0 {
        let s0 = senders[0]->UnorderedUnreliable_0;
        assert(s0.queue_view() =~= payloads.subrange(0, 0));
    } else {
        lemma_unordered_queue(senders, payloads, n - 1);
        let i = n - 1;
        assert(sender_enqueued(senders[i], senders[i + 1], payloads[i], None));
        assert(payloads.subrange(0, n) =~= payloads.subrange(0, n - 1).push(payloads[n - 1]));
    }
}

proof fn lemma_unordered_ready(
    receivers: Seq<ChannelReceiver>,
    packets: Seq<Seq<u8>>,
    results: Seq<Result<(), ChannelError>>,
    n: int,
)
    requires
        receivers.len() == packets.len() + 1,
        results.len() == packets.len(),
        0 <= n <= packets.len(),
        receivers[0] matches ChannelReceiver::UnorderedUnreliable(r0) && r0.ready_view().len()
            == 0,
        forall|i: int|
            0 <= i < packets.len() ==> #[trigger] receiver_received(
                receivers[i],
                receivers[i + 1],
                packets[i],
                results[i],
            ),
    ensures
        receivers[n] matches ChannelReceiver::UnorderedUnreliable(r) && r.ready_view()
            == packets.subrange(0, n),
    decreases n,
{
    if n == 0 {
        let r0 = receivers[0]->UnorderedUnreliable_0;
        assert(r0.ready_view() =~= packets.subrange(0, 0));
    } else {
        lemma_unordered_ready(receivers, packets, results, n - 1);
        let i = n - 1;
        assert(receiver_received(receivers[i], receivers[i + 1], packets[i], results[i]));
        assert(packets.subrange(0, n) =~= packets.subrange(0, n - 1).push(packets[n - 1]));
    }
}

/// The packets that a sequenced receiver whose newest accepted id is `last`
/// accepts when `packets` arrive in that order.
pub open spec fn sequenced_accepted(last: Option<u16>, packets: Seq<Seq<u8>>) -> Seq<Seq<u8>>
    decreases packets.len(),
{
    if packets.len() == 0 {
        Seq::empty()
    } else {
        let prev = sequenced_accepted(last, packets.drop_last());
        if accepts_sequenced(sequenced_last(last, packets.drop_last()), packet_id(packets.last())) {
            prev.push(packets.last())
        } else {
            prev
        }
    }
}

/// The newest accepted id after `packets` arrived.
pub open spec fn sequenced_last(last: Option<u16>, packets: Seq<Seq<u8>>) -> Option<u16>
    decreases packets.len(),
{
    if packets.len() == 0 {
        last
    } else {
        sequenced_step(sequenced_last(last, packets.drop_last()), packet_id(packets.last()))
    }
}

/// A sequenced receiver accepts a subsequence of the arriving packets in which
/// each id is newer than the one accepted before it, the first one newer than
/// what was accepted before; the last accepted id is the newest accepted one.
pub proof fn lemma_sequenced_monotonic(last: Option<u16>, packets: Seq<Seq<u8>>)
    ensures
        ({
            let d = sequenced_accepted(last, packets);
            &&& forall|i: int|
                0 < i < d.len() ==> newer_spec(packet_id(#[trigger] d[i]), packet_id(d[i - 1]))
            &&& d.len() > 0 ==> accepts_sequenced(last, packet_id(d[0]))
            &&& d.len() > 0 ==> sequenced_last(last, packets) == Some(packet_id(d.last()))
            &&& d.len() == 0 ==> sequenced_last(last, packets) == last
            &&& forall|i: int| 0 <= i < d.len() ==> packets.contains(#[trigger] d[i])
            &&& d.len() <= packets.len()
        }),
    decreases packets.len(),
{
    if packets.len() > 0 {
        let pre = packets.drop_last();
        lemma_sequenced_monotonic(last, pre);
        let d = sequenced_accepted(last, packets);
        let dp = sequenced_accepted(last, pre);
        assert forall|i: int| 0 <= i < d.len() implies packets.contains(#[trigger] d[i]) by {
            if i < dp.len() {
                assert(pre.contains(dp[i]));
                let j = choose|j: int| 0 <= j < pre.len() && pre[j] == dp[i];
                assert(packets[j] == d[i]);
            } else {
                assert(packets[packets.len() - 1] == d[i]);
            }
        }
    }
}

/// A sequenced unreliable receiver fed well-formed `packets` ends with the
/// bodies of the accepted packets, in arrival order, after what was ready
/// before.
pub proof fn lemma_sequenced_receiver_trace(
    receivers: Seq<ChannelReceiver>,
    packets: Seq<Seq<u8>>,
    results: Seq<Result<(), ChannelError>>,
    n: int,
)
    requires
        receivers.len() == packets.len() + 1,
        results.len() == packets.len(),
        0 <= n <= packets.len(),
        receivers[0] is SequencedUnreliable,
        forall|i: int| 0 <= i < packets.len() ==> (#[trigger] packets[i]).len() >= 2,
        forall|i: int|
            0 <= i < packets.len() ==> #[trigger] receiver_received(
                receivers[i],
                receivers[i + 1],
                packets[i],
                results[i],
            ),
    ensures
        receivers[n] matches ChannelReceiver::SequencedUnreliable(r) && {
            let r0 = receivers[0]->SequencedUnreliable_0;
            let seen = packets.subrange(0, n);
            &&& r.last_view() == sequenced_last(r0.last_view(), seen)
            &&& r.ready_view() == r0.ready_view() + sequenced_accepted(
                r0.last_view(),
                seen,
            ).map_values(|p: Seq<u8>| packet_body(p))
        },
    decreases n,
{
    let r0 = receivers[0]->SequencedUnreliable_0;
    if n == 0 {
        assert(r0.ready_view() + sequenced_accepted(r0.last_view(), packets.subrange(0, 0)).map_values(
            |p: Seq<u8>| packet_body(p),
        ) =~= r0.ready_view());
    } else {
        lemma_sequenced_receiver_trace(receivers, packets, results, n - 1);
        let i = n - 1;
        assert(receiver_received(receivers[i], receivers[i + 1], packets[i], results[i]));
        let seen = packets.subrange(0, n);
        let pre = packets.subrange(0, n - 1);
        assert(seen.drop_last() =~= pre);
        assert(packets[i].len() >= 2);
        let acc = sequenced_accepted(r0.last_view(), seen);
        let accp = sequenced_accepted(r0.last_view(), pre);
        let body_of = |p: Seq<u8>| packet_body(p);
        if accepts_sequenced(sequenced_last(r0.last_view(), pre), packet_id(packets[i])) {
            assert(acc.map_values(body_of) =~= accp.map_values(body_of).push(
                packet_body(packets[i]),
            ));
            assert(r0.ready_view() + acc.map_values(body_of) =~= (r0.ready_view()
                + accp.map_values(body_of)).push(packet_body(packets[i])));
        } else {
            assert(acc == accp);
        }
    }
}

/// A message sent at some time and not acknowledged is sent again, with the
/// same id and payload, on the first tick at which the resend timeout has
/// passed, and it stays in flight after that tick.
pub proof fn lemma_resent_after_timeout(recs: Seq<InFlightView>, i: int, now: u64, timeout: int)
    requires
        0 <= i < recs.len(),
        recs[i].send_count > 0,
        now >= recs[i].last_sent_at,
        now - recs[i].last_sent_at >= timeout,
    ensures
        is_due(recs[i], now, timeout),
        due_packets(recs, now, timeout).contains(record_packet(recs[i])),
        after_tick(recs, now, timeout)[i].message_id == recs[i].message_id,
        after_tick(recs, now, timeout)[i].payload == recs[i].payload,
        after_tick(recs, now, timeout)[i].last_sent_at == now,
    decreases recs.len(),
{
    if i < recs.len() - 1 {
        let pre = recs.drop_last();
        lemma_resent_after_timeout(pre, i, now, timeout);
        assert(pre[i] == recs[i]);
        let dp = due_packets(pre, now, timeout);
        let j = choose|j: int| 0 <= j < dp.len() && dp[j] == record_packet(recs[i]);
        assert(due_packets(recs, now, timeout)[j] == record_packet(recs[i]));
    } else {
        let d = due_packets(recs, now, timeout);
        assert(d[d.len() - 1] == record_packet(recs[i]));
    }
}

/// A message that is not due emits nothing: the tick emits the same packets
/// as it would without it. So no message is resent before its timeout.
pub proof fn lemma_not_resent_early(recs: Seq<InFlightView>, i: int, now: u64, timeout: int)
    requires
        0 <= i < recs.len(),
        !is_due(recs[i], now, timeout),
    ensures
        due_packets(recs, now, timeout) == due_packets(recs.remove(i), now, timeout),
    decreases recs.len(),
{
    if i < recs.len() - 1 {
        let pre = recs.drop_last();
        assert(pre[i] == recs[i]);
        lemma_not_resent_early(pre, i, now, timeout);
        assert(recs.remove(i).drop_last() =~= pre.remove(i));
        assert(recs.remove(i).last() == recs.last());
    } else {
        assert(recs.remove(i) =~= recs.drop_last());
    }
}

/// After `id` is acknowledged no record with that id is left, acknowledging it
/// again changes nothing, and no later tick emits a packet with that id.
pub proof fn lemma_ack_removes(recs: Seq<InFlightView>, id: u16, now: u64, timeout: int)
    ensures
        forall|j: int|
            0 <= j < without_id(recs, id).len() ==> (#[trigger] without_id(recs, id)[j]).message_id
                != id,
        without_id(without_id(recs, id), id) == without_id(recs, id),
{
    lemma_without_id_has_none(recs, id);
    lemma_without_absent(without_id(recs, id), id);
}

/// A tick over records none of which has id `id` emits no packet with that id
/// and leaves no record with it: so no later tick does either.
pub proof fn lemma_no_packet_for_absent_id(recs: Seq<InFlightView>, id: u16, now: u64, timeout: int)
    requires
        forall|j: int| 0 <= j < recs.len() ==> (#[trigger] recs[j]).message_id != id,
    ensures
        forall|k: int|
            0 <= k < due_packets(recs, now, timeout).len() ==> u16_of(
                #[trigger] due_packets(recs, now, timeout)[k],
            ) != id,
        forall|j: int|
            0 <= j < after_tick(recs, now, timeout).len() ==> (#[trigger] after_tick(
                recs,
                now,
                timeout,
            )[j]).message_id != id,
    decreases recs.len(),
{
    if recs.len() > 0 {
        let pre = recs.drop_last();
        assert forall|j: int| 0 <= j < pre.len() implies (#[trigger] pre[j]).message_id != id by {
            assert(pre[j] == recs[j]);
        }
        lemma_no_packet_for_absent_id(pre, id, now, timeout);
        lemma_u16_round_trip(recs.last().message_id, recs.last().payload);
        assert(recs[recs.len() - 1].message_id != id);
        let d = due_packets(recs, now, timeout);
        let dp = due_packets(pre, now, timeout);
        assert forall|k: int| 0 <= k < d.len() implies u16_of(#[trigger] d[k]) != id by {
            if k < dp.len() {
                assert(d[k] == dp[k]);
            } else {
                assert(d[k] == record_packet(recs.last()));
            }
        }
        let t = after_tick(recs, now, timeout);
        assert forall|j: int| 0 <= j < t.len() implies (#[trigger] t[j]).message_id != id by {
            assert(recs[j].message_id != id);
        }
    }
}

proof fn lemma_without_id_has_none(recs: Seq<InFlightView>, id: u16)
    ensures
        forall|j: int|
            0 <= j < without_id(recs, id).len() ==> (#[trigger] without_id(recs, id)[j]).message_id
                != id,
    decreases recs.len(),
{
    if recs.len() > 0 {
        let pre = recs.drop_last();
        lemma_without_id_has_none(pre, id);
        let w = without_id(recs, id);
        let wp = without_id(pre, id);
        assert forall|j: int| 0 <= j < w.len() implies (#[trigger] w[j]).message_id != id by {
            if j < wp.len() {
                assert(w[j] == wp[j]);
            }
        }
    }
}

proof fn lemma_without_absent(recs: Seq<InFlightView>, id: u16)
    requires
        forall|j: int| 0 <= j < recs.len() ==> (#[trigger] recs[j]).message_id != id,
    ensures
        without_id(recs, id) == recs,
    decreases recs.len(),
{
    if recs.len() > 0 {
        let pre = recs.drop_last();
        assert forall|j: int| 0 <= j < pre.len() implies (#[trigger] pre[j]).message_id != id by {
            assert(pre[j] == recs[j]);
        }
        lemma_without_absent(pre, id);
        assert(recs[recs.len() - 1].message_id != id);
        assert(pre.push(recs.last()) =~= recs);
    }
}

/// A container whose mode is ordered reliable, as the registry builds it, has
/// a reliable sender with the mode's settings and an ordered receiver.
pub proof fn lemma_ordered_reliable_pairing(c: ChannelContainer)
    requires
        c.wf(),
        c.settings_spec().mode is OrderedReliable,
    ensures
        c.sender_spec() matches ChannelSender::Reliable(s) && s.settings_view()
            == c.settings_spec().mode->OrderedReliable_0,
        c.receiver_spec() is OrderedReliable,
{
}

} // verus!
