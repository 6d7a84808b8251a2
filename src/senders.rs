use vstd::prelude::*;

use crate::sequence::{frame_with_id, next_id, next_id_spec, u16_bytes};
use crate::settings::ReliableSettings;

verus! {

/// Resend timeout, in milliseconds, used while no round-trip estimate is known.
pub const FALLBACK_RESEND_MS: u64 = 200;

/// A copy of `v`.
fn copy_bytes(v: &[u8]) -> (r: Vec<u8>)
    ensures
        r@ == v@,
{
    let mut out: Vec<u8> = Vec::new();
    let mut i: usize = 0;
    while i < v.len()
        invariant
            0 <= i <= v@.len(),
            out@ == v@.subrange(0, i as int),
        decreases v@.len() - i,
    {
        out.push(v[i]);
        i += 1;
        assert(v@.subrange(0, i as int) =~= v@.subrange(0, i - 1 as int).push(v@[i - 1]));
    }
    assert(v@.subrange(0, v@.len() as int) =~= v@);
    out
}

fn take_packets(queue: &mut Vec<Vec<u8>>) -> (r: Vec<Vec<u8>>)
    ensures
        r@ == old(queue)@,
        final(queue)@ == Seq::<Vec<u8>>::empty(),
{
    let mut out: Vec<Vec<u8>> = Vec::new();
    std::mem::swap(queue, &mut out);
    out
}

/// The contents of a list of byte buffers.
pub open spec fn packets_view(v: Seq<Vec<u8>>) -> Seq<Seq<u8>> {
    v.map_values(|p: Vec<u8>| p@)
}

/// Sends each message once, as it is, with nothing added.
pub struct UnorderedUnreliableSender {
    queue: Vec<Vec<u8>>,
}

impl UnorderedUnreliableSender {
    /// Packets waiting for the next tick, oldest first.
    pub closed spec fn queue_view(&self) -> Seq<Seq<u8>> {
        packets_view(self.queue@)
    }

    pub fn new() -> (r: Self)
        ensures
            r.queue_view() == Seq::<Seq<u8>>::empty(),
    {
        let r = UnorderedUnreliableSender { queue: Vec::new() };
        assert(r.queue_view() =~= Seq::<Seq<u8>>::empty());
        r
    }

    /// The payload becomes one packet of its own.
    pub fn enqueue(&mut self, payload: Vec<u8>)
        ensures
            final(self).queue_view() == old(self).queue_view().push(payload@),
    {
        self.queue.push(payload);
        assert(self.queue_view() =~= old(self).queue_view().push(payload@));
    }

    /// Hands out the packets of this tick, oldest first, and forgets them.
    pub fn collect_packets_to_send(&mut self) -> (r: Vec<Vec<u8>>)
        ensures
            packets_view(r@) == old(self).queue_view(),
            final(self).queue_view() == Seq::<Seq<u8>>::empty(),
    {
        let r = take_packets(&mut self.queue);
        assert(self.queue_view() =~= Seq::<Seq<u8>>::empty());
        r
    }
}

/// Sends each message once, behind a sequence number that grows by one
/// (wrapping) from message to message.
pub struct SequencedUnreliableSender {
    next_sequence: u16,
    queue: Vec<Vec<u8>>,
}

impl SequencedUnreliableSender {
    pub closed spec fn queue_view(&self) -> Seq<Seq<u8>> {
        packets_view(self.queue@)
    }

    /// The sequence number the next message gets.
    pub closed spec fn next_view(&self) -> u16 {
        self.next_sequence
    }

    pub fn new() -> (r: Self)
        ensures
            r.queue_view() == Seq::<Seq<u8>>::empty(),
            r.next_view() == 0,
    {
        let r = SequencedUnreliableSender { next_sequence: 0, queue: Vec::new() };
        assert(r.queue_view() =~= Seq::<Seq<u8>>::empty());
        r
    }

    /// Frames the payload behind the next sequence number.
    pub fn enqueue(&mut self, payload: &[u8])
        ensures
            final(self).queue_view() == old(self).queue_view().push(
                u16_bytes(old(self).next_view()) + payload@,
            ),
            final(self).next_view() == next_id_spec(old(self).next_view()),
    {
        let packet = frame_with_id(self.next_sequence, payload);
        let ghost p = packet@;
        self.queue.push(packet);
        self.next_sequence = next_id(self.next_sequence);
        assert(self.queue_view() =~= old(self).queue_view().push(p));
    }

    pub fn collect_packets_to_send(&mut self) -> (r: Vec<Vec<u8>>)
        ensures
            packets_view(r@) == old(self).queue_view(),
            final(self).queue_view() == Seq::<Seq<u8>>::empty(),
            final(self).next_view() == old(self).next_view(),
    {
        let r = take_packets(&mut self.queue);
        assert(self.queue_view() =~= Seq::<Seq<u8>>::empty());
        r
    }
}

/// Id of the first message a reliable sender emits, and so the first one an
/// ordered receiver waits for.
pub const FIRST_RELIABLE_ID: u16 = 1;

/// What a reliable sender keeps of a message until it is acknowledged.
pub struct InFlightMessage {
    pub message_id: u16,
    pub payload: Vec<u8>,
    /// When it was last emitted, in milliseconds; meaningless while
    /// `send_count` is zero.
    pub last_sent_at: u64,
    /// How often it has been emitted; zero until the first tick after it was
    /// enqueued.
    pub send_count: u32,
}

/// The plain values of an in-flight record.
pub struct InFlightView {
    pub message_id: u16,
    pub payload: Seq<u8>,
    pub last_sent_at: u64,
    pub send_count: u32,
}

impl InFlightMessage {
    pub open spec fn view(&self) -> InFlightView {
        InFlightView {
            message_id: self.message_id,
            payload: self.payload@,
            last_sent_at: self.last_sent_at,
            send_count: self.send_count,
        }
    }
}

/// The plain values of a list of in-flight records.
pub open spec fn records_view(v: Seq<InFlightMessage>) -> Seq<InFlightView> {
    v.map_values(|m: InFlightMessage| m.view())
}

/// Resend timeout in milliseconds: the round-trip estimate times the factor,
/// or the fallback while there is no estimate.
pub open spec fn resend_timeout(rtt_ms: Option<u64>, factor_milli: u32) -> int {
    match rtt_ms {
        Some(rtt) => (rtt as int * factor_milli as int) / 1000,
        None => FALLBACK_RESEND_MS as int,
    }
}

/// A record is emitted at `now` if it was never emitted, or if at least the
/// timeout has passed since it last was.
pub open spec fn is_due(r: InFlightView, now: u64, timeout: int) -> bool {
    r.send_count == 0 || (now >= r.last_sent_at && now - r.last_sent_at >= timeout)
}

/// The packet of a record: its id, then its payload.
pub open spec fn record_packet(r: InFlightView) -> Seq<u8> {
    u16_bytes(r.message_id) + r.payload
}

/// A record after being emitted at `now`.
pub open spec fn mark_sent(r: InFlightView, now: u64) -> InFlightView {
    InFlightView {
        last_sent_at: now,
        send_count: if r.send_count < u32::MAX {
            (r.send_count + 1) as u32
        } else {
            r.send_count
        },
        ..r
    }
}

/// The packets that a tick at `now` emits for `recs`, in their order.
pub open spec fn due_packets(recs: Seq<InFlightView>, now: u64, timeout: int) -> Seq<Seq<u8>>
    decreases recs.len(),
{
    if recs.len() == 0 {
        Seq::empty()
    } else {
        let prev = due_packets(recs.drop_last(), now, timeout);
        if is_due(recs.last(), now, timeout) {
            prev.push(record_packet(recs.last()))
        } else {
            prev
        }
    }
}

/// The records after a tick at `now`: those emitted are marked sent.
pub open spec fn after_tick(recs: Seq<InFlightView>, now: u64, timeout: int) -> Seq<InFlightView> {
    recs.map_values(
        |r: InFlightView|
            if is_due(r, now, timeout) {
                mark_sent(r, now)
            } else {
                r
            },
    )
}

/// The records but those with id `id`, in their order.
pub open spec fn without_id(recs: Seq<InFlightView>, id: u16) -> Seq<InFlightView>
    decreases recs.len(),
{
    if recs.len() == 0 {
        Seq::empty()
    } else {
        let prev = without_id(recs.drop_last(), id);
        if recs.last().message_id != id {
            prev.push(recs.last())
        } else {
            prev
        }
    }
}

/// Sends each message behind an id, keeps it, and sends it again each time
/// the resend timeout has passed, until its id is acknowledged.
pub struct ReliableSender {
    settings: ReliableSettings,
    next_message_id: u16,
    in_flight: Vec<InFlightMessage>,
}

impl ReliableSender {
    /// The records of unacknowledged messages, oldest first.
    pub closed spec fn in_flight_view(&self) -> Seq<InFlightView> {
        records_view(self.in_flight@)
    }

    /// The id the next message gets.
    pub closed spec fn next_view(&self) -> u16 {
        self.next_message_id
    }

    pub closed spec fn settings_view(&self) -> ReliableSettings {
        self.settings
    }

    pub fn new(settings: ReliableSettings) -> (r: Self)
        ensures
            r.in_flight_view() == Seq::<InFlightView>::empty(),
            r.next_view() == FIRST_RELIABLE_ID,
            r.settings_view() == settings,
    {
        let r = ReliableSender { settings, next_message_id: FIRST_RELIABLE_ID, in_flight: Vec::new() };
        assert(r.in_flight_view() =~= Seq::<InFlightView>::empty());
        r
    }

    pub fn settings(&self) -> (r: ReliableSettings)
        ensures
            r == self.settings_view(),
    {
        self.settings
    }

    /// Keeps the payload under the next id, to be emitted on the next tick,
    /// and returns that id.
    pub fn enqueue(&mut self, payload: Vec<u8>) -> (r: u16)
        ensures
            r == old(self).next_view(),
            final(self).next_view() == next_id_spec(r),
            final(self).settings_view() == old(self).settings_view(),
            final(self).in_flight_view() == old(self).in_flight_view().push(
                InFlightView { message_id: r, payload: payload@, last_sent_at: 0, send_count: 0 },
            ),
    {
        let id = self.next_message_id;
        let rec = InFlightMessage { message_id: id, payload, last_sent_at: 0, send_count: 0 };
        let ghost v = rec.view();
        self.in_flight.push(rec);
        self.next_message_id = next_id(id);
        assert(self.in_flight_view() =~= old(self).in_flight_view().push(v));
        id
    }

    /// Emits every record that is due at `now_ms`, given the current round-trip
    /// estimate, and marks those records sent.
    pub fn collect_packets_to_send(&mut self, now_ms: u64, rtt_ms: Option<u64>) -> (r: Vec<
        Vec<u8>,
    >)
        ensures
            ({
                let timeout = resend_timeout(rtt_ms, old(self).settings_view().rtt_resend_factor_milli);
                &&& packets_view(r@) == due_packets(old(self).in_flight_view(), now_ms, timeout)
                &&& final(self).in_flight_view() == after_tick(
                    old(self).in_flight_view(),
                    now_ms,
                    timeout,
                )
            }),
            final(self).next_view() == old(self).next_view(),
            final(self).settings_view() == old(self).settings_view(),
    {
        let ghost timeout = resend_timeout(rtt_ms, self.settings.rtt_resend_factor_milli);
        let ghost recs = self.in_flight_view();
        let timeout_ms: u128 = match rtt_ms {
            Some(rtt) => {
                let r: u128 = rtt as u128;
                let f: u128 = self.settings.rtt_resend_factor_milli as u128;
                assert(r * f <= 0xffff_ffff_ffff_ffffu128 * 0xffff_ffffu128) by (nonlinear_arith)
                    requires
                        r <= 0xffff_ffff_ffff_ffffu128,
                        f <= 0xffff_ffffu128,
                ;
                r * f / 1000
            },
            None => FALLBACK_RESEND_MS as u128,
        };
        assert(timeout_ms == timeout) by (nonlinear_arith)
            requires
                timeout_ms == match rtt_ms {
                    Some(rtt) => (rtt as int * self.settings.rtt_resend_factor_milli as int) / 1000,
                    None => FALLBACK_RESEND_MS as int,
                },
                timeout == resend_timeout(rtt_ms, self.settings.rtt_resend_factor_milli),
        ;
        let mut packets: Vec<Vec<u8>> = Vec::new();
        let mut updated: Vec<InFlightMessage> = Vec::new();
        let mut i: usize = 0;
        while i < self.in_flight.len()
            invariant
                0 <= i <= self.in_flight@.len(),
                recs == self.in_flight_view(),
                timeout_ms == timeout,
                packets_view(packets@) == due_packets(recs.subrange(0, i as int), now_ms, timeout),
                records_view(updated@) == after_tick(recs.subrange(0, i as int), now_ms, timeout),
            decreases self.in_flight@.len() - i,
        {
            let rec = &self.in_flight[i];
            let ghost rv = rec.view();
            let ghost pk_before = packets@;
            let ghost up_before = updated@;
            assert(recs[i as int] == rv);
            assert(recs.subrange(0, i + 1 as int).drop_last() =~= recs.subrange(0, i as int));
            let due = rec.send_count == 0 || (now_ms >= rec.last_sent_at && ((now_ms
                - rec.last_sent_at) as u128) >= timeout_ms);
            assert(due == is_due(rv, now_ms, timeout));
            let next_rec = if due {
                let packet = frame_with_id(rec.message_id, rec.payload.as_slice());
                let ghost pv = packet@;
                packets.push(packet);
                assert(packets_view(packets@) =~= packets_view(pk_before).push(pv));
                InFlightMessage {
                    message_id: rec.message_id,
                    payload: copy_bytes(rec.payload.as_slice()),
                    last_sent_at: now_ms,
                    send_count: rec.send_count.saturating_add(1),
                }
            } else {
                InFlightMessage {
                    message_id: rec.message_id,
                    payload: copy_bytes(rec.payload.as_slice()),
                    last_sent_at: rec.last_sent_at,
                    send_count: rec.send_count,
                }
            };
            let ghost nv = next_rec.view();
            assert(nv == if is_due(rv, now_ms, timeout) {
                mark_sent(rv, now_ms)
            } else {
                rv
            });
            updated.push(next_rec);
            assert(records_view(updated@) =~= records_view(up_before).push(nv));
            assert(after_tick(recs.subrange(0, i + 1 as int), now_ms, timeout) =~= after_tick(
                recs.subrange(0, i as int),
                now_ms,
                timeout,
            ).push(nv));
            i += 1;
        }
        assert(recs.subrange(0, recs.len() as int) =~= recs);
        self.in_flight = updated;
        packets
    }
    /// Forgets every record with id `message_id`; an id that is not in flight
    /// changes nothing.
    pub fn acknowledge(&mut self, message_id: u16)
        ensures
            final(self).in_flight_view() == without_id(old(self).in_flight_view(), message_id),
            final(self).next_view() == old(self).next_view(),
            final(self).settings_view() == old(self).settings_view(),
    {
        let ghost recs = self.in_flight_view();
        let mut kept: Vec<InFlightMessage> = Vec::new();
        let mut i: usize = 0;
        while i < self.in_flight.len()
            invariant
                0 <= i <= self.in_flight@.len(),
                recs == self.in_flight_view(),
                records_view(kept@) == without_id(recs.subrange(0, i as int), message_id),
            decreases self.in_flight@.len() - i,
        {
            let rec = &self.in_flight[i];
            let ghost rv = rec.view();
            let ghost before = kept@;
            assert(recs[i as int] == rv);
            assert(recs.subrange(0, i + 1 as int).drop_last() =~= recs.subrange(0, i as int));
            if rec.message_id != message_id {
                let copy = InFlightMessage {
                    message_id: rec.message_id,
                    payload: copy_bytes(rec.payload.as_slice()),
                    last_sent_at: rec.last_sent_at,
                    send_count: rec.send_count,
                };
                kept.push(copy);
                assert(records_view(kept@) =~= records_view(before).push(rv));
            }
            i += 1;
        }
        assert(recs.subrange(0, recs.len() as int) =~= recs);
        self.in_flight = kept;
    }
}

} // verus!
